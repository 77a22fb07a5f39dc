use rvc_stream::engine::{FrameEngine, FrameError};
use rvc_stream::fifo::SampleFifo;
use rvc_stream::geometry::{GeometryError, StreamSettings};
use rvc_stream::stream::next_frame;

fn small() -> StreamSettings {
    // 1 kHz host: zc = 10, frame 20, crossfade 20 -> SOLA buffer 20, search 10
    StreamSettings {
        sample_rate: 1000,
        model_output_sample_rate: 1000,
        sample_length_us: 20_000,
        crossfade_length_us: 20_000,
        extra_inference_time_us: 10_000,
    }
}

fn greater(a: f32, b: f32) -> bool {
    a > b
}

#[test]
fn new_engine_is_silent_and_sized() {
    let e: FrameEngine<f32> = FrameEngine::new(small(), 0.0).unwrap();
    let g = e.geometry();
    assert_eq!(g.sample_frame_size, 20);
    assert_eq!(g.sola_buffer_frame_size, 20);
    assert_eq!(g.sola_search_frame_size, 10);
    assert_eq!(e.input_buffer().len(), 10 + 20 + 10 + 20);
    assert_eq!(e.input_buffer_16k().len(), 160 * 6);
    assert!(e.input_buffer().iter().all(|x| *x == 0.0));
    assert!(e.sola_buffer().iter().all(|x| *x == 0.0));
    assert_eq!(e.settings(), small());
}

#[test]
fn new_engine_rejects_degenerate_settings() {
    let mut s = small();
    s.sample_length_us = 1_000;
    assert!(matches!(
        FrameEngine::<f32>::new(s, 0.0),
        Err(GeometryError::EmptySampleFrame)
    ));
}

#[test]
fn advance_slides_both_windows() {
    let mut e: FrameEngine<i32> = FrameEngine::new(small(), 0).unwrap();
    let frame: Vec<i32> = (1..=20).collect();
    let frame_16k: Vec<i32> = (1..=320).collect();
    e.advance(&frame, &frame_16k).unwrap();
    let buf = e.input_buffer();
    assert_eq!(buf.len(), 60);
    assert!(buf[..40].iter().all(|x| *x == 0));
    assert_eq!(&buf[40..], &frame[..]);
    let buf16 = e.input_buffer_16k();
    assert_eq!(&buf16[960 - 320..], &frame_16k[..]);
    let frame2: Vec<i32> = (21..=40).collect();
    e.advance(&frame2, &frame_16k).unwrap();
    assert_eq!(&e.input_buffer()[20..40], &frame[..]);
    assert_eq!(&e.input_buffer()[40..], &frame2[..]);
}

#[test]
fn advance_rejects_wrong_lengths() {
    let mut e: FrameEngine<i32> = FrameEngine::new(small(), 0).unwrap();
    assert_eq!(e.advance(&[1; 19], &[1; 320]), Err(FrameError::FrameLength));
    assert_eq!(e.advance(&[1; 20], &[1; 321]), Err(FrameError::ResampledLength));
    assert!(e.input_buffer().iter().all(|x| *x == 0));
}

#[test]
fn stitch_picks_offset_and_crossfades() {
    let mut e: FrameEngine<i64> = FrameEngine::new(small(), 0).unwrap();
    let up: Vec<i64> = (0..50).collect();
    let mut scores = vec![0i64; 10];
    scores[3] = 5;
    scores[7] = 5;
    let mix = |new: i64, old: i64, i: usize| new * 1000 + old + i as i64;
    let st = e.stitch(up.clone(), &scores, &|a: i64, b: i64| a > b, &mix).unwrap();
    // ties keep the earlier offset
    assert_eq!(st.offset, 3);
    assert_eq!(st.samples.len(), 20);
    for k in 0..20 {
        assert_eq!(st.samples[k], (3 + k as i64) * 1000 + k as i64);
    }
    // the next SOLA buffer is the output past the frame, unmixed here
    assert_eq!(e.sola_buffer(), &up[23..43]);
    // the next frame mixes against it
    let st2 = e.stitch(vec![0; 50], &[0i64; 10], &|a: i64, b: i64| a > b, &mix).unwrap();
    assert_eq!(st2.offset, 0);
    for k in 0..20 {
        assert_eq!(st2.samples[k], up[23 + k] + k as i64);
    }
}

#[test]
fn stitch_offset_stays_in_search_range() {
    let mut e: FrameEngine<f32> = FrameEngine::new(small(), 0.0).unwrap();
    let scores: Vec<f32> = vec![0.1, 0.9, 0.3, 0.2, 0.0, 0.95, 0.4, 0.1, 0.99, 0.5];
    let st = e
        .stitch(vec![0.0; 50], &scores, &greater, &|a: f32, b: f32, _i: usize| a + b)
        .unwrap();
    assert_eq!(st.offset, 8);
    assert!(st.offset < e.geometry().sola_search_frame_size);
}

#[test]
fn stitch_errors_leave_state() {
    let mut e: FrameEngine<f32> = FrameEngine::new(small(), 0.0).unwrap();
    let mix = |a: f32, b: f32, _i: usize| a + b;
    assert_eq!(
        e.stitch(vec![1.0; 50], &[0.0f32; 9], &greater, &mix).err(),
        Some(FrameError::ScoreCount)
    );
    assert_eq!(
        e.stitch(vec![1.0; 48], &[0.0f32; 10], &greater, &mix).err(),
        Some(FrameError::OutputTooShort)
    );
    assert!(e.sola_buffer().iter().all(|x| *x == 0.0));
}

#[test]
fn silent_input_gives_silent_output() {
    let mut e: FrameEngine<f32> = FrameEngine::new(small(), 0.0).unwrap();
    let n = e.geometry().sola_buffer_frame_size;
    let fade_in: Vec<f32> = (0..n)
        .map(|i| {
            let t = i as f32 / (n - 1) as f32;
            (t * 0.5 * std::f32::consts::PI).sin().powi(2)
        })
        .collect();
    let mix = |new: f32, old: f32, i: usize| new * fade_in[i] + old * (1.0 - fade_in[i]);
    for _ in 0..4 {
        e.advance(&[0.0; 20], &[0.0; 320]).unwrap();
        let st = e.stitch(vec![0.0; 50], &[0.0f32; 10], &greater, &mix).unwrap();
        assert!(st.samples.iter().all(|x| *x == 0.0 && !x.is_nan()));
        assert!(e.sola_buffer().iter().all(|x| *x == 0.0));
    }
}

#[test]
fn reconfigure_clears_queues_and_buffers() {
    let mut e: FrameEngine<f32> = FrameEngine::new(small(), 0.0).unwrap();
    let mut input: SampleFifo<f32> = SampleFifo::new();
    let mut output: SampleFifo<f32> = SampleFifo::new();
    let mut stamps: SampleFifo<u64> = SampleFifo::new();
    input.push_all(&[1.0; 30]);
    output.push_all(&[1.0; 7]);
    stamps.push(42);
    e.advance(&[1.0; 20], &[1.0; 320]).unwrap();
    e.stitch(vec![1.0; 50], &[0.0f32; 10], &greater, &|a: f32, _b: f32, _i: usize| a)
        .unwrap();
    assert!(e.sola_buffer().iter().all(|x| *x == 1.0));

    let mut s = small();
    s.model_output_sample_rate = 2000;
    e.reconfigure(s, &mut input, &mut output, &mut stamps).unwrap();
    assert_eq!(input.len(), 0);
    assert_eq!(output.len(), 0);
    assert_eq!(stamps.len(), 0);
    assert_eq!(e.geometry().model_return_size, 5 * 20);
    assert!(e.input_buffer().iter().all(|x| *x == 0.0));
    assert!(e.input_buffer_16k().iter().all(|x| *x == 0.0));
    assert!(e.sola_buffer().iter().all(|x| *x == 0.0));

    // the next frame blends against silence, not the old SOLA data
    let st = e
        .stitch(vec![0.0; 50], &[0.0f32; 10], &greater, &|a: f32, b: f32, _i: usize| a + b)
        .unwrap();
    assert!(st.samples.iter().all(|x| *x == 0.0));
}

#[test]
fn reconfigure_twice_equals_once() {
    let mut e: FrameEngine<f32> = FrameEngine::new(small(), 0.0).unwrap();
    let mut input: SampleFifo<f32> = SampleFifo::new();
    let mut output: SampleFifo<f32> = SampleFifo::new();
    let mut stamps: SampleFifo<u64> = SampleFifo::new();
    e.advance(&[0.5; 20], &[0.5; 320]).unwrap();
    let mut s = small();
    s.sample_length_us = 30_000;
    e.reconfigure(s, &mut input, &mut output, &mut stamps).unwrap();
    let g1 = e.geometry();
    let b1 = (e.input_buffer().to_vec(), e.input_buffer_16k().to_vec(), e.sola_buffer().to_vec());
    e.reconfigure(s, &mut input, &mut output, &mut stamps).unwrap();
    assert_eq!(e.geometry(), g1);
    assert_eq!(
        (e.input_buffer().to_vec(), e.input_buffer_16k().to_vec(), e.sola_buffer().to_vec()),
        b1
    );
}

#[test]
fn apply_settings_only_rebuilds_on_change() {
    let mut e: FrameEngine<f32> = FrameEngine::new(small(), 0.0).unwrap();
    let mut input: SampleFifo<f32> = SampleFifo::new();
    let mut output: SampleFifo<f32> = SampleFifo::new();
    let mut stamps: SampleFifo<u64> = SampleFifo::new();
    input.push_all(&[1.0; 5]);
    assert_eq!(e.apply_settings(small(), &mut input, &mut output, &mut stamps), Ok(false));
    assert_eq!(input.len(), 5);
    let mut s = small();
    s.crossfade_length_us = 10_000;
    assert_eq!(e.apply_settings(s, &mut input, &mut output, &mut stamps), Ok(true));
    assert_eq!(input.len(), 0);
    assert_eq!(e.geometry().sola_buffer_frame_size, 10);
    let mut bad = s;
    bad.sample_rate = 10;
    input.push_all(&[1.0; 5]);
    assert_eq!(
        e.apply_settings(bad, &mut input, &mut output, &mut stamps),
        Err(GeometryError::SampleRateTooLow)
    );
    assert_eq!(input.len(), 5);
    assert_eq!(e.settings(), s);
}

#[test]
fn worker_takes_whole_frames_only() {
    let e: FrameEngine<f32> = FrameEngine::new(small(), 0.0).unwrap();
    let mut input: SampleFifo<f32> = SampleFifo::new();
    input.push_all(&[0.25; 19]);
    assert_eq!(next_frame(&e, &mut input), None);
    input.push_all(&[0.5; 3]);
    let f = next_frame(&e, &mut input).unwrap();
    assert_eq!(f.len(), 20);
    assert_eq!(f[18], 0.25);
    assert_eq!(f[19], 0.5);
    assert_eq!(input.len(), 2);
}

#[test]
fn stitch_accepts_output_just_long_enough_for_last_offset() {
    // frame 20 + SOLA buffer 20 + search 10 - 1 = 49 samples
    let mut e: FrameEngine<i64> = FrameEngine::new(small(), 0).unwrap();
    let up: Vec<i64> = (0..49).collect();
    let mut scores = vec![0i64; 10];
    scores[9] = 1;
    let st = e
        .stitch(up.clone(), &scores, &|a: i64, b: i64| a > b, &|n: i64, _o: i64, _i: usize| n)
        .unwrap();
    assert_eq!(st.offset, 9);
    assert_eq!(st.samples, up[9..29].to_vec());
    assert_eq!(e.sola_buffer(), &up[29..49]);
}
