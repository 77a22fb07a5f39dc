use rvc_stream::geometry::{compute_geometry, GeometryError, StreamSettings};

fn settings(rate: u32, model: u32, sample_us: u32, fade_us: u32, extra_us: u32) -> StreamSettings {
    StreamSettings {
        sample_rate: rate,
        model_output_sample_rate: model,
        sample_length_us: sample_us,
        crossfade_length_us: fade_us,
        extra_inference_time_us: extra_us,
    }
}

#[test]
fn default_settings_at_48k() {
    let g = compute_geometry(settings(48000, 40000, 300_000, 70_000, 2_000_000)).unwrap();
    assert_eq!(g.zc, 480);
    assert_eq!(g.sample_frame_size, 14400);
    assert_eq!(g.sample_frame_16k, 4800);
    assert_eq!(g.crossfade_frame_size, 3360);
    assert_eq!(g.sola_buffer_frame_size, 1920);
    assert_eq!(g.sola_search_frame_size, 480);
    assert_eq!(g.extra_frame_size, 96000);
    assert_eq!(g.model_return_length, (14400 + 1920 + 480) / 480);
    assert_eq!(g.model_return_size, 35 * 400);
    assert_eq!(g.input_buffer_size, 96000 + 3360 + 480 + 14400);
    assert_eq!(g.input_buffer_16k_size, 160 * (96000 + 3360 + 480 + 14400) / 480);
}

#[test]
fn geometry_at_44_1k_rounds_to_units() {
    // 0.255 s at 44.1 kHz is 25.5 units of 441 samples: halves round up.
    let g = compute_geometry(settings(44100, 48000, 255_000, 20_000, 0)).unwrap();
    assert_eq!(g.zc, 441);
    assert_eq!(g.sample_frame_size, 26 * 441);
    assert_eq!(g.sample_frame_16k, 26 * 160);
    assert_eq!(g.crossfade_frame_size, 2 * 441);
    assert_eq!(g.sola_buffer_frame_size, 2 * 441);
    assert_eq!(g.extra_frame_size, 0);
    assert_eq!(g.model_return_size, 29 * 480);
}

#[test]
fn geometry_sizes_are_aligned_for_many_settings() {
    for &rate in &[8000u32, 16000, 22050, 32000, 44100, 48000, 96000, 12345] {
        for &sample_us in &[10_000u32, 123_456, 300_000, 1_500_000] {
            for &fade_us in &[10_000u32, 70_000, 150_000] {
                let s = settings(rate, 40000, sample_us, fade_us, 1_234_567);
                let g = compute_geometry(s).unwrap();
                assert!(g.zc > 0);
                assert_eq!(g.sample_frame_size % g.zc, 0);
                assert_eq!(g.crossfade_frame_size % g.zc, 0);
                assert_eq!(g.sola_buffer_frame_size % g.zc, 0);
                assert_eq!(g.extra_frame_size % g.zc, 0);
                assert_eq!(g.input_buffer_size % g.zc, 0);
                assert_eq!(g.sample_frame_16k % 160, 0);
                assert_eq!(g.input_buffer_16k_size % 160, 0);
                assert_eq!(
                    g.sola_buffer_frame_size,
                    g.crossfade_frame_size.min(4 * g.zc)
                );
                assert_eq!(compute_geometry(s), Ok(g));
            }
        }
    }
}

#[test]
fn geometry_errors() {
    assert_eq!(
        compute_geometry(settings(99, 40000, 300_000, 70_000, 0)),
        Err(GeometryError::SampleRateTooLow)
    );
    assert_eq!(
        compute_geometry(settings(48000, 50, 300_000, 70_000, 0)),
        Err(GeometryError::ModelRateTooLow)
    );
    assert_eq!(
        compute_geometry(settings(48000, 40000, 4_000, 70_000, 0)),
        Err(GeometryError::EmptySampleFrame)
    );
    assert_eq!(
        compute_geometry(settings(48000, 40000, 300_000, 4_999, 0)),
        Err(GeometryError::EmptyCrossfade)
    );
    // 5 ms is half a unit and rounds up to one.
    assert!(compute_geometry(settings(48000, 40000, 5_000, 5_000, 0)).is_ok());
}
