//! The frame processor's persistent state: geometry, the two sliding input
//! windows and the SOLA buffer, with the steps that advance it one frame at
//! a time and the reconfiguration that rebuilds it.
use crate::fifo::SampleFifo;
use crate::geometry::{
    compute_geometry, geometry_spec, lemma_geometry_aligned, settings_error, well_formed_geometry,
    Geometry, GeometryError, GeometryModel, StreamSettings,
};
use crate::sola::{blended_at, copy_range, crossfade, scan_choice, slide_window, sola_offset};
use vstd::prelude::*;

verus! {

/// Why one frame could not be processed; the state is left as it was.
#[derive(Clone, Copy, Debug, PartialEq, Eq, Structural)]
pub enum FrameError {
    /// The host-rate frame is not `sample_frame_size` long.
    FrameLength,
    /// The downsampled frame is not `sample_frame_16k` long.
    ResampledLength,
    /// There is not one score per offset of the SOLA search.
    ScoreCount,
    /// The upsampled model output is shorter than
    /// `sample_frame_size + sola_buffer_frame_size + sola_search_frame_size - 1`,
    /// what the largest offset of the search needs.
    OutputTooShort,
}

/// The output of one frame: the finished samples and the SOLA offset used.
pub struct Stitched<T> {
    pub samples: Vec<T>,
    pub offset: usize,
}

/// Persistent state of the frame processor.
pub struct FrameEngine<T> {
    settings: StreamSettings,
    geometry: Geometry,
    zero: T,
    input_buffer: Vec<T>,
    input_buffer_16k: Vec<T>,
    sola_buffer: Vec<T>,
}

/// The mathematical counterpart of [`FrameEngine`].
pub struct EngineView<T> {
    pub settings: StreamSettings,
    pub geometry: GeometryModel,
    /// The silent sample that fresh buffers are filled with.
    pub zero: T,
    /// Host-rate sliding window.
    pub input: Seq<T>,
    /// 16 kHz sliding window.
    pub input_16k: Seq<T>,
    /// Tail of the previous output window.
    pub sola: Seq<T>,
}

impl<T> View for FrameEngine<T> {
    type V = EngineView<T>;

    closed spec fn view(&self) -> EngineView<T> {
        EngineView {
            settings: self.settings,
            geometry: self.geometry@,
            zero: self.zero,
            input: self.input_buffer@,
            input_16k: self.input_buffer_16k@,
            sola: self.sola_buffer@,
        }
    }
}

/// `n` silent samples.
pub open spec fn zeros<T>(n: int, zero: T) -> Seq<T> {
    Seq::new(n as nat, |_i: int| zero)
}

/// The state right after building or rebuilding for `s`: all buffers sized
/// by its geometry and silent.
pub open spec fn fresh_view<T>(s: StreamSettings, zero: T) -> EngineView<T> {
    let g = geometry_spec(s);
    EngineView {
        settings: s,
        geometry: g,
        zero,
        input: zeros(g.input_buffer_size, zero),
        input_16k: zeros(g.input_buffer_16k_size, zero),
        sola: zeros(g.sola_buffer_frame_size, zero),
    }
}

/// The state after a reconfiguration of `v` for `s`: fresh when `s` has a
/// geometry, else `v` unchanged.
pub open spec fn reconfigured<T>(v: EngineView<T>, s: StreamSettings) -> EngineView<T> {
    if settings_error(s).is_none() {
        fresh_view(s, v.zero)
    } else {
        v
    }
}

/// The geometry belongs to the settings, is aligned to its units, and
/// every buffer has its size.
pub open spec fn engine_wf<T>(v: EngineView<T>) -> bool {
    &&& settings_error(v.settings).is_none()
    &&& v.geometry == geometry_spec(v.settings)
    &&& well_formed_geometry(v.geometry)
    &&& v.input.len() == v.geometry.input_buffer_size
    &&& v.input_16k.len() == v.geometry.input_buffer_16k_size
    &&& v.sola.len() == v.geometry.sola_buffer_frame_size
}

/// Reconfiguring twice with the same settings leaves the same state as
/// reconfiguring once, from any state: the same geometry and the same
/// silent buffers.
pub proof fn lemma_reconfigure_idempotent<T>(v: EngineView<T>, s: StreamSettings)
    ensures
        reconfigured(reconfigured(v, s), s) == reconfigured(v, s),
{
}

/// A usable geometry gives a well-formed fresh state.
proof fn lemma_fresh_wf<T>(s: StreamSettings, zero: T)
    requires
        settings_error(s).is_none(),
    ensures
        engine_wf(fresh_view(s, zero)),
        well_formed_geometry(geometry_spec(s)),
{
    lemma_geometry_aligned(s);
}

/// `n` copies of `zero`.
fn zeroed<T: Copy>(n: usize, zero: T) -> (r: Vec<T>)
    ensures
        r@ == zeros(n as int, zero),
{
    let mut r: Vec<T> = Vec::new();
    let mut i: usize = 0;
    while i < n
        invariant
            0 <= i <= n,
            r@ == zeros(i as int, zero),
        decreases n - i,
    {
        r.push(zero);
        i = i + 1;
        assert(r@ =~= zeros(i as int, zero));
    }
    r
}

impl<T: Copy> FrameEngine<T> {
    pub open spec fn wf(&self) -> bool {
        engine_wf(self@)
    }

    fn build(s: StreamSettings, g: Geometry, zero: T) -> (r: Self)
        requires
            settings_error(s).is_none(),
            g@ == geometry_spec(s),
        ensures
            r@ == fresh_view(s, zero),
            r.wf(),
    {
        proof {
            lemma_fresh_wf(s, zero);
        }
        FrameEngine {
            settings: s,
            geometry: g,
            zero,
            input_buffer: zeroed(g.input_buffer_size, zero),
            input_buffer_16k: zeroed(g.input_buffer_16k_size, zero),
            sola_buffer: zeroed(g.sola_buffer_frame_size, zero),
        }
    }

    /// Builds the state for `s` with silent buffers, or says why `s` has no
    /// geometry.
    pub fn new(s: StreamSettings, zero: T) -> (r: Result<Self, GeometryError>)
        ensures
            match r {
                Ok(e) => settings_error(s).is_none() && e@ == fresh_view(s, zero) && e.wf(),
                Err(err) => settings_error(s) == Some(err),
            },
    {
        match compute_geometry(s) {
            Ok(g) => Ok(Self::build(s, g, zero)),
            Err(e) => Err(e),
        }
    }

    /// Rebuilds the state for `s` and empties both sample queues and the
    /// pending timestamps that went with their frames. When `s` has no
    /// geometry, nothing changes and the reason is returned.
    pub fn reconfigure(
        &mut self,
        s: StreamSettings,
        input: &mut SampleFifo<T>,
        output: &mut SampleFifo<T>,
        stamps: &mut SampleFifo<u64>,
    ) -> (r: Result<(), GeometryError>)
        requires
            old(self).wf(),
        ensures
            final(self).wf(),
            final(self)@ == reconfigured(old(self)@, s),
            match r {
                Ok(()) => settings_error(s).is_none() && final(input)@ == Seq::<T>::empty()
                    && final(output)@ == Seq::<T>::empty() && final(stamps)@ == Seq::<u64>::empty(),
                Err(e) => settings_error(s) == Some(e) && final(input)@ == old(input)@
                    && final(output)@ == old(output)@ && final(stamps)@ == old(stamps)@,
            },
    {
        match compute_geometry(s) {
            Ok(g) => {
                *self = Self::build(s, g, self.zero);
                input.clear();
                output.clear();
                stamps.clear();
                Ok(())
            },
            Err(e) => Err(e),
        }
    }

    /// Applies `s` when it differs from the current settings, as
    /// [`Self::reconfigure`] does, and says whether it did.
    pub fn apply_settings(
        &mut self,
        s: StreamSettings,
        input: &mut SampleFifo<T>,
        output: &mut SampleFifo<T>,
        stamps: &mut SampleFifo<u64>,
    ) -> (r: Result<bool, GeometryError>)
        requires
            old(self).wf(),
        ensures
            final(self).wf(),
            s == old(self)@.settings ==> r == Ok::<bool, GeometryError>(false) && final(self)@
                == old(self)@ && final(input)@ == old(input)@ && final(output)@ == old(output)@
                && final(stamps)@ == old(stamps)@,
            s != old(self)@.settings ==> final(self)@ == reconfigured(old(self)@, s) && match r {
                Ok(changed) => changed && settings_error(s).is_none() && final(input)@
                    == Seq::<T>::empty() && final(output)@ == Seq::<T>::empty() && final(stamps)@
                    == Seq::<u64>::empty(),
                Err(e) => settings_error(s) == Some(e) && final(input)@ == old(input)@
                    && final(output)@ == old(output)@ && final(stamps)@ == old(stamps)@,
            },
    {
        if s == self.settings {
            return Ok(false);
        }
        match self.reconfigure(s, input, output, stamps) {
            Ok(()) => Ok(true),
            Err(e) => Err(e),
        }
    }

    pub fn settings(&self) -> (r: StreamSettings)
        ensures
            r == self@.settings,
    {
        self.settings
    }

    pub fn geometry(&self) -> (r: Geometry)
        ensures
            r@ == self@.geometry,
    {
        self.geometry
    }

    /// The host-rate sliding window.
    pub fn input_buffer(&self) -> (r: &[T])
        ensures
            r@ == self@.input,
    {
        self.input_buffer.as_slice()
    }

    /// The 16 kHz sliding window, which is what inference reads.
    pub fn input_buffer_16k(&self) -> (r: &[T])
        ensures
            r@ == self@.input_16k,
    {
        self.input_buffer_16k.as_slice()
    }

    /// The tail of the previous output window.
    pub fn sola_buffer(&self) -> (r: &[T])
        ensures
            r@ == self@.sola,
    {
        self.sola_buffer.as_slice()
    }

    /// Slides both input windows by one frame: `frame` enters the
    /// host-rate window and `frame_16k`, the same frame downsampled to
    /// 16 kHz, enters the 16 kHz window.
    pub fn advance(&mut self, frame: &[T], frame_16k: &[T]) -> (r: Result<(), FrameError>)
        requires
            old(self).wf(),
        ensures
            final(self).wf(),
            match r {
                Ok(()) => {
                    &&& frame@.len() == old(self)@.geometry.sample_frame_size
                    &&& frame_16k@.len() == old(self)@.geometry.sample_frame_16k
                    &&& final(self)@.input == old(self)@.input.skip(frame@.len() as int) + frame@
                    &&& final(self)@.input_16k == old(self)@.input_16k.skip(
                        frame_16k@.len() as int,
                    ) + frame_16k@
                    &&& final(self)@.settings == old(self)@.settings
                    &&& final(self)@.geometry == old(self)@.geometry
                    &&& final(self)@.zero == old(self)@.zero
                    &&& final(self)@.sola == old(self)@.sola
                },
                Err(FrameError::FrameLength) => frame@.len()
                    != old(self)@.geometry.sample_frame_size && final(self)@ == old(self)@,
                Err(FrameError::ResampledLength) => frame@.len()
                    == old(self)@.geometry.sample_frame_size && frame_16k@.len()
                    != old(self)@.geometry.sample_frame_16k && final(self)@ == old(self)@,
                Err(_) => false,
            },
    {
        proof {
            lemma_geometry_aligned(self.settings);
        }
        if frame.len() != self.geometry.sample_frame_size {
            return Err(FrameError::FrameLength);
        }
        if frame_16k.len() != self.geometry.sample_frame_16k {
            return Err(FrameError::ResampledLength);
        }
        slide_window(&mut self.input_buffer, frame);
        slide_window(&mut self.input_buffer_16k, frame_16k);
        Ok(())
    }

    /// Finishes one frame from the upsampled model output: picks the SOLA
    /// offset from `scores` (one per offset of the search), mixes the
    /// previous SOLA buffer into the output from that offset on with `mix`
    /// (called with the new sample, the old sample and the position), keeps
    /// the mixed output at `[sample_frame_size, sample_frame_size +
    /// sola_buffer_frame_size)` past the offset as the next SOLA buffer, and
    /// returns its first `sample_frame_size` samples past the offset.
    pub fn stitch<S: Copy, G: Fn(S, S) -> bool, M: Fn(T, T, usize) -> T>(
        &mut self,
        upsampled: Vec<T>,
        scores: &[S],
        greater: &G,
        mix: &M,
    ) -> (r: Result<Stitched<T>, FrameError>)
        requires
            old(self).wf(),
            forall|a: S, b: S| call_requires(*greater, (a, b)),
            forall|a: T, b: T, i: usize| call_requires(*mix, (a, b, i)),
        ensures
            final(self).wf(),
            match r {
                Ok(st) => {
                    let g = old(self)@.geometry;
                    &&& scores@.len() == g.sola_search_frame_size
                    &&& upsampled@.len() >= g.sample_frame_size + g.sola_buffer_frame_size
                        + g.sola_search_frame_size - 1
                    &&& st.offset < g.sola_search_frame_size
                    &&& scan_choice(*greater, scores@, st.offset as int)
                    &&& st.samples@.len() == g.sample_frame_size
                    &&& forall|k: int|
                        0 <= k < g.sample_frame_size ==> blended_at(
                            *mix,
                            upsampled@,
                            old(self)@.sola,
                            st.offset as int,
                            k,
                            #[trigger] st.samples@[k],
                        )
                    &&& final(self)@.sola.len() == g.sola_buffer_frame_size
                    &&& forall|k: int|
                        0 <= k < g.sola_buffer_frame_size ==> blended_at(
                            *mix,
                            upsampled@,
                            old(self)@.sola,
                            st.offset as int,
                            g.sample_frame_size + k,
                            #[trigger] final(self)@.sola[k],
                        )
                    &&& final(self)@.settings == old(self)@.settings
                    &&& final(self)@.geometry == old(self)@.geometry
                    &&& final(self)@.zero == old(self)@.zero
                    &&& final(self)@.input == old(self)@.input
                    &&& final(self)@.input_16k == old(self)@.input_16k
                },
                Err(FrameError::ScoreCount) => scores@.len()
                    != old(self)@.geometry.sola_search_frame_size && final(self)@ == old(self)@,
                Err(FrameError::OutputTooShort) => scores@.len()
                    == old(self)@.geometry.sola_search_frame_size && upsampled@.len()
                    < old(self)@.geometry.sample_frame_size
                    + old(self)@.geometry.sola_buffer_frame_size
                    + old(self)@.geometry.sola_search_frame_size - 1
                    && final(self)@ == old(self)@,
                Err(_) => false,
            },
    {
        proof {
            lemma_geometry_aligned(self.settings);
        }
        let sfs = self.geometry.sample_frame_size;
        let sbs = self.geometry.sola_buffer_frame_size;
        let search = self.geometry.sola_search_frame_size;
        if scores.len() != search {
            return Err(FrameError::ScoreCount);
        }
        if upsampled.len() < sfs || upsampled.len() - sfs < sbs || upsampled.len() - sfs - sbs
            < search - 1 {
            return Err(FrameError::OutputTooShort);
        }
        let offset = sola_offset(scores, greater);
        let mut out = upsampled;
        crossfade(&mut out, offset, self.sola_buffer.as_slice(), mix);
        let next_sola = copy_range(out.as_slice(), offset + sfs, sbs);
        let samples = copy_range(out.as_slice(), offset, sfs);
        let ghost prev = self.sola_buffer@;
        self.sola_buffer = next_sola;
        assert forall|k: int| 0 <= k < sfs implies blended_at(
            *mix,
            upsampled@,
            prev,
            offset as int,
            k,
            #[trigger] samples@[k],
        ) by {
            assert(samples@[k] == out@[offset + k]);
        }
        assert forall|k: int| 0 <= k < sbs implies blended_at(
            *mix,
            upsampled@,
            prev,
            offset as int,
            sfs + k,
            #[trigger] self.sola_buffer@[k],
        ) by {
            assert(self.sola_buffer@[k] == out@[offset + (sfs + k)]);
        }
        Ok(Stitched { samples, offset })
    }
}

} // verus!
