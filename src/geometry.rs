//! Frame geometry: every buffer size of the pipeline, derived from the host
//! sample rate, the model's output rate and three durations.
//!
//! Durations are whole microseconds. A duration becomes a count of 10 ms
//! units (`zc` samples each, `zc = sample_rate / 100`), rounded to the
//! nearest count with halves rounding up, and every host-rate size is that
//! count times `zc`; every 16 kHz size is a count times 160.
use vstd::arithmetic::div_mod::{lemma_div_multiples_vanish, lemma_mod_multiples_basic};
use vstd::prelude::*;

verus! {

/// Microseconds in one second.
pub const MICROS_PER_SECOND: u128 = 1000000;

/// Samples of the 16 kHz analysis domain in one 10 ms unit.
pub const UNIT_16K: u128 = 160;

/// The tunable quantities that decide the geometry.
#[derive(Clone, Copy, Debug, PartialEq, Eq, Structural)]
pub struct StreamSettings {
    /// Host sample rate in Hz.
    pub sample_rate: u32,
    /// Rate in Hz at which the inference engine returns audio.
    pub model_output_sample_rate: u32,
    /// Length of one analysis frame.
    pub sample_length_us: u32,
    /// Length of the crossfade between successive frames.
    pub crossfade_length_us: u32,
    /// Lookback context handed to inference in front of each frame.
    pub extra_inference_time_us: u32,
}

/// Why a set of settings has no usable geometry.
#[derive(Clone, Copy, Debug, PartialEq, Eq, Structural)]
pub enum GeometryError {
    /// The host rate is under 100 Hz, so a 10 ms unit holds no sample.
    SampleRateTooLow,
    /// The model's output rate is under 100 Hz.
    ModelRateTooLow,
    /// The analysis frame rounds to zero units.
    EmptySampleFrame,
    /// The crossfade rounds to zero units.
    EmptyCrossfade,
    /// Some size does not fit in `usize`.
    TooLarge,
}

/// All frame sizes, as executable values.
#[derive(Clone, Copy, Debug, PartialEq, Eq, Structural)]
pub struct Geometry {
    pub sample_rate: usize,
    pub model_output_sample_rate: usize,
    pub zc: usize,
    pub sample_frame_size: usize,
    pub sample_frame_16k: usize,
    pub crossfade_frame_size: usize,
    pub sola_buffer_frame_size: usize,
    pub sola_search_frame_size: usize,
    pub extra_frame_size: usize,
    pub model_return_length: usize,
    pub model_return_size: usize,
    /// Length of the host-rate sliding window.
    pub input_buffer_size: usize,
    /// Length of the 16 kHz sliding window.
    pub input_buffer_16k_size: usize,
}

/// The mathematical counterpart of [`Geometry`].
pub struct GeometryModel {
    pub sample_rate: int,
    pub model_output_sample_rate: int,
    pub zc: int,
    pub sample_frame_size: int,
    pub sample_frame_16k: int,
    pub crossfade_frame_size: int,
    pub sola_buffer_frame_size: int,
    pub sola_search_frame_size: int,
    pub extra_frame_size: int,
    pub model_return_length: int,
    pub model_return_size: int,
    pub input_buffer_size: int,
    pub input_buffer_16k_size: int,
}

impl View for Geometry {
    type V = GeometryModel;

    open spec fn view(&self) -> GeometryModel {
        GeometryModel {
            sample_rate: self.sample_rate as int,
            model_output_sample_rate: self.model_output_sample_rate as int,
            zc: self.zc as int,
            sample_frame_size: self.sample_frame_size as int,
            sample_frame_16k: self.sample_frame_16k as int,
            crossfade_frame_size: self.crossfade_frame_size as int,
            sola_buffer_frame_size: self.sola_buffer_frame_size as int,
            sola_search_frame_size: self.sola_search_frame_size as int,
            extra_frame_size: self.extra_frame_size as int,
            model_return_length: self.model_return_length as int,
            model_return_size: self.model_return_size as int,
            input_buffer_size: self.input_buffer_size as int,
            input_buffer_16k_size: self.input_buffer_16k_size as int,
        }
    }
}

/// Samples in 10 ms at `rate` (whole samples, rounded down).
pub open spec fn zc_of(rate: int) -> int {
    rate / 100
}

/// `us * rate / zc` rounded to the nearest integer, halves rounding up:
/// the duration `us` as a count of 10 ms units.
pub open spec fn units_of(us: int, rate: int) -> int {
    (2 * us * rate + zc_of(rate) * 1000000) / (2 * zc_of(rate) * 1000000)
}

pub open spec fn min_int(a: int, b: int) -> int {
    if a <= b { a } else { b }
}

/// The geometry that `s` describes, in exact integers.
pub open spec fn geometry_spec(s: StreamSettings) -> GeometryModel {
    let rate = s.sample_rate as int;
    let zc = zc_of(rate);
    let sample_units = units_of(s.sample_length_us as int, rate);
    let sample_frame_size = sample_units * zc;
    let crossfade_frame_size = units_of(s.crossfade_length_us as int, rate) * zc;
    let sola_buffer_frame_size = min_int(crossfade_frame_size, 4 * zc);
    let sola_search_frame_size = zc;
    let extra_frame_size = units_of(s.extra_inference_time_us as int, rate) * zc;
    let model_return_length = (sample_frame_size + sola_buffer_frame_size + sola_search_frame_size)
        / zc;
    let input_buffer_size = extra_frame_size + crossfade_frame_size + sola_search_frame_size
        + sample_frame_size;
    GeometryModel {
        sample_rate: rate,
        model_output_sample_rate: s.model_output_sample_rate as int,
        zc,
        sample_frame_size,
        sample_frame_16k: sample_units * 160,
        crossfade_frame_size,
        sola_buffer_frame_size,
        sola_search_frame_size,
        extra_frame_size,
        model_return_length,
        model_return_size: model_return_length * zc_of(s.model_output_sample_rate as int),
        input_buffer_size,
        input_buffer_16k_size: 160 * input_buffer_size / zc,
    }
}

/// Every size of `m` fits in `usize`.
pub open spec fn fits_usize(m: GeometryModel) -> bool {
    &&& m.sample_rate <= usize::MAX
    &&& m.model_output_sample_rate <= usize::MAX
    &&& m.zc <= usize::MAX
    &&& m.sample_frame_size <= usize::MAX
    &&& m.sample_frame_16k <= usize::MAX
    &&& m.crossfade_frame_size <= usize::MAX
    &&& m.sola_buffer_frame_size <= usize::MAX
    &&& m.sola_search_frame_size <= usize::MAX
    &&& m.extra_frame_size <= usize::MAX
    &&& m.model_return_length <= usize::MAX
    &&& m.model_return_size <= usize::MAX
    &&& m.input_buffer_size <= usize::MAX
    &&& m.input_buffer_16k_size <= usize::MAX
}

/// The error that `s` is rejected with, checked in this order; `None` when
/// its geometry is usable.
pub open spec fn settings_error(s: StreamSettings) -> Option<GeometryError> {
    let rate = s.sample_rate as int;
    if zc_of(rate) == 0 {
        Some(GeometryError::SampleRateTooLow)
    } else if zc_of(s.model_output_sample_rate as int) == 0 {
        Some(GeometryError::ModelRateTooLow)
    } else if units_of(s.sample_length_us as int, rate) == 0 {
        Some(GeometryError::EmptySampleFrame)
    } else if units_of(s.crossfade_length_us as int, rate) == 0 {
        Some(GeometryError::EmptyCrossfade)
    } else if !fits_usize(geometry_spec(s)) {
        Some(GeometryError::TooLarge)
    } else {
        None
    }
}

/// The sizes that a usable geometry always has: each host-rate size a
/// multiple of `zc`, each 16 kHz size a multiple of 160, and each window
/// long enough for the frame that slides into it.
pub open spec fn well_formed_geometry(m: GeometryModel) -> bool {
    &&& m.zc > 0
    &&& m.sample_frame_size > 0
    &&& m.sola_buffer_frame_size > 0
    &&& m.sample_frame_size % m.zc == 0
    &&& m.crossfade_frame_size % m.zc == 0
    &&& m.sola_buffer_frame_size % m.zc == 0
    &&& m.sola_search_frame_size == m.zc
    &&& m.extra_frame_size % m.zc == 0
    &&& m.input_buffer_size % m.zc == 0
    &&& m.sample_frame_16k % 160 == 0
    &&& m.input_buffer_16k_size % 160 == 0
    &&& m.sola_buffer_frame_size <= m.crossfade_frame_size
    &&& m.sola_buffer_frame_size <= 4 * m.zc
    &&& m.sample_frame_size <= m.input_buffer_size
    &&& m.sample_frame_16k <= m.input_buffer_16k_size
    &&& m.model_return_length * m.zc == m.sample_frame_size + m.sola_buffer_frame_size
        + m.sola_search_frame_size
}

/// A whole number of units of `zc` samples is a multiple of `zc`.
proof fn lemma_whole_units(k: int, zc: int)
    requires
        zc > 0,
        k >= 0,
    ensures
        (k * zc) % zc == 0,
        (k * zc) / zc == k,
        k * zc >= 0,
        k > 0 ==> k * zc >= zc,
{
    lemma_mod_multiples_basic(k, zc);
    lemma_div_multiples_vanish(k, zc);
    assert(zc * k == k * zc) by (nonlinear_arith);
    assert(k * zc >= 0) by (nonlinear_arith)
        requires
            zc > 0,
            k >= 0,
    ;
    assert(k > 0 ==> k * zc >= zc) by (nonlinear_arith)
        requires
            zc > 0,
            k >= 0,
    ;
}

/// A rounded duration is never negative.
proof fn lemma_units_nonneg(us: int, rate: int)
    requires
        us >= 0,
        rate >= 100,
    ensures
        units_of(us, rate) >= 0,
{
    let num = 2 * us * rate + zc_of(rate) * 1000000;
    let den = 2 * zc_of(rate) * 1000000;
    assert(num >= 0) by (nonlinear_arith)
        requires
            us >= 0,
            rate >= 100,
            zc_of(rate) >= 1,
            num == 2 * us * rate + zc_of(rate) * 1000000,
    ;
    assert(num / den >= 0) by (nonlinear_arith)
        requires
            num >= 0,
            den > 0,
    ;
}

/// For all settings that have a geometry, every host-rate size is a whole
/// multiple of `zc`, every 16 kHz size a whole multiple of 160, and the
/// windows hold the frames that slide into them. The geometry is a function
/// of the settings alone, so deriving it twice gives the same sizes.
pub proof fn lemma_geometry_aligned(s: StreamSettings)
    requires
        settings_error(s).is_none(),
    ensures
        well_formed_geometry(geometry_spec(s)),
{
    let rate = s.sample_rate as int;
    let zc = zc_of(rate);
    let su = units_of(s.sample_length_us as int, rate);
    let cu = units_of(s.crossfade_length_us as int, rate);
    let eu = units_of(s.extra_inference_time_us as int, rate);
    let m = geometry_spec(s);
    lemma_units_nonneg(s.sample_length_us as int, rate);
    lemma_units_nonneg(s.crossfade_length_us as int, rate);
    lemma_units_nonneg(s.extra_inference_time_us as int, rate);
    lemma_whole_units(su, zc);
    lemma_whole_units(cu, zc);
    lemma_whole_units(eu, zc);
    lemma_whole_units(4, zc);
    lemma_whole_units(su, 160);
    let k = if cu <= 4 { cu } else { 4 };
    assert(k * zc == m.sola_buffer_frame_size) by (nonlinear_arith)
        requires
            k == (if cu <= 4 { cu } else { 4 }),
            m.sola_buffer_frame_size == min_int(cu * zc, 4 * zc),
            zc > 0,
    ;
    lemma_whole_units(k, zc);
    let total = eu + cu + 1 + su;
    assert(total * zc == m.input_buffer_size) by (nonlinear_arith)
        requires
            total == eu + cu + 1 + su,
            m.input_buffer_size == eu * zc + cu * zc + zc + su * zc,
    ;
    lemma_whole_units(total, zc);
    assert(m.input_buffer_16k_size == 160 * total) by (nonlinear_arith)
        requires
            m.input_buffer_16k_size == 160 * (total * zc) / zc,
            zc > 0,
            total >= 0,
            (total * zc) / zc == total,
    {
        assert(160 * (total * zc) == (160 * total) * zc);
        lemma_div_multiples_vanish(160 * total, zc);
        assert(zc * (160 * total) == (160 * total) * zc);
    }
    lemma_whole_units(total, 160);
    assert(total * 160 == 160 * total);
    assert(su * 160 <= total * 160) by (nonlinear_arith)
        requires
            su <= total,
    ;
    let r = su + k + 1;
    assert(r * zc == m.sample_frame_size + m.sola_buffer_frame_size + m.sola_search_frame_size)
        by (nonlinear_arith)
        requires
            r == su + k + 1,
            m.sample_frame_size == su * zc,
            m.sola_buffer_frame_size == k * zc,
            m.sola_search_frame_size == zc,
    ;
    lemma_whole_units(r, zc);
}

/// Rounds `us` at `rate` to a count of 10 ms units.
fn duration_units(us: u32, rate: u32) -> (r: u128)
    requires
        rate >= 100,
    ensures
        r == units_of(us as int, rate as int),
        r <= 0x4_0000_0000_0000_0000_0,
{
    let zc = (rate / 100) as u128;
    assert((us as int) * (rate as int) <= 0xffff_ffff * 0xffff_ffff) by (nonlinear_arith);
    let prod = (us as u128) * (rate as u128);
    let den = 2 * zc * MICROS_PER_SECOND;
    let num = 2 * prod + zc * MICROS_PER_SECOND;
    assert(num == 2 * (us as int) * (rate as int) + zc_of(rate as int) * 1000000
        && den == 2 * zc_of(rate as int) * 1000000) by (nonlinear_arith)
        requires
            prod == (us as int) * (rate as int),
            num == 2 * prod + zc * 1000000,
            den == 2 * zc * 1000000,
            zc == zc_of(rate as int),
    ;
    let r = num / den;
    assert(r <= num) by (nonlinear_arith)
        requires
            den >= 1,
            r == num / den,
            num >= 0,
    ;
    r
}

/// Converts a size known to fit.
fn narrow(v: u128) -> (r: usize)
    requires
        v <= usize::MAX,
    ensures
        r == v,
{
    v as usize
}

/// Derives the geometry of `s`, or says why it has none.
pub fn compute_geometry(s: StreamSettings) -> (r: Result<Geometry, GeometryError>)
    ensures
        match r {
            Ok(g) => settings_error(s).is_none() && g@ == geometry_spec(s),
            Err(e) => settings_error(s) == Some(e),
        },
{
    if s.sample_rate < 100 {
        return Err(GeometryError::SampleRateTooLow);
    }
    if s.model_output_sample_rate < 100 {
        return Err(GeometryError::ModelRateTooLow);
    }
    let rate = s.sample_rate;
    let zc = (rate / 100) as u128;
    let model_zc = (s.model_output_sample_rate / 100) as u128;
    let sample_units = duration_units(s.sample_length_us, rate);
    if sample_units == 0 {
        return Err(GeometryError::EmptySampleFrame);
    }
    let crossfade_units = duration_units(s.crossfade_length_us, rate);
    if crossfade_units == 0 {
        return Err(GeometryError::EmptyCrossfade);
    }
    let extra_units = duration_units(s.extra_inference_time_us, rate);
    assert(zc < 0x400_0000);
    assert(sample_units * zc <= 0x4_0000_0000_0000_0000_0 * 0x400_0000) by (nonlinear_arith)
        requires
            sample_units <= 0x4_0000_0000_0000_0000_0,
            zc < 0x400_0000,
    ;
    assert(crossfade_units * zc <= 0x4_0000_0000_0000_0000_0 * 0x400_0000) by (nonlinear_arith)
        requires
            crossfade_units <= 0x4_0000_0000_0000_0000_0,
            zc < 0x400_0000,
    ;
    assert(extra_units * zc <= 0x4_0000_0000_0000_0000_0 * 0x400_0000) by (nonlinear_arith)
        requires
            extra_units <= 0x4_0000_0000_0000_0000_0,
            zc < 0x400_0000,
    ;
    let sample_frame_size = sample_units * zc;
    let sample_frame_16k = sample_units * UNIT_16K;
    let crossfade_frame_size = crossfade_units * zc;
    let sola_buffer_frame_size = if crossfade_frame_size <= 4 * zc {
        crossfade_frame_size
    } else {
        4 * zc
    };
    let sola_search_frame_size = zc;
    let extra_frame_size = extra_units * zc;
    let returned = sample_frame_size + sola_buffer_frame_size + sola_search_frame_size;
    let model_return_length = returned / zc;
    assert(model_return_length <= returned) by (nonlinear_arith)
        requires
            zc >= 1,
            model_return_length == returned / zc,
    ;
    assert(model_return_length * model_zc <= 0x4_0000_0000_0000_0000_0000_0000 * 0x400_0000)
        by (nonlinear_arith)
        requires
            model_return_length <= 0x4_0000_0000_0000_0000_0000_0000,
            model_zc < 0x400_0000,
    ;
    let model_return_size = model_return_length * model_zc;
    let input_buffer_size = extra_frame_size + crossfade_frame_size + sola_search_frame_size
        + sample_frame_size;
    let input_buffer_16k_size = UNIT_16K * input_buffer_size / zc;
    let max = usize::MAX as u128;
    if rate as u128 > max || s.model_output_sample_rate as u128 > max || zc > max
        || sample_frame_size > max || sample_frame_16k > max || crossfade_frame_size > max
        || sola_buffer_frame_size > max || sola_search_frame_size > max || extra_frame_size > max
        || model_return_length > max || model_return_size > max || input_buffer_size > max
        || input_buffer_16k_size > max {
        return Err(GeometryError::TooLarge);
    }
    Ok(
        Geometry {
            sample_rate: narrow(rate as u128),
            model_output_sample_rate: narrow(s.model_output_sample_rate as u128),
            zc: narrow(zc),
            sample_frame_size: narrow(sample_frame_size),
            sample_frame_16k: narrow(sample_frame_16k),
            crossfade_frame_size: narrow(crossfade_frame_size),
            sola_buffer_frame_size: narrow(sola_buffer_frame_size),
            sola_search_frame_size: narrow(sola_search_frame_size),
            extra_frame_size: narrow(extra_frame_size),
            model_return_length: narrow(model_return_length),
            model_return_size: narrow(model_return_size),
            input_buffer_size: narrow(input_buffer_size),
            input_buffer_16k_size: narrow(input_buffer_16k_size),
        },
    )
}

} // verus!
