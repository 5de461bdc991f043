//! Frame count and frame delay of a capture.

use vstd::prelude::*;

verus! {

/// How many frames a capture takes and how far apart.
#[derive(Debug, Clone, Copy, PartialEq, Eq, Structural)]
pub struct CaptureTiming {
    pub frame_count: u32,
    pub frame_delay_ms: u64,
}

/// Why a rate and duration give no capture.
#[derive(Debug, Clone, Copy, PartialEq, Eq, Structural)]
pub enum TimingError {
    /// The frame rate is zero.
    InvalidRate,
    /// The capture would hold no frame.
    NoFrames,
    /// The frame count does not fit in 32 bits.
    TooManyFrames,
}

/// `ceil(fps * duration)` for a rate of `fps_millihertz / 1000` frames per
/// second and a duration of `duration_ms / 1000` seconds.
pub open spec fn frame_count_of(fps_millihertz: nat, duration_ms: nat) -> nat {
    (fps_millihertz * duration_ms + 999_999) / 1_000_000
}

/// `round(1000 / fps)` ms, halves rounded up, for a rate of
/// `fps_millihertz / 1000` frames per second.
pub open spec fn frame_delay_of(fps_millihertz: nat) -> nat
    recommends
        fps_millihertz > 0,
{
    (2_000_000 + fps_millihertz) / (2 * fps_millihertz)
}

/// The timing of a capture at `fps_millihertz / 1000` frames per second
/// lasting `duration_ms` ms.
pub fn capture_timing(fps_millihertz: u64, duration_ms: u64) -> (r: Result<CaptureTiming, TimingError>)
    ensures
        fps_millihertz == 0 ==> r == Err::<CaptureTiming, TimingError>(TimingError::InvalidRate),
        fps_millihertz > 0 && frame_count_of(fps_millihertz as nat, duration_ms as nat) == 0 ==> r
            == Err::<CaptureTiming, TimingError>(TimingError::NoFrames),
        fps_millihertz > 0 && frame_count_of(fps_millihertz as nat, duration_ms as nat) > u32::MAX
            ==> r == Err::<CaptureTiming, TimingError>(TimingError::TooManyFrames),
        r matches Ok(t) ==> {
            &&& fps_millihertz > 0
            &&& t.frame_count as nat == frame_count_of(fps_millihertz as nat, duration_ms as nat)
            &&& t.frame_delay_ms as nat == frame_delay_of(fps_millihertz as nat)
            &&& 1 <= t.frame_count
            &&& t.frame_delay_ms <= 1_000_000
        },
        fps_millihertz > 0 && 1 <= frame_count_of(fps_millihertz as nat, duration_ms as nat)
            <= u32::MAX ==> r is Ok,
{
    if fps_millihertz == 0 {
        return Err(TimingError::InvalidRate);
    }
    let f = fps_millihertz as u128;
    let d = duration_ms as u128;
    assert(f * d <= 0xffff_ffff_ffff_ffff * 0xffff_ffff_ffff_ffffu128) by (nonlinear_arith)
        requires
            f <= 0xffff_ffff_ffff_ffffu128,
            d <= 0xffff_ffff_ffff_ffffu128,
    ;
    let product: u128 = f * d;
    let count: u128 = (product + 999_999) / 1_000_000;
    if count == 0 {
        return Err(TimingError::NoFrames);
    }
    if count > u32::MAX as u128 {
        return Err(TimingError::TooManyFrames);
    }
    let wide: u128 = (2_000_000 + f) / (2 * f);
    assert(wide <= 1_000_000) by (nonlinear_arith)
        requires
            f >= 1,
            wide == (2_000_000 + f) / (2 * f),
    ;
    let delay = wide as u64;
    Ok(CaptureTiming { frame_count: count as u32, frame_delay_ms: delay })
}

} // verus!
