//! Stream metadata: dimensions, frame rate, duration, pacing interval.
//!
//! Frame rates are carried in thousandths of a frame per second, so that
//! fractional source rates survive without floating point; durations,
//! timestamps and pacing intervals are in milliseconds.

use vstd::prelude::*;

verus! {

/// Frame rate assumed when the source reports none (30 fps).
pub const DEFAULT_FRAME_RATE_MILLI: u64 = 30_000;

/// Pacing interval used when no positive frame rate is known.
pub const FALLBACK_INTERVAL_MS: u64 = 33;

/// The frame rate actually used: the reported rate, or the default when
/// the source reports zero or nothing.
pub open spec fn effective_rate_milli(reported_rate_milli: u64) -> u64 {
    if reported_rate_milli == 0 {
        DEFAULT_FRAME_RATE_MILLI
    } else {
        reported_rate_milli
    }
}

/// Stream duration in milliseconds: `frame_count / frame_rate` seconds,
/// or zero when the rate is zero.  Saturates at `u64::MAX`.
pub open spec fn duration_ms_of(frame_count: u64, rate_milli: u64) -> u64 {
    if rate_milli == 0 {
        0
    } else if frame_count as int * 1_000_000 / (rate_milli as int) > u64::MAX as int {
        u64::MAX
    } else {
        (frame_count as int * 1_000_000 / (rate_milli as int)) as u64
    }
}

/// Time between worker cycles in milliseconds: `1000 / frame_rate`
/// seconds, or the fallback when the rate is zero.
pub open spec fn interval_ms_of(rate_milli: u64) -> u64 {
    if rate_milli == 0 {
        FALLBACK_INTERVAL_MS
    } else {
        (1_000_000 as int / rate_milli as int) as u64
    }
}

/// Properties of an opened stream, fixed once at open time.
#[derive(Clone, Copy, Debug, PartialEq, Eq, Structural)]
pub struct StreamMetadata {
    /// Frame width in pixels.
    pub width: u32,
    /// Frame height in pixels.
    pub height: u32,
    /// Frame rate in thousandths of a frame per second; always positive.
    pub frame_rate_milli: u64,
    /// Total duration in milliseconds.
    pub duration_ms: u64,
}

impl StreamMetadata {
    /// Computes the metadata from source-reported properties, applying the
    /// default frame rate when the source reports zero.
    pub fn from_reported(
        width: u32,
        height: u32,
        reported_rate_milli: u64,
        reported_frame_count: u64,
    ) -> (m: StreamMetadata)
        ensures
            m.width == width,
            m.height == height,
            m.frame_rate_milli == effective_rate_milli(reported_rate_milli),
            m.frame_rate_milli > 0,
            m.duration_ms == duration_ms_of(
                reported_frame_count,
                effective_rate_milli(reported_rate_milli),
            ),
    {
        let rate_milli: u64 = if reported_rate_milli == 0 {
            DEFAULT_FRAME_RATE_MILLI
        } else {
            reported_rate_milli
        };
        let wide: u128 = (reported_frame_count as u128) * 1_000_000 / (rate_milli as u128);
        let duration_ms: u64 = if wide > u64::MAX as u128 {
            u64::MAX
        } else {
            wide as u64
        };
        StreamMetadata { width, height, frame_rate_milli: rate_milli, duration_ms }
    }

    /// Frame width in pixels.
    pub fn width(&self) -> (w: u32)
        ensures
            w == self.width,
    {
        self.width
    }

    /// Frame height in pixels.
    pub fn height(&self) -> (h: u32)
        ensures
            h == self.height,
    {
        self.height
    }

    /// Total duration in milliseconds.
    pub fn duration_ms(&self) -> (d: u64)
        ensures
            d == self.duration_ms,
    {
        self.duration_ms
    }

    /// The pacing interval the worker sleeps between cycles.
    pub fn frame_interval_ms(&self) -> (i: u64)
        ensures
            i == interval_ms_of(self.frame_rate_milli),
    {
        if self.frame_rate_milli == 0 {
            FALLBACK_INTERVAL_MS
        } else {
            1_000_000 / self.frame_rate_milli
        }
    }
}

/// The stored duration is the exact integer quotient of the frame count by
/// the frame rate: for a positive rate (and below the saturation bound),
/// `duration * rate <= frame_count * 1_000_000 < (duration + 1) * rate`.
pub proof fn lemma_duration_is_quotient(frame_count: u64, rate_milli: u64)
    requires
        rate_milli > 0,
        frame_count as int * 1_000_000 / (rate_milli as int) <= u64::MAX as int,
    ensures
        duration_ms_of(frame_count, rate_milli) as int * rate_milli as int
            <= frame_count as int * 1_000_000,
        frame_count as int * 1_000_000
            < (duration_ms_of(frame_count, rate_milli) as int + 1) * rate_milli as int,
{
    let x = frame_count as int * 1_000_000;
    let d = rate_milli as int;
    let q = x / d;
    vstd::arithmetic::div_mod::lemma_fundamental_div_mod(x, d);
    vstd::arithmetic::div_mod::lemma_mod_bound(x, d);
    assert(x == d * q + x % d);
    assert(q * d <= x) by (nonlinear_arith)
        requires
            x == d * q + x % d,
            x % d >= 0,
    ;
    assert(x < (q + 1) * d) by (nonlinear_arith)
        requires
            x == d * q + x % d,
            x % d < d,
    ;
}

/// When the rate is zero the duration is zero.
pub proof fn lemma_duration_zero_rate(frame_count: u64)
    ensures
        duration_ms_of(frame_count, 0) == 0,
{
}

} // verus!
