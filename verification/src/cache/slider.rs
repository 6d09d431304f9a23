//! How often the picture under a dragged slider is decoded.
use vstd::prelude::*;

verus! {

/// The time that passes between two decodes, in nanoseconds.
pub const SLIDER_THROTTLE_NS: u64 = 10_000_000;

/// Throttled synchronous slider loader. The decode of the latest slider
/// position blocks a frame, so it happens no more often than the throttle
/// lets it. Times are in nanoseconds on a clock of the caller's choice.
pub struct SliderLoader {
    pub last_load: u64,
}

/// Whether a decode is due. On a clock that went back it is.
pub open spec fn decode_due(last: u64, now: u64) -> bool {
    now < last || now - last >= SLIDER_THROTTLE_NS
}

impl SliderLoader {
    pub fn new(now: u64) -> (r: Self)
        ensures
            r.last_load == now,
    {
        SliderLoader { last_load: now }
    }

    /// Returns true if enough time has passed since the last decode, which
    /// then counts as having happened now.
    pub fn should_load(&mut self, now: u64) -> (r: bool)
        ensures
            r == decode_due(old(self).last_load, now),
            final(self).last_load == if r { now } else { old(self).last_load },
    {
        if now < self.last_load || now - self.last_load >= SLIDER_THROTTLE_NS {
            self.last_load = now;
            true
        } else {
            false
        }
    }
}

/// Between two decodes pass ten milliseconds at least, and no more than that
/// has to pass.
pub proof fn law_decodes_are_ten_milliseconds_apart(last: u64, now: u64)
    requires
        last <= now,
    ensures
        decode_due(last, now) <==> now - last >= 10_000_000,
{
}

} // verus!
