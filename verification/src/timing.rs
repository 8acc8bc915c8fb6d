//! Presentation times and the duration of each frame.
//!
//! A frame lasts either an explicit number of milliseconds or the default
//! duration, one over the frame rate. A time is therefore held as two
//! counts, which no arithmetic ever rounds: frames of default duration and
//! explicit milliseconds.

use vstd::prelude::*;
use crate::rate::Rate;

verus! {

/// A point in time after the start of the animation: `default_frames` frames
/// of default duration plus `explicit_ms` milliseconds.
#[derive(Clone, Copy, Debug, PartialEq, Eq, Structural)]
pub struct Timestamp {
    /// Frames of default duration that have gone by.
    pub default_frames: u64,
    /// Explicit delays that have gone by, in milliseconds.
    pub explicit_ms: u128,
}

impl Rate {
    /// The denominator over which times are counted in seconds at this
    /// rate: a time is `seconds_num / seconds_den` seconds.
    pub open spec fn seconds_den(self) -> int {
        1000 * self.num
    }

    /// The default duration of a frame, one over the rate, as a numerator
    /// over `seconds_den`: `den / num` seconds.
    pub open spec fn default_duration_num(self) -> int {
        1000 * self.den
    }

    /// A duration of `ms` milliseconds as a numerator over `seconds_den`:
    /// `ms / 1000` seconds.
    pub open spec fn millis_num(self, ms: int) -> int {
        ms * self.num
    }
}

impl Timestamp {
    /// The start of the animation.
    pub open spec fn zero() -> Timestamp {
        Timestamp { default_frames: 0, explicit_ms: 0 }
    }

    /// This time in seconds at the given rate, as a numerator over
    /// `rate.seconds_den()`.
    pub open spec fn seconds_num(self, rate: Rate) -> int {
        self.default_frames * rate.default_duration_num() + rate.millis_num(self.explicit_ms as int)
    }

    /// The time at which a frame ends that starts at this time and has the
    /// explicit delay `delay`, or the default duration where it has none.
    pub open spec fn after(self, delay: Option<u32>) -> Timestamp {
        match delay {
            Some(ms) => Timestamp {
                default_frames: self.default_frames,
                explicit_ms: (self.explicit_ms + ms) as u128,
            },
            None => Timestamp {
                default_frames: (self.default_frames + 1) as u64,
                explicit_ms: self.explicit_ms,
            },
        }
    }

    /// Moves this time to the end of a frame that starts at it.
    pub fn advanced(self, delay: Option<u32>) -> (end: Timestamp)
        requires
            self.default_frames < u64::MAX,
            self.explicit_ms + u32::MAX <= u128::MAX,
        ensures
            end == self.after(delay),
            delay matches Some(ms) ==> end.default_frames == self.default_frames
                && end.explicit_ms == self.explicit_ms + ms,
            delay is None ==> end.default_frames == self.default_frames + 1
                && end.explicit_ms == self.explicit_ms,
    {
        match delay {
            Some(ms) => Timestamp {
                default_frames: self.default_frames,
                explicit_ms: self.explicit_ms + ms as u128,
            },
            None => Timestamp {
                default_frames: self.default_frames + 1,
                explicit_ms: self.explicit_ms,
            },
        }
    }
}

/// The delay list of a source as contracts speak of it.
pub open spec fn delay_list(delays: Option<Vec<Option<u32>>>) -> Option<Seq<Option<u32>>> {
    match delays {
        Some(list) => Some(list@),
        None => None,
    }
}

/// The explicit delay of frame `i`, in milliseconds. There is none where
/// the source has no delay list, where the list ends before `i`, and where
/// its entry for `i` is empty.
pub open spec fn explicit_delay(delays: Option<Seq<Option<u32>>>, i: int) -> Option<u32> {
    match delays {
        Some(list) => if 0 <= i < list.len() {
            list[i]
        } else {
            None
        },
        None => None,
    }
}

/// How many of the frames before frame `i` have the default duration.
pub open spec fn default_frames_before(delays: Option<Seq<Option<u32>>>, i: nat) -> nat
    decreases i,
{
    if i == 0 {
        0
    } else {
        let earlier = default_frames_before(delays, (i - 1) as nat);
        match explicit_delay(delays, i - 1) {
            Some(_) => earlier,
            None => earlier + 1,
        }
    }
}

/// The sum of the explicit delays of the frames before frame `i`, in
/// milliseconds.
pub open spec fn explicit_ms_before(delays: Option<Seq<Option<u32>>>, i: nat) -> nat
    decreases i,
{
    if i == 0 {
        0
    } else {
        let earlier = explicit_ms_before(delays, (i - 1) as nat);
        match explicit_delay(delays, i - 1) {
            Some(ms) => earlier + ms as nat,
            None => earlier,
        }
    }
}

/// The presentation time of frame `i`: the time at which it starts, which
/// is the sum of the durations of the frames before it.
pub open spec fn start_time(delays: Option<Seq<Option<u32>>>, i: nat) -> Timestamp {
    Timestamp {
        default_frames: default_frames_before(delays, i) as u64,
        explicit_ms: explicit_ms_before(delays, i) as u128,
    }
}

/// Looks up the explicit delay of frame `i`.
pub fn delay_at(delays: &Option<Vec<Option<u32>>>, i: usize) -> (delay: Option<u32>)
    ensures
        delay == explicit_delay(delay_list(*delays), i as int),
{
    match delays {
        Some(list) => if i < list.len() {
            list[i]
        } else {
            None
        },
        None => None,
    }
}

/// Of the frames before frame `i`, each has either the default duration or
/// an explicit delay of at most `u32::MAX` milliseconds.
pub proof fn lemma_counts_bounded(delays: Option<Seq<Option<u32>>>, i: nat)
    ensures
        default_frames_before(delays, i) <= i,
        explicit_ms_before(delays, i) <= i * u32::MAX,
    decreases i,
{
    if i > 0 {
        lemma_counts_bounded(delays, (i - 1) as nat);
        assert((i - 1) * u32::MAX + u32::MAX == i * u32::MAX) by (nonlinear_arith);
    }
}

/// The two counts of a presentation time fit their fields for every frame
/// index that a machine can hold, so `start_time` loses nothing.
pub proof fn lemma_start_time_exact(delays: Option<Seq<Option<u32>>>, i: nat)
    requires
        i <= u64::MAX,
    ensures
        start_time(delays, i).default_frames == default_frames_before(delays, i),
        start_time(delays, i).explicit_ms == explicit_ms_before(delays, i),
        start_time(delays, i).default_frames <= i,
        start_time(delays, i).explicit_ms + u32::MAX <= u128::MAX,
{
    lemma_counts_bounded(delays, i);
    assert(i * u32::MAX <= u64::MAX * u32::MAX) by (nonlinear_arith)
        requires
            i <= u64::MAX,
    ;
}

/// The presentation time of a frame is the end of the frame before it.
pub proof fn lemma_start_time_step(delays: Option<Seq<Option<u32>>>, i: nat)
    requires
        i < u64::MAX,
    ensures
        start_time(delays, i + 1) == start_time(delays, i).after(explicit_delay(delays, i as int)),
{
    lemma_start_time_exact(delays, i);
    lemma_start_time_exact(delays, i + 1);
}

} // verus!
