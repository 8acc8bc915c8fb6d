//! One pass over the frames of a source.
//!
//! A pass hands out the frames one at a time, each with its index and its
//! presentation time, and decides after each answer of the collector how to
//! go on. Whoever drives it performs the outside work: it gives every
//! emitted frame to the collector and the collector's answer to the next
//! step.

use vstd::prelude::*;
use std::path::PathBuf;
use crate::timing::{delay_at, delay_list, lemma_start_time_exact, start_time, Timestamp};

verus! {

/// One frame as the collector receives it.
#[derive(Debug, PartialEq, Eq)]
pub struct TimedFrame {
    /// Position of the frame in the animation, counted from zero.
    pub index: usize,
    /// The frame's image file.
    pub frame: PathBuf,
    /// The time at which the frame starts to show.
    pub at: Timestamp,
}

/// What a pass asks of its driver.
#[derive(Debug, PartialEq, Eq)]
pub enum Step<E> {
    /// Hand this frame to the collector, then step again with its answer.
    Emit(TimedFrame),
    /// The pass is over, with this result.
    Done(Result<(), E>),
}

/// The state of a pass: the frames not yet emitted, in order, the delay
/// list, and the index of the next frame.
pub struct PassView {
    pub remaining: Seq<PathBuf>,
    pub delays: Option<Seq<Option<u32>>>,
    pub position: nat,
}

impl PassView {
    /// A pass over `frames` before its first step.
    pub open spec fn fresh(frames: Seq<PathBuf>, delays: Option<Seq<Option<u32>>>) -> PassView {
        PassView { remaining: frames, delays, position: 0 }
    }

    /// Every frame of the pass has an index that a machine can hold.
    pub open spec fn wf(self) -> bool {
        self.position + self.remaining.len() <= usize::MAX
    }

    /// The frame that the pass emits next.
    pub open spec fn next_frame(self) -> TimedFrame
        recommends
            self.remaining.len() > 0,
    {
        TimedFrame {
            index: self.position as usize,
            frame: self.remaining[0],
            at: start_time(self.delays, self.position),
        }
    }

    /// The frames that the pass has still to emit, as the collector would
    /// receive them.
    pub open spec fn upcoming(self) -> Seq<TimedFrame> {
        Seq::new(
            self.remaining.len(),
            |j: int|
                TimedFrame {
                    index: (self.position + j) as usize,
                    frame: self.remaining[j],
                    at: start_time(self.delays, (self.position + j) as nat),
                },
        )
    }

    /// One step of the pass. After a failure the pass drops the frames that
    /// are left and ends with the collector's error. Otherwise it emits the
    /// next frame, or ends well where none is left.
    pub open spec fn step<E>(self, reply: Result<(), E>) -> (PassView, Step<E>) {
        match reply {
            Err(e) => (
                PassView { remaining: Seq::empty(), delays: self.delays, position: self.position },
                Step::Done(Err(e)),
            ),
            Ok(_) => if self.remaining.len() == 0 {
                (self, Step::Done(Ok(())))
            } else {
                (
                    PassView {
                        remaining: self.remaining.drop_first(),
                        delays: self.delays,
                        position: self.position + 1,
                    },
                    Step::Emit(self.next_frame()),
                )
            },
        }
    }
}

impl PassView {
    /// The state of the pass after one step for each of `replies`, in turn.
    pub open spec fn after<E>(self, replies: Seq<Result<(), E>>) -> PassView
        decreases replies.len(),
    {
        if replies.len() == 0 {
            self
        } else {
            self.step(replies[0]).0.after(replies.drop_first())
        }
    }

    /// The frames that the pass emits in one step for each of `replies`, in
    /// turn: the calls that the collector receives.
    pub open spec fn emitted<E>(self, replies: Seq<Result<(), E>>) -> Seq<TimedFrame>
        decreases replies.len(),
    {
        if replies.len() == 0 {
            Seq::empty()
        } else {
            let (next, action) = self.step(replies[0]);
            let later = next.emitted(replies.drop_first());
            match action {
                Step::Emit(frame) => seq![frame] + later,
                Step::Done(_) => later,
            }
        }
    }
}

/// The frames of a whole pass over `frames`: frame `i` has index `i` and
/// starts when the frames before it have gone by.
pub open spec fn schedule(frames: Seq<PathBuf>, delays: Option<Seq<Option<u32>>>) -> Seq<TimedFrame> {
    Seq::new(
        frames.len(),
        |i: int| TimedFrame { index: i as usize, frame: frames[i], at: start_time(delays, i as nat) },
    )
}

/// A pass in progress.
pub struct Pass {
    /// The frames not yet emitted, the next one last.
    pending: Vec<PathBuf>,
    delays: Option<Vec<Option<u32>>>,
    /// Index of the next frame.
    position: usize,
    /// Presentation time of the next frame.
    clock: Timestamp,
}

impl View for Pass {
    type V = PassView;

    closed spec fn view(&self) -> PassView {
        PassView {
            remaining: self.pending@.reverse(),
            delays: delay_list(self.delays),
            position: self.position as nat,
        }
    }
}

impl Pass {
    /// The pass is in a state that `start` and `step` lead to: its clock
    /// shows the presentation time of the next frame, and every frame that
    /// is left has an index that a machine can hold.
    pub closed spec fn wf(&self) -> bool {
        &&& self.position + self.pending.len() <= usize::MAX
        &&& self.clock == start_time(delay_list(self.delays), self.position as nat)
    }

    /// Begins a pass over `frames`.
    pub fn start(frames: Vec<PathBuf>, delays: Option<Vec<Option<u32>>>) -> (pass: Pass)
        ensures
            pass.wf(),
            pass@ == PassView::fresh(frames@, delay_list(delays)),
            pass@.wf(),
    {
        let ghost order = frames@;
        let pending = reversed(frames);
        assert(pending@.reverse() =~= order);
        Pass { pending, delays, position: 0, clock: Timestamp { default_frames: 0, explicit_ms: 0 } }
    }

    /// Takes one step. `reply` is the collector's answer to the frame that
    /// the step before emitted; the first step of a pass takes `Ok(())`.
    pub fn step<E>(&mut self, reply: Result<(), E>) -> (action: Step<E>)
        requires
            old(self).wf(),
        ensures
            final(self).wf(),
            (final(self)@, action) == old(self)@.step(reply),
            final(self)@.wf(),
    {
        match reply {
            Err(e) => {
                self.pending.clear();
                assert(self.pending@.reverse() =~= Seq::<PathBuf>::empty());
                Step::Done(Err(e))
            },
            Ok(_) => {
                let ghost before = self.pending@;
                match self.pending.pop() {
                    None => Step::Done(Ok(())),
                    Some(frame) => {
                        let index = self.position;
                        let at = self.clock;
                        let delay = delay_at(&self.delays, index);
                        proof {
                            lemma_start_time_exact(delay_list(self.delays), index as nat);
                            lemma_start_time_exact(delay_list(self.delays), (index + 1) as nat);
                            assert(self.pending@.reverse() =~= before.reverse().drop_first());
                        }
                        self.clock = at.advanced(delay);
                        self.position = index + 1;
                        Step::Emit(TimedFrame { index, frame, at })
                    },
                }
            },
        }
    }
}

/// Turns a list round.
fn reversed<T>(list: Vec<T>) -> (turned: Vec<T>)
    ensures
        turned@ == list@.reverse(),
{
    let ghost all = list@;
    let mut list = list;
    let mut turned: Vec<T> = Vec::new();
    while list.len() > 0
        invariant
            list@.len() + turned@.len() == all.len(),
            list@ == all.subrange(0, list@.len() as int),
            forall|i: int| 0 <= i < turned@.len() ==> turned@[i] == all[all.len() - 1 - i],
        decreases list@.len(),
    {
        match list.pop() {
            Some(last) => turned.push(last),
            None => {},
        }
    }
    assert(turned@ =~= all.reverse());
    turned
}

} // verus!
