//! The frame source: image files in the order of the animation, with the
//! timing configuration that turns their positions into presentation times.

use vstd::prelude::*;
use std::path::PathBuf;
use crate::pass::{Pass, PassView};
use crate::rate::{Fps, Rate};
use crate::timing::delay_list;

verus! {

/// A source of PNG frames for one encoding job. It is used up by one pass.
pub struct Lodecoder {
    frames: Vec<PathBuf>,
    rate: Rate,
    custom_delays: Option<Vec<Option<u32>>>,
}

/// What a source holds.
pub struct LodecoderView {
    /// The frames, in the order of the animation.
    pub frames: Seq<PathBuf>,
    /// The base frame rate: the configured rate times the speed multiplier.
    pub rate: Rate,
    /// Explicit delays in milliseconds, by frame index.
    pub custom_delays: Option<Seq<Option<u32>>>,
}

impl LodecoderView {
    /// The frame list is one that a machine can hold.
    pub open spec fn wf(self) -> bool {
        self.frames.len() <= usize::MAX
    }

    /// What `collect` leaves of the source, and the pass that it begins.
    pub open spec fn collect(self) -> (LodecoderView, PassView) {
        (
            LodecoderView { frames: Seq::empty(), rate: self.rate, custom_delays: None },
            PassView::fresh(self.frames, self.custom_delays),
        )
    }
}

impl View for Lodecoder {
    type V = LodecoderView;

    closed spec fn view(&self) -> LodecoderView {
        LodecoderView {
            frames: self.frames@,
            rate: self.rate,
            custom_delays: delay_list(self.custom_delays),
        }
    }
}

impl Lodecoder {
    /// A source in which every frame has the default duration, one over
    /// `fps * speed`.
    pub fn new(frames: Vec<PathBuf>, params: Fps) -> (source: Self)
        ensures
            source@ == (LodecoderView {
                frames: frames@,
                rate: params.product(),
                custom_delays: None,
            }),
            source@.wf(),
    {
        assert(frames@.len() == frames.len());
        Self { frames, rate: params.base_rate(), custom_delays: None }
    }

    /// A source in which frame `i` lasts `delays[i]` milliseconds where the
    /// list has such an entry, and the default duration where it has none.
    pub fn new_with_delays(frames: Vec<PathBuf>, params: Fps, delays: Vec<Option<u32>>) -> (source: Self)
        ensures
            source@ == (LodecoderView {
                frames: frames@,
                rate: params.product(),
                custom_delays: Some(delays@),
            }),
            source@.wf(),
    {
        assert(frames@.len() == frames.len());
        Self { frames, rate: params.base_rate(), custom_delays: Some(delays) }
    }

    /// The number of frames that the source holds, which is always known.
    pub fn total_frames(&self) -> (total: Option<u64>)
        ensures
            total == Some(self@.frames.len() as u64),
    {
        Some(self.frames.len() as u64)
    }

    /// The base frame rate, by which the default duration is measured.
    pub fn base_rate(&self) -> (rate: Rate)
        ensures
            rate == self@.rate,
    {
        self.rate
    }

    /// Begins the one pass over the source. The pass takes the frames and
    /// the delay list with it, so the source holds nothing afterwards.
    pub fn collect(&mut self) -> (pass: Pass)
        ensures
            pass.wf(),
            (final(self)@, pass@) == old(self)@.collect(),
            pass@.wf(),
    {
        let mut frames: Vec<PathBuf> = Vec::new();
        std::mem::swap(&mut self.frames, &mut frames);
        let delays = self.custom_delays.take();
        Pass::start(frames, delays)
    }
}

} // verus!
