//! A frame-timing source: an ordered list of still-image files, a frame rate
//! and optional per-frame delays, turned into the sequence of frames that a
//! collector receives, each with its index and its presentation time.
//!
//! Times are exact. A [`Timestamp`] counts frames of default duration and
//! explicit milliseconds apart; together with the [`Rate`] of the source it
//! denotes a fraction of seconds, and nothing in this crate rounds.

pub mod files;
pub mod laws;
pub mod pass;
pub mod rate;
pub mod source;
pub mod timing;

pub use pass::{Pass, PassView, Step, TimedFrame};
pub use rate::{Fps, Rate, Ratio};
pub use source::{Lodecoder, LodecoderView};
pub use timing::Timestamp;
