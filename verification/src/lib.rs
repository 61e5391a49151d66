//! A rhythmic heap-allocation sequencer.
//!
//! A [`pattern::Event`] pairs an allocation size in kilobytes with a delay in
//! milliseconds; a size of zero is a rest. The [`sequencer::Sequencer`] walks
//! a pattern a given number of times, allocating a zero-initialized buffer for
//! each non-rest event and retaining it so an external memory monitor sees the
//! rhythm. Delays are returned to the caller, which performs the waiting.

pub mod pattern;
pub mod presets;
pub mod sequencer;
