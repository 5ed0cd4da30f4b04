//! Quality rungs, frame pacing and the engine lifecycle.
pub mod control;
pub mod pacing;
pub mod quality;
