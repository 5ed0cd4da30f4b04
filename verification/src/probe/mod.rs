//! What the probe programs compute and decide: test pictures, picture files,
//! tokens, the course of a run and its reports.
pub mod bars;
pub mod bmp;
pub mod grab;
pub mod report;
pub mod settings;
pub mod spike;
pub mod token;
