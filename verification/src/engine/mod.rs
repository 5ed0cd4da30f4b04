//! The capture, conversion and publishing side of a session.
pub mod capture;
pub mod convert;
pub mod room;
pub mod run;
