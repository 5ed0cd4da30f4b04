//! Hardware screen-share engine: the decisions, rules and pixel work behind a
//! capture -> colour conversion -> encoder pipeline, without any I/O.
pub mod engine;
pub mod host;
pub mod logic;
pub mod probe;
pub mod text;
