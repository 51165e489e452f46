//! A small log-dispatch core: severity levels, per-module directives,
//! a fan-out dispatcher over a list of sinks, and a last-resort
//! diagnostic message builder for delivery failures.

pub mod directive;
pub mod dispatch;
pub mod errors;
pub mod fallback;
pub mod format;
pub mod level;
pub mod loggers;
