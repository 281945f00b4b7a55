//! Taskbar usage statistics of Windows users, keyed by a normalized
//! application identifier.

pub mod applications;
pub mod common;
pub mod environment;
pub mod taskbar;
