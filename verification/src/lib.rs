//! Hardware-in-the-loop command bridge: mode-based routing of joint
//! commands, gated by a safety interlock, with fail-safe transport
//! reporting.

pub mod protocol;
pub mod text;
pub mod binary64;
pub mod interlock;
pub mod bridge;
pub mod cli;
pub mod service;
