//! Voice dictation daemon core: wire protocol, recording-session state
//! machine, capture buffering, and client-side decision logic.

pub mod protocol;
pub mod session;
pub mod capture;
pub mod client;
pub mod inject;
pub mod config;
