//! Receiving jobs over LPR, the line printer daemon protocol.

pub mod control;
pub mod control_laws;
pub mod error;
pub mod header;
pub mod header_law;
pub mod jobs;
pub mod laws;
pub mod session;
pub mod session_laws;
