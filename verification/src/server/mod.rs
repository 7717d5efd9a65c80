//! The servers: how they are run, and what they do with what comes.

pub mod config;
pub mod controller;
pub mod event;
pub mod ipp;
pub mod lpr;
pub mod report_laws;
pub mod view_laws;

pub use config::ServerConfig;
pub use controller::ServerController;
pub use event::ServerEvent;
