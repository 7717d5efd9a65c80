//! A virtual printer: it receives print jobs over LPR and IPP and keeps the
//! data that it was sent, unchanged, together with a description of the job.

pub mod clock;
pub mod name_map;
pub mod naming_laws;
pub mod notation;
pub mod notation_laws;
pub mod order_laws;
pub mod server;
pub mod split;
pub mod storage;
pub mod storage_laws;
pub mod text;
pub mod wire;
