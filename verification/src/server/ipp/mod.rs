//! The Internet Printing Protocol: requests, responses and the table of jobs.

pub mod answers;
pub mod codes;
pub mod encoder;
pub mod job_laws;
pub mod jobs;
pub mod message;
pub mod metadata;
pub mod metadata_laws;
pub mod opening_laws;
pub mod printer;
pub mod printer_answer;
pub mod printer_sheet;
pub mod request;
pub mod request_laws;
pub mod responses;
pub mod round_trip;
pub mod tracking;
pub mod wire_laws;
