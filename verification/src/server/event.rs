//! What the servers report.

use crate::notation::{decimal, push_decimal};
use crate::storage::SavedJob;
use crate::text::owned;
use std::path::PathBuf;
use vstd::prelude::*;
use vstd::string::StringExecFns;

verus! {

/// What the servers report.
#[derive(Debug)]
pub enum ServerEvent {
    /// How they are doing.
    Status(String),
    /// A job has been saved.
    JobSaved { protocol: &'static str, path: PathBuf, bytes: usize },
    /// Something went wrong.
    Error(String),
}

/// The report of a job that came over `protocol` and has been saved.
pub fn saved_event(protocol: &'static str, job: SavedJob) -> (event: ServerEvent)
    ensures
        event == (ServerEvent::JobSaved { protocol, path: job.raw_path, bytes: job.bytes }),
{
    ServerEvent::JobSaved { protocol, path: job.raw_path, bytes: job.bytes }
}

/// What is shown of a job that has been saved.
pub open spec fn job_saved(protocol: Seq<char>, path: Seq<char>, bytes: nat) -> Seq<char> {
    "["@ + protocol + "] "@ + path + " ("@ + decimal(bytes) + " bytes)"@
}

/// What is shown of a job that has been saved.
pub fn job_saved_text(protocol: &str, path: &str, bytes: usize) -> (text: String)
    ensures
        text@ == job_saved(protocol@, path@, bytes as nat),
{
    let mut text = owned("[");
    text.append(protocol);
    text.append("] ");
    text.append(path);
    text.append(" (");
    push_decimal(&mut text, bytes as u64);
    text.append(" bytes)");
    text
}

/// What is shown of an error.
pub fn error_text(message: &str) -> (text: String)
    ensures
        text@ == "エラー: "@ + message@,
{
    let mut text = owned("エラー: ");
    text.append(message);
    text
}

/// What is shown where the servers could not be started.
pub fn start_failed_text(message: &str) -> (text: String)
    ensures
        text@ == "起動失敗: "@ + message@,
{
    let mut text = owned("起動失敗: ");
    text.append(message);
    text
}

} // verus!
