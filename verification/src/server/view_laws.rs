//! What the parts of requests, jobs and control files are.

use super::ipp::jobs::{IppJobRecord, PendingSave};
use super::ipp::request::{ParsedAttribute, ParsedIppRequest};
use super::lpr::control::LprControlInfo;
use super::lpr::jobs::LprJob;
use super::lpr::session::PendingDataFile;
use vstd::prelude::*;

verus! {

/// Each part of a control file is what its field holds.
pub proof fn controls_are_read_by_field(info: LprControlInfo)
    ensures
        info.host matches Some(text) ==> info@.host == Some(text@),
        info.host is None ==> info@.host is None,
        info.user matches Some(text) ==> info@.user == Some(text@),
        info.user is None ==> info@.user is None,
        info.job_name matches Some(text) ==> info@.job_name == Some(text@),
        info.job_name is None ==> info@.job_name is None,
        info.source_name matches Some(text) ==> info@.source_name == Some(text@),
        info.source_name is None ==> info@.source_name is None,
        info@.raw == info.raw@,
{
}

/// Each part of a job that came over LPR, and of its file, is what its field
/// holds.
pub proof fn lpr_jobs_are_read_by_field(job: LprJob, file: PendingDataFile)
    ensures
        job@.data == job.data@,
        job@.metadata == job.metadata@,
        file@.data == file.data@,
        file@.protocol_name == file.protocol_name@,
{
}

/// Each part of a job that came over IPP, and of a document that has to be saved
/// for it, is what its field holds.
pub proof fn ipp_jobs_are_read_by_field(job: IppJobRecord, pending: PendingSave)
    ensures
        job@.id == job.id,
        job@.name == job.name@,
        job@.user == job.user@,
        job@.state == job.state,
        job@.document_format == job.document_format@,
        job.saved_path matches Some(path) ==> job@.saved_path == Some(path@),
        job.saved_path is None ==> job@.saved_path is None,
        pending@.id == pending.id,
        pending@.name == pending.name@,
        pending@.user == pending.user@,
        pending@.metadata == pending.metadata@,
{
}

/// Each part of a request, and of an attribute, is what its field holds.
pub proof fn requests_are_read_by_field(request: ParsedIppRequest, attribute: ParsedAttribute)
    ensures
        request@.version.0 == request.version_major,
        request@.version.1 == request.version_minor,
        request@.operation == request.operation,
        request@.request_id == request.request_id,
        request@.attributes == request.attributes@,
        request@.document_offset == request.document_offset,
        attribute@.group == attribute.group,
        attribute@.tag == attribute.tag,
        attribute@.values.len() == attribute.values@.len(),
        forall|i: int|
            0 <= i < attribute.values@.len() ==> #[trigger] attribute@.values[i]
                == attribute.values@[i]@,
{
}

} // verus!
