//! What a client is told of its jobs, from the request that it sends to the
//! answer that it reads.

use super::answers::{
    encoded_len, failure_answer_read, is_given, job_answer_read, success_answer_read,
};
use super::jobs::{handled, processed, said_of, with_saved, ActionView, JobView, StateView};
use super::message::{encode_message, Attr};
use super::metadata::metadata_of;
use super::request::{integer_of, parse_request, string_of, Attributes, IppError, RequestView};
use super::responses::{failure_message, job_message};
use crate::notation::decimal;
use crate::storage::MetadataView;
use vstd::prelude::*;
use vstd::utf8::encode_utf8;

verus! {

/// Whether a name and a user are short enough to be read back.
pub open spec fn short_enough(name: Seq<char>, user: Seq<char>) -> bool {
    encode_utf8(name).len() < 0x1_0000 && encode_utf8(user).len() < 0x1_0000
}

/// Whether a request gives the number `id`.
pub open spec fn gives_number(attributes: Attributes, id: u32) -> bool {
    id <= 0x7fff_ffff && integer_of(attributes, "job-id"@) == Some(id as i32)
}

/// Whether a request gives a number that a job can have.
pub open spec fn gives_some_number(attributes: Attributes) -> bool {
    integer_of(attributes, "job-id"@) matches Some(number) && number >= 0
}

/// Whether `bytes` can be read as an answer to `request` that tells of a job: its
/// number, its name, its user and its state, the reason for the state, where the
/// job is reached and where the printer is.
pub open spec fn tells(
    bytes: Seq<u8>,
    request: RequestView,
    id: u32,
    name: Seq<char>,
    user: Seq<char>,
    state: i32,
    ipp_port: u16,
) -> bool {
    &&& parse_request(bytes) matches Ok(answer)
    &&& answer.version == request.version
    &&& answer.request_id == request.request_id
    &&& answer.operation == 0
    &&& answer.document_offset == bytes.len()
    &&& id <= 0x7fff_ffff ==> integer_of(answer.attributes, "job-id"@) == Some(id as i32)
    &&& integer_of(answer.attributes, "job-state"@) == Some(state)
    &&& string_of(answer.attributes, "job-name"@) == Some(name)
    &&& string_of(answer.attributes, "job-originating-user-name"@) == Some(user)
    &&& state == 9 ==> string_of(answer.attributes, "job-state-reasons"@) == Some(
        "job-completed-successfully"@,
    )
    &&& state == 7 ==> string_of(answer.attributes, "job-state-reasons"@) == Some(
        "job-canceled-by-user"@,
    )
    &&& state != 7 && state != 9 ==> string_of(answer.attributes, "job-state-reasons"@) == Some(
        "none"@,
    )
    &&& string_of(answer.attributes, "job-uri"@) == Some(
        "ipp://127.0.0.1:"@ + decimal(ipp_port as nat) + "/jobs/"@ + decimal(id as nat),
    )
    &&& string_of(answer.attributes, "job-printer-uri"@) == Some(
        "ipp://127.0.0.1:"@ + decimal(ipp_port as nat) + "/printers/virtual"@,
    )
    &&& is_given(answer.attributes, "job-uri"@, 0x02, 0x45)
    &&& is_given(answer.attributes, "job-id"@, 0x02, 0x21)
    &&& is_given(answer.attributes, "job-name"@, 0x02, 0x42)
    &&& is_given(answer.attributes, "job-originating-user-name"@, 0x02, 0x42)
    &&& is_given(answer.attributes, "job-state"@, 0x02, 0x23)
    &&& is_given(answer.attributes, "job-state-reasons"@, 0x02, 0x44)
    &&& is_given(answer.attributes, "job-printer-uri"@, 0x02, 0x45)
}

/// Whether `bytes` can be read as an answer to `request` that refuses it with a
/// status and a reason.
pub open spec fn refuses(bytes: Seq<u8>, request: RequestView, status: u16, reason: Seq<char>) -> bool {
    &&& parse_request(bytes) matches Ok(answer)
    &&& answer.version == request.version
    &&& answer.request_id == request.request_id
    &&& answer.operation == status
    &&& string_of(answer.attributes, "status-message"@) == Some(reason)
    &&& is_given(answer.attributes, "status-message"@, 0x01, 0x41)
}

/// An answer about a job tells what it is given: whatever the state, that state.
pub proof fn job_message_tells(
    request: RequestView,
    id: u32,
    name: Seq<char>,
    user: Seq<char>,
    state: i32,
    ipp_port: u16,
)
    requires
        short_enough(name, user),
    ensures
        tells(
            encode_message(job_message(request, id, name, user, state, ipp_port)),
            request,
            id,
            name,
            user,
            state,
            ipp_port,
        ),
{
    job_answer_read(request, id, name, user, state, ipp_port);
}

/// What is said of a job of the table tells its record: whatever is asked, the
/// name, the user and the state that stand there.
pub proof fn record_is_told(request: RequestView, id: u32, job: JobView, ipp_port: u16)
    requires
        short_enough(job.name, job.user),
    ensures
        tells(
            encode_message(said_of(request, id, job, ipp_port)),
            request,
            id,
            job.name,
            job.user,
            job.state,
            ipp_port,
        ),
{
    job_message_tells(request, id, job.name, job.user, job.state, ipp_port);
}

/// Whether an attribute is written with one value.
pub open spec fn is_written(attr: Attr, tag: u8, name: Seq<char>, value: Seq<u8>) -> bool {
    &&& attr.tag == tag
    &&& attr.name == name
    &&& attr.values.len() == 1
    &&& attr.values[0] == value
}

/// However long its name and its user are, of a job of the table they are written
/// as they stand there, in a group of their own behind that of the answer.
pub proof fn record_is_written(request: RequestView, id: u32, job: JobView, ipp_port: u16)
    ensures
        ({
            let m = said_of(request, id, job, ipp_port);
            let attrs = m.groups[1].attrs;
            &&& m.version == request.version
            &&& m.request_id == request.request_id
            &&& m.code == 0
            &&& m.groups.len() == 2
            &&& m.groups[0].tag == 0x01
            &&& m.groups[1].tag == 0x02
            &&& attrs.len() == 7
            &&& is_written(attrs[2], 0x42, "job-name"@, encode_utf8(job.name))
            &&& is_written(attrs[3], 0x42, "job-originating-user-name"@, encode_utf8(job.user))
        }),
{
    let attrs = said_of(request, id, job, ipp_port).groups[1].attrs;
    assert(attrs[2].values.len() == 1);
    assert(attrs[3].values.len() == 1);
}

/// Get-Job-Attributes tells of the job that it asks for what stands in the table,
/// and leaves the table alone.
pub proof fn asked_job_is_told(state: StateView, ask: RequestView, id: u32)
    requires
        ask.operation == 0x0009,
        gives_number(ask.attributes, id),
        state.jobs.contains_key(id),
        short_enough(state.jobs[id].name, state.jobs[id].user),
    ensures
        handled(state, ask).0 == state,
        handled(state, ask).1 matches Ok(ActionView::Reply(bytes)) && tells(
            bytes,
            ask,
            id,
            state.jobs[id].name,
            state.jobs[id].user,
            state.jobs[id].state,
            state.ipp_port,
        ),
{
    record_is_told(ask, id, state.jobs[id], state.ipp_port);
}

/// Whether `job` is a new job that `request` announces: named as the request
/// says, else by its number; of the user that the request names, else of an
/// unknown one; in the format that the request gives, else in any; not saved yet.
pub open spec fn announced(job: JobView, request: RequestView, id: u32, state: i32) -> bool {
    &&& job.id == id
    &&& job.state == state
    &&& job.saved_path is None
    &&& match string_of(request.attributes, "job-name"@) {
        Some(name) => job.name == name,
        None => job.name == "ipp-job-"@ + decimal(id as nat),
    }
    &&& match string_of(request.attributes, "requesting-user-name"@) {
        Some(user) => job.user == user,
        None => job.user == "unknown"@,
    }
    &&& match string_of(request.attributes, "document-format"@) {
        Some(format) => job.document_format == format,
        None => job.document_format == "application/octet-stream"@,
    }
}

/// Whether `after` is `before` but for the job `id`.
pub open spec fn same_but(after: StateView, before: StateView, id: u32) -> bool {
    &&& after.ipp_port == before.ipp_port
    &&& after.jobs.contains_key(id)
    &&& forall|other: u32|
        other != id ==> {
            &&& #[trigger] after.jobs.contains_key(other) == before.jobs.contains_key(other)
            &&& before.jobs.contains_key(other) ==> after.jobs[other] == before.jobs[other]
        }
}

/// The number after `id`; after the largest one comes zero.
pub open spec fn counts_on(next: u32, id: u32) -> bool {
    if id == 0xffff_ffff {
        next == 0
    } else {
        next == id + 1
    }
}

/// Create-Job enters a job that waits, under the next number, and tells of it.
pub proof fn created_job_is_told(state: StateView, create: RequestView)
    requires
        create.operation == 0x0005,
    ensures
        ({
            let id = state.next_job_id;
            let (after, action) = handled(state, create);
            let job = after.jobs[id];
            &&& same_but(after, state, id)
            &&& counts_on(after.next_job_id, id)
            &&& announced(job, create, id, 3)
            &&& action matches Ok(ActionView::Reply(bytes))
            &&& short_enough(job.name, job.user) ==> tells(
                bytes,
                create,
                id,
                job.name,
                job.user,
                3,
                state.ipp_port,
            )
        }),
{
    let id = state.next_job_id;
    let job = handled(state, create).0.jobs[id];
    if short_enough(job.name, job.user) {
        record_is_told(create, id, job, state.ipp_port);
    }
}

/// Whether a document that has to be saved is described as one of this job: by
/// its protocol, its user, its name, its format and the attributes of the request
/// that brought it, and by nothing else yet.
pub open spec fn described(
    metadata: MetadataView,
    job: JobView,
    format: Seq<char>,
    attributes: Attributes,
) -> bool {
    &&& metadata.protocol == "IPP"@
    &&& metadata.user == Some(job.user)
    &&& metadata.job_name == Some(job.name)
    &&& metadata.document_format == Some(format)
    &&& metadata.attributes == metadata_of(attributes)
    &&& metadata.source is None
    &&& metadata.queue is None
    &&& metadata.protocol_file_name is None
    &&& metadata.raw_file_name is None
    &&& metadata.received_at == Seq::<char>::empty()
    &&& metadata.bytes == 0
}

/// Print-Job enters a job that is being worked on, under the next number; its
/// document has to be saved with what is known of the job.
pub proof fn printed_job_is_entered(state: StateView, print: RequestView)
    requires
        print.operation == 0x0002,
    ensures
        ({
            let id = state.next_job_id;
            let (after, action) = handled(state, print);
            let job = after.jobs[id];
            &&& same_but(after, state, id)
            &&& counts_on(after.next_job_id, id)
            &&& announced(job, print, id, 5)
            &&& action matches Ok(ActionView::Save { request, pending })
            &&& request == print
            &&& pending.id == id
            &&& pending.name == job.name
            &&& pending.user == job.user
            &&& described(pending.metadata, job, job.document_format, print.attributes)
        }),
{
}

/// Send-Document has the document of a job saved under the name and the user of
/// that job; a format that comes with the document goes before that of the job.
pub proof fn sent_document_belongs_to_its_job(state: StateView, send: RequestView, id: u32)
    requires
        send.operation == 0x0006,
        gives_number(send.attributes, id),
        state.jobs.contains_key(id),
    ensures
        ({
            let job = state.jobs[id];
            let (after, action) = handled(state, send);
            &&& after == state
            &&& action matches Ok(ActionView::Save { request, pending })
            &&& request == send
            &&& pending.id == id
            &&& pending.name == job.name
            &&& pending.user == job.user
            &&& described(
                pending.metadata,
                job,
                match string_of(send.attributes, "document-format"@) {
                    Some(format) => format,
                    None => job.document_format,
                },
                send.attributes,
            )
        }),
{
}

/// Once its document has been saved, a job is completed and tells where: nothing
/// else of it changes, and no other job does.
pub proof fn saved_job_is_completed(state: StateView, id: u32, path: Seq<char>)
    requires
        state.jobs.contains_key(id),
    ensures
        ({
            let after = with_saved(state, id, path);
            let (job, was) = (after.jobs[id], state.jobs[id]);
            &&& same_but(after, state, id)
            &&& after.next_job_id == state.next_job_id
            &&& job.state == 9
            &&& job.saved_path == Some(path)
            &&& job.id == was.id
            &&& job.name == was.name
            &&& job.user == was.user
            &&& job.document_format == was.document_format
        }),
{
}

/// Once the document of a job that is not there has been saved, nothing changes.
pub proof fn unknown_job_is_not_completed(state: StateView, id: u32, path: Seq<char>)
    requires
        !state.jobs.contains_key(id),
    ensures
        with_saved(state, id, path) == state,
{
}

/// Cancel-Job marks the job that it asks for, and tells of it; nothing else of
/// the job changes, and no other job does.
pub proof fn canceled_job_is_told(state: StateView, cancel: RequestView, id: u32)
    requires
        cancel.operation == 0x0008,
        gives_number(cancel.attributes, id),
        state.jobs.contains_key(id),
    ensures
        ({
            let (after, action) = handled(state, cancel);
            let (job, was) = (after.jobs[id], state.jobs[id]);
            &&& same_but(after, state, id)
            &&& after.next_job_id == state.next_job_id
            &&& job.state == 7
            &&& job.id == was.id
            &&& job.name == was.name
            &&& job.user == was.user
            &&& job.document_format == was.document_format
            &&& job.saved_path == was.saved_path
            &&& action matches Ok(ActionView::Reply(bytes))
            &&& short_enough(was.name, was.user) ==> tells(
                bytes,
                cancel,
                id,
                was.name,
                was.user,
                7,
                state.ipp_port,
            )
        }),
{
    let job = handled(state, cancel).0.jobs[id];
    if short_enough(job.name, job.user) {
        record_is_told(cancel, id, job, state.ipp_port);
    }
}

/// A request about a job that is not there is answered so, and changes nothing.
pub proof fn missing_job_is_not_found(state: StateView, request: RequestView, id: u32)
    requires
        request.operation == 0x0006 || request.operation == 0x0008 || request.operation == 0x0009,
        gives_number(request.attributes, id),
        !state.jobs.contains_key(id),
    ensures
        handled(state, request).0 == state,
        handled(state, request).1 matches Ok(ActionView::Reply(bytes)) && refuses(
            bytes,
            request,
            0x0406,
            "job not found"@,
        ),
{
    failure_is_read(request, 0x0406, "job not found"@);
}

/// The short reasons can be read back.
proof fn failure_is_read(request: RequestView, status: u16, reason: Seq<char>)
    requires
        reason == "job not found"@ || reason == "IPP operation not supported"@,
    ensures
        refuses(
            encode_message(failure_message(request, status, reason)),
            request,
            status,
            reason,
        ),
{
    reveal_strlit("job not found");
    reveal_strlit("IPP operation not supported");
    encoded_len(reason);
    failure_answer_read(request, status, reason);
}

/// Without a number, a document and a question are refused outright, and there
/// is no job to cancel; nothing changes.
pub proof fn number_is_needed(state: StateView, request: RequestView)
    requires
        request.operation == 0x0006 || request.operation == 0x0008 || request.operation == 0x0009,
        !gives_some_number(request.attributes),
    ensures
        ({
            let (after, action) = handled(state, request);
            &&& after == state
            &&& request.operation == 0x0006 ==> action == Err::<ActionView, IppError>(
                IppError::SendDocumentWithoutJobId,
            )
            &&& request.operation == 0x0009 ==> action == Err::<ActionView, IppError>(
                IppError::GetJobAttributesWithoutJobId,
            )
            &&& request.operation == 0x0008 ==> (action matches Ok(ActionView::Reply(bytes))
                && refuses(bytes, request, 0x0406, "job not found"@))
        }),
{
    failure_is_read(request, 0x0406, "job not found"@);
}

/// Validate-Job and Get-Jobs are answered with nothing but that all is well, and
/// change nothing.
pub proof fn plain_questions_are_answered(state: StateView, request: RequestView)
    requires
        request.operation == 0x0004 || request.operation == 0x000a,
    ensures
        handled(state, request).0 == state,
        handled(state, request).1 matches Ok(ActionView::Reply(bytes)) && {
            &&& parse_request(bytes) matches Ok(answer)
            &&& answer.version == request.version
            &&& answer.request_id == request.request_id
            &&& answer.operation == 0
            &&& string_of(answer.attributes, "status-message"@) is None
        },
{
    success_answer_read(request);
}

/// Operations other than the eight that are offered are refused, and change
/// nothing.
pub proof fn other_operations_are_refused(state: StateView, request: RequestView)
    requires
        request.operation != 0x0002,
        request.operation != 0x0004,
        request.operation != 0x0005,
        request.operation != 0x0006,
        request.operation != 0x0008,
        request.operation != 0x0009,
        request.operation != 0x000a,
        request.operation != 0x000b,
    ensures
        handled(state, request).0 == state,
        handled(state, request).1 matches Ok(ActionView::Reply(bytes)) && refuses(
            bytes,
            request,
            0x0501,
            "IPP operation not supported"@,
        ),
{
    failure_is_read(request, 0x0501, "IPP operation not supported"@);
}

/// A body that cannot be read is refused with what is wrong with it, and changes
/// nothing; one that can be read is handled as what it says.
pub proof fn bodies_are_read_first(state: StateView, body: Seq<u8>)
    ensures
        parse_request(body) matches Err(error) ==> processed(state, body) == (
            state,
            Err::<ActionView, IppError>(error),
        ),
        parse_request(body) matches Ok(request) ==> processed(state, body) == handled(
            state,
            request,
        ),
{
}

// Over several requests -----------------------------------------------------

/// A client that creates a job and asks for it is told that it waits; once it has
/// canceled it, that it is canceled.
pub proof fn waiting_job_is_not_done(
    state: StateView,
    create: RequestView,
    ask: RequestView,
    cancel: RequestView,
)
    requires
        create.operation == 0x0005,
        ask.operation == 0x0009,
        cancel.operation == 0x0008,
        gives_number(ask.attributes, state.next_job_id),
        gives_number(cancel.attributes, state.next_job_id),
        ({
            let job = handled(state, create).0.jobs[state.next_job_id];
            short_enough(job.name, job.user)
        }),
    ensures
        ({
            let id = state.next_job_id;
            let waiting = handled(state, create).0;
            let off = handled(waiting, cancel).0;
            let job = waiting.jobs[id];
            &&& handled(waiting, ask).1 matches Ok(ActionView::Reply(first))
            &&& tells(first, ask, id, job.name, job.user, 3, state.ipp_port)
            &&& handled(off, ask).1 matches Ok(ActionView::Reply(second))
            &&& tells(second, ask, id, job.name, job.user, 7, state.ipp_port)
        }),
{
    let id = state.next_job_id;
    let waiting = handled(state, create).0;
    created_job_is_told(state, create);
    asked_job_is_told(waiting, ask, id);
    canceled_job_is_told(waiting, cancel, id);
    asked_job_is_told(handled(waiting, cancel).0, ask, id);
}

/// A client that prints and asks while the document is being saved is told that
/// the job is worked on; once it has been saved, that it is completed.
pub proof fn printed_job_is_followed(
    state: StateView,
    print: RequestView,
    path: Seq<char>,
    ask: RequestView,
)
    requires
        print.operation == 0x0002,
        ask.operation == 0x0009,
        gives_number(ask.attributes, state.next_job_id),
        ({
            let job = handled(state, print).0.jobs[state.next_job_id];
            short_enough(job.name, job.user)
        }),
    ensures
        ({
            let id = state.next_job_id;
            let begun = handled(state, print).0;
            let done = with_saved(begun, id, path);
            let job = begun.jobs[id];
            &&& handled(begun, ask).1 matches Ok(ActionView::Reply(first))
            &&& tells(first, ask, id, job.name, job.user, 5, state.ipp_port)
            &&& handled(done, ask).1 matches Ok(ActionView::Reply(second))
            &&& tells(second, ask, id, job.name, job.user, 9, state.ipp_port)
        }),
{
    let id = state.next_job_id;
    let begun = handled(state, print).0;
    printed_job_is_entered(state, print);
    asked_job_is_told(begun, ask, id);
    saved_job_is_completed(begun, id, path);
    asked_job_is_told(with_saved(begun, id, path), ask, id);
}

} // verus!
