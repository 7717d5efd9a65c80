//! What holds of the table of jobs and of the answers, whatever is asked.

use super::answers::{job_answer_read, number_read};
use super::encoder::number_attr;
use super::jobs::{
    consistent, handled, ipp_metadata, new_format, new_job, new_name, new_user, printed, processed,
    reply, requested_job, with_saved, ActionView, JobView, PendingView, StateView,
};
use super::message::{
    encode_header, encode_message, Message, GROUP_END, OP_CANCEL_JOB, OP_CREATE_JOB,
    OP_GET_JOBS, OP_GET_JOB_ATTRIBUTES, OP_GET_PRINTER_ATTRIBUTES, OP_PRINT_JOB, OP_SEND_DOCUMENT,
    OP_VALIDATE_JOB,
};
use super::request::{integer_of, parse_request, string_of, Attributes, IppError, RequestView};
use super::responses::{
    job_message, not_found_message, not_supported_message, JOB_CANCELED, JOB_COMPLETED,
    JOB_PENDING, JOB_PROCESSING,
};
use super::round_trip::{fits16, gathered, legible, message_round_trip};
use crate::wire::{be32, signed};
use vstd::prelude::*;
use vstd::utf8::encode_utf8;

verus! {

// Answers -------------------------------------------------------------------

/// Whether `bytes` answer a request: they begin with its version, carry its
/// number, and end with the end tag.
pub open spec fn answers(bytes: Seq<u8>, request: RequestView) -> bool {
    &&& bytes.len() >= 9
    &&& bytes[0] == request.version.0
    &&& bytes[1] == request.version.1
    &&& bytes.subrange(4, 8) == be32(request.request_id)
    &&& bytes.last() == GROUP_END
}

/// A message with the version and the number of a request answers it.
proof fn message_answers(m: Message, request: RequestView)
    requires
        m.version == request.version,
        m.request_id == request.request_id,
    ensures
        answers(encode_message(m), request),
{
    let bytes = encode_message(m);
    assert(encode_header(m.version, m.code, m.request_id).len() == 8);
    assert(bytes.subrange(4, 8) =~= be32(request.request_id));
}

/// Every reply answers its request.
pub proof fn replies_answer(state: StateView, request: RequestView)
    ensures
        handled(state, request).1 matches Ok(ActionView::Reply(bytes)) ==> answers(bytes, request),
{
    assert forall|m: Message|
        m.version == request.version && m.request_id == request.request_id implies answers(
        #[trigger] encode_message(m),
        request,
    ) by {
        message_answers(m, request);
    }
}

/// The answer after a document was saved answers its request.
pub proof fn saved_answers(request: RequestView, pending: PendingView, ipp_port: u16)
    ensures
        answers(
            encode_message(
                job_message(
                    request,
                    pending.id,
                    pending.name,
                    pending.user,
                    JOB_COMPLETED,
                    ipp_port,
                ),
            ),
            request,
        ),
{
    message_answers(
        job_message(request, pending.id, pending.name, pending.user, JOB_COMPLETED, ipp_port),
        request,
    );
}

// The table -----------------------------------------------------------------

/// Whether the numbers that were given are all smaller than the next one.
pub open spec fn numbered(state: StateView) -> bool {
    forall|id: u32| #[trigger] state.jobs.contains_key(id) ==> id < state.next_job_id
}

/// Whether an operation is offered.
pub open spec fn offered(operation: u16) -> bool {
    ||| operation == OP_PRINT_JOB
    ||| operation == OP_VALIDATE_JOB
    ||| operation == OP_CREATE_JOB
    ||| operation == OP_SEND_DOCUMENT
    ||| operation == OP_CANCEL_JOB
    ||| operation == OP_GET_JOB_ATTRIBUTES
    ||| operation == OP_GET_JOBS
    ||| operation == OP_GET_PRINTER_ATTRIBUTES
}

/// An empty table is in order.
pub proof fn empty_table(ipp_port: u16)
    ensures
        consistent(StateView { ipp_port, next_job_id: 1, jobs: Map::empty() }),
        numbered(StateView { ipp_port, next_job_id: 1, jobs: Map::empty() }),
{
}

/// Whatever is asked, every job stands under its own number afterwards, and the
/// port stays.
pub proof fn handling_keeps_order(state: StateView, request: RequestView)
    requires
        consistent(state),
    ensures
        consistent(handled(state, request).0),
        handled(state, request).0.ipp_port == state.ipp_port,
{
}

/// Saving keeps the table in order.
pub proof fn saving_keeps_order(state: StateView, id: u32, path: Seq<char>)
    requires
        consistent(state),
    ensures
        consistent(with_saved(state, id, path)),
        numbered(state) ==> numbered(with_saved(state, id, path)),
        with_saved(state, id, path).ipp_port == state.ipp_port,
        with_saved(state, id, path).next_job_id == state.next_job_id,
{
}

/// No job is ever forgotten.
pub proof fn jobs_stay(state: StateView, request: RequestView, id: u32, path: Seq<char>)
    requires
        state.jobs.contains_key(id),
    ensures
        handled(state, request).0.jobs.contains_key(id),
        forall|other: u32| with_saved(state, other, path).jobs.contains_key(id),
{
}

/// Until the numbers run out, a new job gets a number that no job has had, and
/// all jobs before it stay as they are.
pub proof fn numbers_are_fresh(state: StateView, request: RequestView)
    requires
        numbered(state),
        state.next_job_id < u32::MAX,
    ensures
        numbered(handled(state, request).0),
        request.operation == OP_PRINT_JOB || request.operation == OP_CREATE_JOB ==> {
            let after = handled(state, request).0;
            &&& !state.jobs.contains_key(state.next_job_id)
            &&& after.jobs.contains_key(state.next_job_id)
            &&& after.next_job_id == state.next_job_id + 1
            &&& forall|id: u32| #[trigger]
                state.jobs.contains_key(id) ==> after.jobs[id] == state.jobs[id]
        },
{
}

/// A job changes only when it is canceled, or when its number is given anew.
pub proof fn other_jobs_stay(state: StateView, request: RequestView, id: u32)
    requires
        state.jobs.contains_key(id),
        request.operation == OP_CANCEL_JOB ==> requested_job(request.attributes) != Some(id),
        request.operation == OP_PRINT_JOB || request.operation == OP_CREATE_JOB ==> id
            != state.next_job_id,
    ensures
        handled(state, request).0.jobs[id] == state.jobs[id],
{
}

/// Asking changes nothing: only Print-Job, Create-Job and Cancel-Job touch the
/// table.
pub proof fn asking_changes_nothing(state: StateView, request: RequestView)
    requires
        request.operation != OP_PRINT_JOB,
        request.operation != OP_CREATE_JOB,
        request.operation != OP_CANCEL_JOB,
    ensures
        handled(state, request).0 == state,
{
}

/// A job that is not there is not found, and an operation that is not offered is
/// refused; neither changes anything.
pub proof fn unknown_is_refused(state: StateView, request: RequestView)
    ensures
        ({
            let operation = request.operation;
            let on_job = operation == OP_SEND_DOCUMENT || operation == OP_GET_JOB_ATTRIBUTES
                || operation == OP_CANCEL_JOB;
            let missing = requested_job(request.attributes) matches Some(id)
                && !state.jobs.contains_key(id);
            &&& on_job && missing ==> handled(state, request) == reply(
                state,
                not_found_message(request),
            )
            &&& !offered(operation) ==> handled(state, request) == reply(
                state,
                not_supported_message(request),
            )
        }),
{
}

/// A request that is refused changes nothing.
pub proof fn refusal_changes_nothing(state: StateView, body: Seq<u8>)
    ensures
        processed(state, body).1 is Err ==> processed(state, body).0 == state,
{
}

// The life of a job ---------------------------------------------------------

/// After a Print-Job, and once its document has been saved, the job is found
/// under its number, completed, with its name, its user and its path.
pub proof fn printed_job_completes(
    state: StateView,
    print: RequestView,
    path: Seq<char>,
    ask: RequestView,
)
    requires
        print.operation == OP_PRINT_JOB,
        ask.operation == OP_GET_JOB_ATTRIBUTES,
        requested_job(ask.attributes) == Some(state.next_job_id),
    ensures
        ({
            let id = state.next_job_id;
            let begun = handled(state, print);
            let done = with_saved(begun.0, id, path);
            &&& begun.1 matches Ok(ActionView::Save { request, pending })
            &&& request == print
            &&& pending.id == id
            &&& begun.0.jobs[id].state == JOB_PROCESSING
            &&& done.jobs[id] == (JobView {
                state: JOB_COMPLETED,
                saved_path: Some(path),
                ..new_job(print.attributes, id, JOB_PROCESSING)
            })
            &&& handled(done, ask) == (
                done,
                Ok::<ActionView, IppError>(
                    ActionView::Reply(
                        encode_message(
                            job_message(
                                ask,
                                id,
                                pending.name,
                                pending.user,
                                JOB_COMPLETED,
                                state.ipp_port,
                            ),
                        ),
                    ),
                ),
            )
        }),
{
}

/// A job that was created waits, takes a document under its own name and user,
/// and is completed once that has been saved.
pub proof fn created_job_completes(
    state: StateView,
    create: RequestView,
    send: RequestView,
    path: Seq<char>,
)
    requires
        create.operation == OP_CREATE_JOB,
        send.operation == OP_SEND_DOCUMENT,
        requested_job(send.attributes) == Some(state.next_job_id),
    ensures
        ({
            let id = state.next_job_id;
            let waiting = handled(state, create).0;
            let done = with_saved(waiting, id, path);
            &&& waiting.jobs[id].state == JOB_PENDING
            &&& handled(waiting, send).0 == waiting
            &&& handled(waiting, send).1 matches Ok(ActionView::Save { request, pending })
            &&& request == send
            &&& pending.id == id
            &&& pending.name == new_name(create.attributes, id)
            &&& pending.user == new_user(create.attributes)
            &&& pending.metadata == ipp_metadata(
                pending.user,
                pending.name,
                match string_of(send.attributes, "document-format"@) {
                    Some(format) => format,
                    None => new_format(create.attributes),
                },
                send.attributes,
            )
            &&& done.jobs[id].state == JOB_COMPLETED
            &&& done.jobs[id].saved_path == Some(path)
        }),
{
}

/// A job that was canceled says so, and keeps all but its state.
pub proof fn canceled_job_says_so(state: StateView, cancel: RequestView, id: u32)
    requires
        cancel.operation == OP_CANCEL_JOB,
        requested_job(cancel.attributes) == Some(id),
        state.jobs.contains_key(id),
    ensures
        ({
            let after = handled(state, cancel);
            let job = state.jobs[id];
            &&& after.0.jobs[id] == (JobView { state: JOB_CANCELED, ..job })
            &&& after.1 == Ok::<ActionView, IppError>(
                ActionView::Reply(
                    encode_message(
                        job_message(cancel, id, job.name, job.user, JOB_CANCELED, state.ipp_port),
                    ),
                ),
            )
        }),
{
}

/// The number that a client reads in the answer to a Create-Job names the job
/// when the client sends it back.
pub proof fn created_number_names_job(
    state: StateView,
    create: RequestView,
    attributes: Attributes,
    tag: u8,
)
    requires
        create.operation == OP_CREATE_JOB,
        state.next_job_id <= i32::MAX,
        fits16(encode_utf8(new_name(create.attributes, state.next_job_id)).len()),
        fits16(encode_utf8(new_user(create.attributes)).len()),
    ensures
        ({
            &&& handled(state, create).1 matches Ok(ActionView::Reply(bytes))
            &&& parse_request(bytes) matches Ok(answer)
            &&& integer_of(answer.attributes, "job-id"@) matches Some(number)
            &&& attributes.contains_key("job-id"@) && attributes["job-id"@].values == number_attr(
                tag,
                "job-id"@,
                number,
            ).values ==> requested_job(attributes) == Some(state.next_job_id)
        }),
{
    let id = state.next_job_id;
    job_answer_read(
        create,
        id,
        new_name(create.attributes, id),
        new_user(create.attributes),
        JOB_PENDING,
        state.ipp_port,
    );
    if attributes.contains_key("job-id"@) && attributes["job-id"@].values == number_attr(
        tag,
        "job-id"@,
        signed(id),
    ).values {
        number_read(attributes, tag, "job-id"@, signed(id));
    }
}

// The document --------------------------------------------------------------

/// Of a request with a document behind it, exactly the document is to be saved,
/// where one is to be saved at all; with a Print-Job it is, with what the request
/// says of it.
pub proof fn document_is_kept(state: StateView, m: Message, document: Seq<u8>)
    requires
        legible(m),
    ensures
        ({
            let body = encode_message(m) + document;
            &&& processed(state, body).1 matches Ok(ActionView::Save { request, pending }) ==> {
                &&& body.skip(request.document_offset as int) == document
                &&& request.attributes == gathered(m.groups)
            }
            &&& m.code == OP_PRINT_JOB ==> {
                &&& processed(state, body).1 matches Ok(ActionView::Save { request, pending })
                &&& pending == printed(state, gathered(m.groups))
            }
        }),
{
    message_round_trip(m, document);
}

} // verus!
