//! The answers that are not about the printer itself.

use super::encoder::{
    number_attr, operation_attrs, spelled, spells_known, spells_none, spells_push, string_attr,
    IppEncoder,
};
use super::message::{
    encode_attrs, encode_message, encode_one_group, encode_two_groups, Attr, Group, Message,
    GROUP_END, GROUP_JOB, GROUP_OPERATION, STATUS_CLIENT_ERROR_NOT_FOUND, STATUS_OK,
    STATUS_SERVER_ERROR_OPERATION_NOT_SUPPORTED, TAG_ENUM, TAG_INTEGER, TAG_KEYWORD, TAG_NAME,
    TAG_TEXT, TAG_URI,
};
use super::printer::{printer_uri, printer_uri_text};
use super::request::{ParsedIppRequest, RequestView};
use crate::notation::{decimal, push_decimal};
use crate::text::owned;
use crate::wire::{signed, signed_value};
use vstd::prelude::*;
use vstd::string::StringExecFns;

verus! {

/// The state of a job that waits for its document.
pub const JOB_PENDING: i32 = 3;

/// The state of a job whose document is being saved.
pub const JOB_PROCESSING: i32 = 5;

/// The state of a job that was called off.
pub const JOB_CANCELED: i32 = 7;

/// The state of a job whose document has been saved.
pub const JOB_COMPLETED: i32 = 9;

/// The answer that says no more than that all is well.
pub open spec fn success_message(request: RequestView) -> Message {
    Message {
        version: request.version,
        code: STATUS_OK,
        request_id: request.request_id,
        groups: seq![Group { tag: GROUP_OPERATION, attrs: operation_attrs() }],
    }
}

/// An answer with a status and the reason for it.
pub open spec fn failure_message(request: RequestView, status: u16, reason: Seq<char>) -> Message {
    Message {
        version: request.version,
        code: status,
        request_id: request.request_id,
        groups: seq![
            Group {
                tag: GROUP_OPERATION,
                attrs: operation_attrs().push(string_attr(TAG_TEXT, "status-message"@, reason)),
            },
        ],
    }
}

/// The answer to an operation that is not offered.
pub open spec fn not_supported_message(request: RequestView) -> Message {
    failure_message(
        request,
        STATUS_SERVER_ERROR_OPERATION_NOT_SUPPORTED,
        "IPP operation not supported"@,
    )
}

/// The answer to a request about a job that is not there.
pub open spec fn not_found_message(request: RequestView) -> Message {
    failure_message(request, STATUS_CLIENT_ERROR_NOT_FOUND, "job not found"@)
}

/// Why a job is in its state.
pub open spec fn state_reason(state: i32) -> Seq<char> {
    if state == JOB_COMPLETED {
        "job-completed-successfully"@
    } else if state == JOB_CANCELED {
        "job-canceled-by-user"@
    } else {
        "none"@
    }
}

/// The address of a job.
pub open spec fn job_uri(ipp_port: u16, id: u32) -> Seq<char> {
    "ipp://127.0.0.1:"@ + decimal(ipp_port as nat) + "/jobs/"@ + decimal(id as nat)
}

/// What is said of a job.
pub open spec fn job_attrs(
    id: u32,
    name: Seq<char>,
    user: Seq<char>,
    state: i32,
    ipp_port: u16,
) -> Seq<Attr> {
    Seq::empty()
        .push(string_attr(TAG_URI, "job-uri"@, job_uri(ipp_port, id)))
        .push(number_attr(TAG_INTEGER, "job-id"@, signed(id)))
        .push(string_attr(TAG_NAME, "job-name"@, name))
        .push(string_attr(TAG_NAME, "job-originating-user-name"@, user))
        .push(number_attr(TAG_ENUM, "job-state"@, state))
        .push(string_attr(TAG_KEYWORD, "job-state-reasons"@, state_reason(state)))
        .push(string_attr(TAG_URI, "job-printer-uri"@, printer_uri(ipp_port)))
}

/// The answer to a request about a job.
pub open spec fn job_message(
    request: RequestView,
    id: u32,
    name: Seq<char>,
    user: Seq<char>,
    state: i32,
    ipp_port: u16,
) -> Message {
    Message {
        version: request.version,
        code: STATUS_OK,
        request_id: request.request_id,
        groups: seq![
            Group { tag: GROUP_OPERATION, attrs: operation_attrs() },
            Group { tag: GROUP_JOB, attrs: job_attrs(id, name, user, state, ipp_port) },
        ],
    }
}

/// Says that all is well.
pub fn success_response(request: &ParsedIppRequest) -> (bytes: Vec<u8>)
    ensures
        bytes@ == encode_message(success_message(request@)),
{
    let mut encoder = IppEncoder::new(request.version(), STATUS_OK, request.request_id);
    encoder.operation_defaults();
    proof {
        encode_one_group(success_message(request@));
        assert(encoder@.push(GROUP_END) =~= encoder@ + seq![GROUP_END]);
    }
    encoder.finish()
}

/// Answers with a status and the reason for it.
fn failure_response(request: &ParsedIppRequest, status: u16, reason: &str) -> (bytes: Vec<u8>)
    ensures
        bytes@ == encode_message(failure_message(request@, status, reason@)),
{
    broadcast use spells_push;

    let mut encoder = IppEncoder::new(request.version(), status, request.request_id);
    let ghost header = encoder@;
    encoder.operation_defaults();
    let ghost front = header + seq![GROUP_OPERATION];
    proof {
        assert(encoder@ =~= front + encode_attrs(operation_attrs()));
        spells_known(front, operation_attrs());
    }
    encoder.attr_string(TAG_TEXT, "status-message", reason);
    let ghost m = failure_message(request@, status, reason@);
    proof {
        spelled(encoder@, front, m.groups[0].attrs);
        encode_one_group(m);
        assert(encoder@.push(GROUP_END) =~= header + (seq![GROUP_OPERATION] + encode_attrs(
            m.groups[0].attrs,
        )) + seq![GROUP_END]);
    }
    encoder.finish()
}

/// Answers an operation that is not offered.
pub fn operation_not_supported_response(request: &ParsedIppRequest) -> (bytes: Vec<u8>)
    ensures
        bytes@ == encode_message(not_supported_message(request@)),
{
    failure_response(
        request,
        STATUS_SERVER_ERROR_OPERATION_NOT_SUPPORTED,
        "IPP operation not supported",
    )
}

/// Answers a request about a job that is not there.
pub fn not_found_response(request: &ParsedIppRequest) -> (bytes: Vec<u8>)
    ensures
        bytes@ == encode_message(not_found_message(request@)),
{
    failure_response(request, STATUS_CLIENT_ERROR_NOT_FOUND, "job not found")
}

/// Answers a request about a job.
pub fn job_response(
    request: &ParsedIppRequest,
    id: u32,
    name: &str,
    user: &str,
    state: i32,
    ipp_port: u16,
) -> (bytes: Vec<u8>)
    ensures
        bytes@ == encode_message(job_message(request@, id, name@, user@, state, ipp_port)),
{
    broadcast use spells_push;

    let mut uri = owned("ipp://127.0.0.1:");
    push_decimal(&mut uri, ipp_port as u64);
    uri.append("/jobs/");
    push_decimal(&mut uri, id as u64);
    let printer = printer_uri_text(ipp_port);
    let reason = if state == JOB_COMPLETED {
        "job-completed-successfully"
    } else if state == JOB_CANCELED {
        "job-canceled-by-user"
    } else {
        "none"
    };

    let mut encoder = IppEncoder::new(request.version(), STATUS_OK, request.request_id);
    encoder.operation_defaults();
    let ghost head = encoder@;
    encoder.begin_group(GROUP_JOB);
    let ghost front = encoder@;
    proof {
        spells_none(front);
    }
    encoder.attr_string(TAG_URI, "job-uri", uri.as_str());
    encoder.attr_integer("job-id", signed_value(id));
    encoder.attr_string(TAG_NAME, "job-name", name);
    encoder.attr_string(TAG_NAME, "job-originating-user-name", user);
    encoder.attr_enum("job-state", state);
    encoder.attr_string(TAG_KEYWORD, "job-state-reasons", reason);
    encoder.attr_string(TAG_URI, "job-printer-uri", printer.as_str());
    let ghost attrs = job_attrs(id, name@, user@, state, ipp_port);
    proof {
        spelled(encoder@, front, attrs);
        encode_two_groups(job_message(request@, id, name@, user@, state, ipp_port));
        assert(encoder@.push(GROUP_END) =~= head + (seq![GROUP_JOB] + encode_attrs(attrs))
            + seq![GROUP_END]);
    }
    encoder.finish()
}

} // verus!
