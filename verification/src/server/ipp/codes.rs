//! The numbers that the protocol gives to operations, states and the rest.

use super::message::{
    GROUP_END, GROUP_JOB, GROUP_OPERATION, GROUP_PRINTER, MAX_IPP_BODY_BYTES, OP_CANCEL_JOB,
    OP_CREATE_JOB, OP_GET_JOBS, OP_GET_JOB_ATTRIBUTES, OP_GET_PRINTER_ATTRIBUTES, OP_PRINT_JOB,
    OP_SEND_DOCUMENT, OP_VALIDATE_JOB, STATUS_CLIENT_ERROR_NOT_FOUND, STATUS_OK,
    STATUS_SERVER_ERROR_OPERATION_NOT_SUPPORTED, TAG_BOOLEAN, TAG_CHARSET, TAG_ENUM, TAG_INTEGER,
    TAG_KEYWORD, TAG_MIME, TAG_NAME, TAG_NATURAL_LANGUAGE, TAG_RANGE, TAG_RESOLUTION, TAG_TEXT,
    TAG_URI,
};
use super::responses::{JOB_CANCELED, JOB_COMPLETED, JOB_PENDING, JOB_PROCESSING};
use vstd::prelude::*;

verus! {

/// The operations and the statuses have the numbers that IPP gives them.
pub proof fn operations_have_their_numbers()
    ensures
        OP_PRINT_JOB == 0x0002,
        OP_VALIDATE_JOB == 0x0004,
        OP_CREATE_JOB == 0x0005,
        OP_SEND_DOCUMENT == 0x0006,
        OP_CANCEL_JOB == 0x0008,
        OP_GET_JOB_ATTRIBUTES == 0x0009,
        OP_GET_JOBS == 0x000a,
        OP_GET_PRINTER_ATTRIBUTES == 0x000b,
        STATUS_OK == 0x0000,
        STATUS_CLIENT_ERROR_NOT_FOUND == 0x0406,
        STATUS_SERVER_ERROR_OPERATION_NOT_SUPPORTED == 0x0501,
{
}

/// The groups and the tags have the numbers that IPP gives them.
pub proof fn tags_have_their_numbers()
    ensures
        GROUP_OPERATION == 0x01,
        GROUP_JOB == 0x02,
        GROUP_END == 0x03,
        GROUP_PRINTER == 0x04,
        TAG_INTEGER == 0x21,
        TAG_BOOLEAN == 0x22,
        TAG_ENUM == 0x23,
        TAG_RESOLUTION == 0x32,
        TAG_RANGE == 0x33,
        TAG_TEXT == 0x41,
        TAG_NAME == 0x42,
        TAG_KEYWORD == 0x44,
        TAG_URI == 0x45,
        TAG_CHARSET == 0x47,
        TAG_NATURAL_LANGUAGE == 0x48,
        TAG_MIME == 0x49,
{
}

/// The states of a job have the numbers that IPP gives them, and the largest
/// request is of 256 MiB.
pub proof fn states_have_their_numbers()
    ensures
        JOB_PENDING == 3,
        JOB_PROCESSING == 5,
        JOB_CANCELED == 7,
        JOB_COMPLETED == 9,
        MAX_IPP_BODY_BYTES == 256 * 1024 * 1024,
{
}

} // verus!
