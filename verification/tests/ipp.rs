//! Requests, answers and jobs over IPP.

use virtual_print_sink::name_map::NameMap;
use virtual_print_sink::server::ipp::encoder::{resolution_bytes, IppEncoder};
use virtual_print_sink::server::ipp::jobs::{
    cancel_job, create_job, document_saved, get_job_attributes, get_jobs_response, print_job,
    process_ipp_request, send_document, IppAction, IppState,
};
use virtual_print_sink::server::ipp::message::{
    GROUP_END, GROUP_JOB, GROUP_OPERATION, GROUP_PRINTER, MAX_IPP_BODY_BYTES, OP_CANCEL_JOB,
    OP_CREATE_JOB, OP_GET_JOBS, OP_GET_JOB_ATTRIBUTES, OP_GET_PRINTER_ATTRIBUTES, OP_PRINT_JOB,
    OP_SEND_DOCUMENT, OP_VALIDATE_JOB, PRINTER_DEVICE_ID, PRINTER_UUID,
    STATUS_CLIENT_ERROR_NOT_FOUND, STATUS_OK, STATUS_SERVER_ERROR_OPERATION_NOT_SUPPORTED,
    TAG_BOOLEAN, TAG_ENUM, TAG_INTEGER, TAG_KEYWORD, TAG_MIME, TAG_NAME, TAG_RANGE, TAG_RESOLUTION,
    TAG_TEXT, TAG_URI,
};
use virtual_print_sink::server::ipp::metadata::{attributes_to_metadata, render_value};
use virtual_print_sink::server::ipp::printer::{printer_attributes_response, printer_uri_text};
use virtual_print_sink::server::ipp::request::{read_u16, IppError, ParsedIppRequest};
use virtual_print_sink::server::ipp::responses::{
    job_response, not_found_response, operation_not_supported_response, success_response,
    JOB_CANCELED, JOB_COMPLETED, JOB_PENDING, JOB_PROCESSING,
};

/// A request without attributes.
fn bare(operation: u16, request_id: u32) -> ParsedIppRequest {
    ParsedIppRequest {
        version_major: 1,
        version_minor: 1,
        operation,
        request_id,
        attributes: NameMap::new(),
        document_offset: 0,
    }
}

/// A request body that asks for `operation`, with texts and a job id.
fn body(operation: u16, texts: &[(u8, &str, &str)], job_id: Option<i32>) -> Vec<u8> {
    let mut encoder = IppEncoder::new((2, 0), operation, 77);
    encoder.operation_defaults();
    for (tag, name, value) in texts {
        encoder.attr_string(*tag, name, value);
    }
    if let Some(id) = job_id {
        encoder.attr_integer("job-id", id);
    }
    encoder.finish()
}

/// A request with texts and a job id.
fn request(operation: u16, texts: &[(u8, &str, &str)], job_id: Option<i32>) -> ParsedIppRequest {
    ParsedIppRequest::parse(&body(operation, texts, job_id)).unwrap()
}

/// What a job answer says: the id, the state and the name.
fn job_said(answer: &[u8]) -> (Option<i32>, Option<i32>, Option<String>) {
    let parsed = ParsedIppRequest::parse(answer).unwrap();
    (
        parsed.get_i32("job-id"),
        parsed.get_i32("job-state"),
        parsed.get_string("job-name"),
    )
}

#[test]
fn parses_minimal_get_printer_attributes_request() {
    let body = vec![
        0x01, 0x01, 0x00, 0x0b, 0, 0, 0, 1, 0x01, 0x47, 0, 18, b'a', b't', b't', b'r', b'i', b'b',
        b'u', b't', b'e', b's', b'-', b'c', b'h', b'a', b'r', b's', b'e', b't', 0, 5, b'u', b't',
        b'f', b'-', b'8', 0x03,
    ];
    let req = ParsedIppRequest::parse(&body).unwrap();
    assert_eq!(req.operation, OP_GET_PRINTER_ATTRIBUTES);
    assert_eq!(
        req.get_string("attributes-charset").as_deref(),
        Some("utf-8")
    );
    assert_eq!(req.document_offset, body.len());
}

#[test]
fn response_has_matching_request_id() {
    let request = ParsedIppRequest {
        version_major: 1,
        version_minor: 1,
        operation: OP_GET_PRINTER_ATTRIBUTES,
        request_id: 0x01020304,
        attributes: NameMap::new(),
        document_offset: 0,
    };
    let response = printer_attributes_response(&request, 8631);
    assert_eq!(&response[4..8], &[1, 2, 3, 4]);
    assert_eq!(response.last(), Some(&GROUP_END));
}

#[test]
fn printer_attributes_include_stable_psa_identity() {
    let request = ParsedIppRequest {
        version_major: 2,
        version_minor: 0,
        operation: OP_GET_PRINTER_ATTRIBUTES,
        request_id: 7,
        attributes: NameMap::new(),
        document_offset: 0,
    };

    let response = printer_attributes_response(&request, 8631);
    let parsed = ParsedIppRequest::parse(&response).unwrap();

    assert_eq!(
        parsed.get_string("printer-device-id").as_deref(),
        Some(PRINTER_DEVICE_ID)
    );
    assert_eq!(
        parsed.get_string("printer-uuid").as_deref(),
        Some(PRINTER_UUID)
    );
    assert_eq!(
        parsed.get_string("document-format-preferred").as_deref(),
        Some("application/pdf")
    );
    assert_eq!(parsed.get_i32("job-priority-supported"), Some(100));
    assert_eq!(
        parsed.get_string("print-scaling-default").as_deref(),
        Some("auto")
    );
    assert_eq!(
        parsed
            .attributes
            .get("printer-device-id")
            .map(|attribute| attribute.tag),
        Some(TAG_TEXT)
    );
}

#[test]
fn printer_answer_names_its_address_and_its_operations() {
    let response = printer_attributes_response(&bare(OP_GET_PRINTER_ATTRIBUTES, 1), 18631);
    let parsed = ParsedIppRequest::parse(&response).unwrap();
    assert_eq!(parsed.version(), (1, 1));
    assert_eq!(parsed.operation, STATUS_OK);
    assert_eq!(parsed.document_offset, response.len());
    assert_eq!(
        parsed.get_string("printer-uri-supported").as_deref(),
        Some("ipp://127.0.0.1:18631/printers/virtual")
    );
    assert_eq!(
        printer_uri_text(18631),
        "ipp://127.0.0.1:18631/printers/virtual"
    );
    let operations = parsed.attributes.get("operations-supported").unwrap();
    assert_eq!(operations.group, GROUP_PRINTER);
    assert_eq!(operations.tag, TAG_ENUM);
    assert_eq!(
        operations.values,
        vec![
            vec![0, 0, 0, 2],
            vec![0, 0, 0, 4],
            vec![0, 0, 0, 5],
            vec![0, 0, 0, 6],
            vec![0, 0, 0, 8],
            vec![0, 0, 0, 9],
            vec![0, 0, 0, 10],
            vec![0, 0, 0, 11],
        ]
    );
    let size = parsed.attributes.get("job-k-octets-supported").unwrap();
    assert_eq!(size.tag, TAG_RANGE);
    assert_eq!(size.values, vec![vec![0, 0, 0, 0, 0, 4, 0, 0]]);
    assert_eq!(MAX_IPP_BODY_BYTES, 256 * 1024 * 1024);
    let resolution = parsed.attributes.get("printer-resolution-default").unwrap();
    assert_eq!(resolution.tag, TAG_RESOLUTION);
    assert_eq!(resolution.values, vec![vec![0, 0, 2, 88, 0, 0, 2, 88, 3]]);
    let color = parsed.attributes.get("color-supported").unwrap();
    assert_eq!(color.tag, TAG_BOOLEAN);
    assert_eq!(color.values, vec![vec![1]]);
    assert_eq!(parsed.attributes.len(), 74);
}

#[test]
fn every_request_error_has_an_input() {
    let parse = |bytes: &[u8]| ParsedIppRequest::parse(bytes).unwrap_err();
    assert_eq!(parse(&[1, 1, 0, 2, 0, 0, 0, 1]), IppError::TooShort);
    let head = [1u8, 1, 0, 2, 0, 0, 0, 1];
    let with = |rest: &[u8]| {
        let mut bytes = head.to_vec();
        bytes.extend_from_slice(rest);
        bytes
    };
    assert_eq!(parse(&with(&[0x01, 0x47, 0])), IppError::UnexpectedEnd);
    assert_eq!(parse(&with(&[0x47, 0, 9, b'a'])), IppError::InvalidNameLength);
    assert_eq!(parse(&with(&[0x01, 0x47, 0, 0, 0, 0, 3])), IppError::NoPredecessor);
    assert_eq!(parse(&with(&[0x47, 0, 1, b'a', 0])), IppError::UnexpectedEnd);
    assert_eq!(
        parse(&with(&[0x47, 0, 1, b'a', 0, 2, 3])),
        IppError::InvalidValueLength
    );
    assert_eq!(parse(&with(&[0x01])), IppError::EndTagMissing);
    assert_eq!(IppError::TooShort.message(), "IPP request is too short");
    assert_eq!(IppError::UnexpectedEnd.message(), "unexpected end of IPP message");
    assert_eq!(
        IppError::InvalidNameLength.message(),
        "invalid IPP attribute name length"
    );
    assert_eq!(
        IppError::NoPredecessor.message(),
        "IPP attribute with empty name has no predecessor"
    );
    assert_eq!(
        IppError::InvalidValueLength.message(),
        "invalid IPP attribute value length"
    );
    assert_eq!(
        IppError::EndTagMissing.message(),
        "IPP end-of-attributes tag was not found"
    );
}

#[test]
fn values_without_a_name_belong_to_the_one_before() {
    let mut encoder = IppEncoder::new((2, 0), OP_PRINT_JOB, 5);
    encoder.begin_group(GROUP_OPERATION);
    encoder.attr_strings(TAG_KEYWORD, "sides", &["one", "two"]);
    encoder.begin_group(GROUP_JOB);
    encoder.attr_raw(TAG_NAME, "sides", b"three");
    encoder.attr_raw_continuation(TAG_NAME, b"four");
    let mut bytes = encoder.finish();
    let end = bytes.len();
    bytes.extend_from_slice(b"%PDF-1.4 data");
    let parsed = ParsedIppRequest::parse(&bytes).unwrap();
    let sides = parsed.attributes.get("sides").unwrap();
    assert_eq!(sides.group, GROUP_OPERATION);
    assert_eq!(sides.tag, TAG_KEYWORD);
    assert_eq!(
        sides.values,
        vec![b"one".to_vec(), b"two".to_vec(), b"three".to_vec(), b"four".to_vec()]
    );
    assert_eq!(parsed.document_offset, end);
    assert_eq!(parsed.document(&bytes), b"%PDF-1.4 data");
}

#[test]
fn malformed_text_is_read_with_replacements() {
    let mut encoder = IppEncoder::new((1, 1), OP_PRINT_JOB, 5);
    encoder.begin_group(GROUP_OPERATION);
    encoder.attr_raw(TAG_NAME, "job-name", b"a\xffb");
    encoder.attr_raw(TAG_NAME, "job-k-octets", b"123");
    let parsed = ParsedIppRequest::parse(&encoder.finish()).unwrap();
    assert_eq!(parsed.get_string("job-name").as_deref(), Some("a\u{fffd}b"));
    assert_eq!(parsed.get_i32("job-k-octets"), None);
    assert_eq!(parsed.get_i32("absent"), None);
    assert_eq!(parsed.get_string("absent"), None);
}

#[test]
fn requests_end_at_the_end_tag() {
    let whole = body(OP_PRINT_JOB, &[(TAG_NAME, "job-name", "Report")], Some(3));
    for k in 0..whole.len() {
        assert!(ParsedIppRequest::parse(&whole[..k]).is_err());
    }
    let mut longer = whole.clone();
    longer.extend_from_slice(&[1, 0x47, 0, 9, 3]);
    let parsed = ParsedIppRequest::parse(&longer).unwrap();
    assert_eq!(parsed.attributes.len(), 4);
    assert_eq!(parsed.document_offset, whole.len());
    assert_eq!(parsed.document(&longer), &[1, 0x47, 0, 9, 3]);
}

#[test]
fn the_printer_lists_what_is_served() {
    let mut state = IppState::new(8631);
    let answer = printer_attributes_response(&bare(OP_GET_PRINTER_ATTRIBUTES, 1), 8631);
    let parsed = ParsedIppRequest::parse(&answer).unwrap();
    let listed = &parsed.attributes.get("operations-supported").unwrap().values;
    for operation in 0..0x40u16 {
        let refused = match process_ipp_request(&mut state, &body(operation, &[], Some(1))) {
            Ok(IppAction::Reply(bytes)) => {
                ParsedIppRequest::parse(&bytes).unwrap().operation
                    == STATUS_SERVER_ERROR_OPERATION_NOT_SUPPORTED
            }
            _ => false,
        };
        assert_eq!(listed.contains(&vec![0, 0, 0, operation as u8]), !refused);
    }
}

#[test]
fn the_port_changes_only_the_address() {
    let asked = bare(OP_GET_PRINTER_ATTRIBUTES, 1);
    let one = ParsedIppRequest::parse(&printer_attributes_response(&asked, 1)).unwrap();
    let two = ParsedIppRequest::parse(&printer_attributes_response(&asked, 22)).unwrap();
    assert_eq!(one.attributes.len(), two.attributes.len());
    for i in 0..one.attributes.len() {
        let (name, value) = one.attributes.entry(i);
        let (other_name, other) = two.attributes.entry(i);
        assert_eq!(name, other_name);
        assert_eq!(value.values == other.values, name != "printer-uri-supported");
    }
}

#[test]
fn malformed_names_are_kept() {
    let body = [1, 1, 0, 2, 0, 0, 0, 1, 1, 0x42, 0, 1, 0xff, 0, 1, b'v', 3];
    let parsed = ParsedIppRequest::parse(&body).unwrap();
    assert_eq!(parsed.attributes.len(), 1);
    assert_eq!(parsed.get_string("\u{fffd}").as_deref(), Some("v"));
}

#[test]
fn numbers_of_two_bytes_are_read_in_place() {
    let mut index: usize = 1;
    assert_eq!(read_u16(&[9, 1, 2, 3], &mut index), Ok(258));
    assert_eq!(index, 3);
    assert_eq!(read_u16(&[9, 1, 2, 3], &mut index), Err(IppError::UnexpectedEnd));
    assert_eq!(index, 3);
}

#[test]
fn attributes_on_the_wire() {
    let mut encoder = IppEncoder::new((1, 1), 0x0501, 0x01020304);
    encoder.begin_group(GROUP_JOB);
    encoder.attr_integer("a", -2);
    encoder.attr_boolean("b", true);
    encoder.attr_range("c", 1, 999);
    encoder.attr_enums("d", &[3, 4]);
    encoder.attr_resolutions("e", &[(300, 600, 3)]);
    assert_eq!(
        encoder.finish(),
        vec![
            1, 1, 5, 1, 1, 2, 3, 4, 2, 0x21, 0, 1, b'a', 0, 4, 0xff, 0xff, 0xff, 0xfe, 0x22, 0, 1,
            b'b', 0, 1, 1, 0x33, 0, 1, b'c', 0, 8, 0, 0, 0, 1, 0, 0, 3, 0xe7, 0x23, 0, 1, b'd', 0,
            4, 0, 0, 0, 3, 0x23, 0, 0, 0, 4, 0, 0, 0, 4, 0x32, 0, 1, b'e', 0, 9, 0, 0, 1, 0x2c, 0,
            0, 2, 0x58, 3, 3,
        ]
    );
    assert_eq!(resolution_bytes(300, 600, 3), [0, 0, 1, 0x2c, 0, 0, 2, 0x58, 3]);
}

#[test]
fn answers_have_their_status() {
    let asked = bare(OP_VALIDATE_JOB, 9);
    let status = |bytes: &[u8]| ParsedIppRequest::parse(bytes).unwrap().operation;
    let reason = |bytes: &[u8]| {
        ParsedIppRequest::parse(bytes)
            .unwrap()
            .get_string("status-message")
    };
    assert_eq!(status(&success_response(&asked)), STATUS_OK);
    assert_eq!(reason(&success_response(&asked)), None);
    assert_eq!(
        status(&operation_not_supported_response(&asked)),
        STATUS_SERVER_ERROR_OPERATION_NOT_SUPPORTED
    );
    assert_eq!(
        reason(&operation_not_supported_response(&asked)).as_deref(),
        Some("IPP operation not supported")
    );
    assert_eq!(status(&not_found_response(&asked)), STATUS_CLIENT_ERROR_NOT_FOUND);
    assert_eq!(reason(&not_found_response(&asked)).as_deref(), Some("job not found"));
}

#[test]
fn job_answer_is_read_back() {
    let answer = job_response(&bare(OP_CREATE_JOB, 3), 12, "Report", "me", JOB_CANCELED, 8631);
    let parsed = ParsedIppRequest::parse(&answer).unwrap();
    assert_eq!(parsed.request_id, 3);
    assert_eq!(
        parsed.get_string("job-uri").as_deref(),
        Some("ipp://127.0.0.1:8631/jobs/12")
    );
    assert_eq!(parsed.get_i32("job-id"), Some(12));
    assert_eq!(parsed.get_string("job-name").as_deref(), Some("Report"));
    assert_eq!(
        parsed.get_string("job-originating-user-name").as_deref(),
        Some("me")
    );
    assert_eq!(parsed.get_i32("job-state"), Some(7));
    assert_eq!(
        parsed.get_string("job-state-reasons").as_deref(),
        Some("job-canceled-by-user")
    );
    assert_eq!(
        parsed.get_string("job-printer-uri").as_deref(),
        Some("ipp://127.0.0.1:8631/printers/virtual")
    );
    let done = job_response(&bare(OP_CREATE_JOB, 3), 12, "Report", "me", JOB_COMPLETED, 8631);
    assert_eq!(
        ParsedIppRequest::parse(&done)
            .unwrap()
            .get_string("job-state-reasons")
            .as_deref(),
        Some("job-completed-successfully")
    );
    let waits = job_response(&bare(OP_CREATE_JOB, 3), 12, "Report", "me", JOB_PENDING, 8631);
    assert_eq!(
        ParsedIppRequest::parse(&waits)
            .unwrap()
            .get_string("job-state-reasons")
            .as_deref(),
        Some("none")
    );
}

#[test]
fn values_are_rendered_by_their_tag() {
    assert_eq!(render_value(TAG_INTEGER, &[0xff, 0xff, 0xff, 0xff]), "-1");
    assert_eq!(render_value(TAG_ENUM, &[0, 0, 1, 0]), "256");
    assert_eq!(render_value(TAG_INTEGER, &[0, 1]), "0001");
    assert_eq!(render_value(TAG_BOOLEAN, &[1]), "true");
    assert_eq!(render_value(TAG_BOOLEAN, &[0]), "false");
    assert_eq!(render_value(TAG_KEYWORD, b"auto"), "auto");
    assert_eq!(render_value(TAG_URI, b"a\xffz"), "a\u{fffd}z");
    assert_eq!(render_value(TAG_RESOLUTION, &[0x00, 0xab, 0x7f]), "00ab7f");
}

#[test]
fn attributes_are_kept_in_readable_form() {
    let mut encoder = IppEncoder::new((1, 1), OP_PRINT_JOB, 1);
    encoder.begin_group(GROUP_OPERATION);
    encoder.attr_string(TAG_NAME, "job-name", "Report");
    encoder.begin_group(GROUP_JOB);
    encoder.attr_integers("copies", &[2, 3]);
    let parsed = ParsedIppRequest::parse(&encoder.finish()).unwrap();
    let kept = attributes_to_metadata(&parsed);
    assert_eq!(kept.len(), 2);
    assert_eq!(kept.get("g01:job-name").map(|v| v.as_str()), Some("Report"));
    assert_eq!(kept.get("g02:copies").map(|v| v.as_str()), Some("2, 3"));
    assert_eq!(kept.get("copies"), None);
}

#[test]
fn print_job_runs_to_its_end() {
    let mut state = IppState::new(8631);
    let mut bytes = body(
        OP_PRINT_JOB,
        &[
            (TAG_NAME, "job-name", "Report"),
            (TAG_NAME, "requesting-user-name", "me"),
            (TAG_MIME, "document-format", "application/pdf"),
        ],
        None,
    );
    bytes.extend_from_slice(b"%PDF-1.4");
    let (asked, pending) = match process_ipp_request(&mut state, &bytes).unwrap() {
        IppAction::Save { request, pending } => (request, pending),
        IppAction::Reply(_) => panic!("a document has to be saved first"),
    };
    assert_eq!(&bytes[asked.document_offset..], b"%PDF-1.4");
    assert_eq!(pending.id, 1);
    assert_eq!(pending.name, "Report");
    assert_eq!(pending.user, "me");
    assert_eq!(pending.metadata.protocol, "IPP");
    assert_eq!(pending.metadata.user.as_deref(), Some("me"));
    assert_eq!(pending.metadata.job_name.as_deref(), Some("Report"));
    assert_eq!(
        pending.metadata.document_format.as_deref(),
        Some("application/pdf")
    );
    assert_eq!(pending.metadata.source, None);
    assert_eq!(pending.metadata.queue, None);
    assert_eq!(
        pending
            .metadata
            .attributes
            .get("g01:document-format")
            .map(|v| v.as_str()),
        Some("application/pdf")
    );
    assert_eq!(state.job(1).unwrap().state, JOB_PROCESSING);
    let answer = document_saved(&mut state, &asked, &pending, "/jobs/report.pdf".to_string());
    assert_eq!(
        job_said(&answer),
        (Some(1), Some(JOB_COMPLETED), Some("Report".to_string()))
    );
    let job = state.job(1).unwrap();
    assert_eq!(job.state, JOB_COMPLETED);
    assert_eq!(job.saved_path.as_deref(), Some("/jobs/report.pdf"));
    assert_eq!(job.document_format, "application/pdf");
    let asked = request(OP_GET_JOB_ATTRIBUTES, &[], Some(1));
    let answer = get_job_attributes(&state, &asked).unwrap();
    assert_eq!(
        job_said(&answer),
        (Some(1), Some(JOB_COMPLETED), Some("Report".to_string()))
    );
}

#[test]
fn jobs_without_a_name_are_numbered() {
    let mut state = IppState::new(8631);
    let pending = print_job(&mut state, &bare(OP_PRINT_JOB, 1));
    assert_eq!(pending.name, "ipp-job-1");
    assert_eq!(pending.user, "unknown");
    assert_eq!(
        pending.metadata.document_format.as_deref(),
        Some("application/octet-stream")
    );
    let pending = print_job(&mut state, &bare(OP_PRINT_JOB, 2));
    assert_eq!(pending.id, 2);
    assert_eq!(pending.name, "ipp-job-2");
    assert_eq!(state.job(1).unwrap().name, "ipp-job-1");
}

#[test]
fn created_job_takes_a_document() {
    let mut state = IppState::new(8631);
    let create = request(
        OP_CREATE_JOB,
        &[
            (TAG_NAME, "job-name", "Letter"),
            (TAG_MIME, "document-format", "image/urf"),
        ],
        None,
    );
    let answer = create_job(&mut state, &create).unwrap();
    assert_eq!(
        job_said(&answer),
        (Some(1), Some(JOB_PENDING), Some("Letter".to_string()))
    );
    let send = request(OP_SEND_DOCUMENT, &[(TAG_NAME, "job-name", "other")], Some(1));
    let pending = send_document(&state, &send).unwrap().unwrap();
    assert_eq!(pending.id, 1);
    assert_eq!(pending.name, "Letter");
    assert_eq!(pending.metadata.document_format.as_deref(), Some("image/urf"));
    let send = request(OP_SEND_DOCUMENT, &[(TAG_MIME, "document-format", "image/jpeg")], Some(1));
    let pending = send_document(&state, &send).unwrap().unwrap();
    assert_eq!(pending.metadata.document_format.as_deref(), Some("image/jpeg"));
    let answer = document_saved(&mut state, &send, &pending, "x".to_string());
    assert_eq!(
        job_said(&answer),
        (Some(1), Some(JOB_COMPLETED), Some("Letter".to_string()))
    );
    assert_eq!(state.job(1).unwrap().saved_path.as_deref(), Some("x"));
}

#[test]
fn documents_and_questions_need_a_job_id() {
    let mut state = IppState::new(8631);
    create_job(&mut state, &bare(OP_CREATE_JOB, 1)).unwrap();
    for id in [None, Some(-1)] {
        assert_eq!(
            process_ipp_request(&mut state, &body(OP_SEND_DOCUMENT, &[], id)).unwrap_err(),
            IppError::SendDocumentWithoutJobId
        );
        assert_eq!(
            process_ipp_request(&mut state, &body(OP_GET_JOB_ATTRIBUTES, &[], id)).unwrap_err(),
            IppError::GetJobAttributesWithoutJobId
        );
    }
    assert_eq!(
        IppError::SendDocumentWithoutJobId.message(),
        "Send-Document requires job-id"
    );
    assert_eq!(
        IppError::GetJobAttributesWithoutJobId.message(),
        "Get-Job-Attributes requires job-id"
    );
    assert_eq!(state.job(1).unwrap().state, JOB_PENDING);
}

#[test]
fn unknown_jobs_are_not_found() {
    let mut state = IppState::new(8631);
    for operation in [OP_SEND_DOCUMENT, OP_GET_JOB_ATTRIBUTES, OP_CANCEL_JOB] {
        match process_ipp_request(&mut state, &body(operation, &[], Some(5))).unwrap() {
            IppAction::Reply(bytes) => assert_eq!(
                ParsedIppRequest::parse(&bytes).unwrap().operation,
                STATUS_CLIENT_ERROR_NOT_FOUND
            ),
            IppAction::Save { .. } => panic!("there is no such job"),
        }
    }
    let answer = cancel_job(&mut state, &bare(OP_CANCEL_JOB, 1)).unwrap();
    assert_eq!(
        ParsedIppRequest::parse(&answer).unwrap().operation,
        STATUS_CLIENT_ERROR_NOT_FOUND
    );
    assert!(state.job(5).is_none());
}

#[test]
fn canceled_job_keeps_the_rest() {
    let mut state = IppState::new(8631);
    create_job(&mut state, &bare(OP_CREATE_JOB, 1)).unwrap();
    create_job(&mut state, &bare(OP_CREATE_JOB, 2)).unwrap();
    let answer = cancel_job(&mut state, &request(OP_CANCEL_JOB, &[], Some(2))).unwrap();
    assert_eq!(
        job_said(&answer),
        (Some(2), Some(JOB_CANCELED), Some("ipp-job-2".to_string()))
    );
    assert_eq!(state.job(2).unwrap().state, JOB_CANCELED);
    assert_eq!(state.job(2).unwrap().user, "unknown");
    assert_eq!(state.job(1).unwrap().state, JOB_PENDING);
}

#[test]
fn a_saved_document_of_a_lost_job_is_still_answered() {
    let mut first = IppState::new(8631);
    let mut other = IppState::new(8631);
    let asked = bare(OP_PRINT_JOB, 4);
    let pending = print_job(&mut first, &asked);
    let answer = document_saved(&mut other, &asked, &pending, "x".to_string());
    assert_eq!(
        job_said(&answer),
        (Some(1), Some(JOB_COMPLETED), Some("ipp-job-1".to_string()))
    );
    assert!(other.job(1).is_none());
}

#[test]
fn other_operations_are_answered_at_once() {
    let mut state = IppState::new(8631);
    let cases = [
        (OP_VALIDATE_JOB, STATUS_OK),
        (OP_GET_JOBS, STATUS_OK),
        (OP_GET_PRINTER_ATTRIBUTES, STATUS_OK),
        (0x0010, STATUS_SERVER_ERROR_OPERATION_NOT_SUPPORTED),
    ];
    for (operation, status) in cases {
        match process_ipp_request(&mut state, &body(operation, &[], None)).unwrap() {
            IppAction::Reply(bytes) => {
                let parsed = ParsedIppRequest::parse(&bytes).unwrap();
                assert_eq!(parsed.operation, status);
                assert_eq!(parsed.version(), (2, 0));
                assert_eq!(parsed.request_id, 77);
                assert_eq!(bytes.last(), Some(&GROUP_END));
            }
            IppAction::Save { .. } => panic!("nothing is to be saved"),
        }
    }
    assert_eq!(
        get_jobs_response(&state, &bare(OP_GET_JOBS, 8)),
        success_response(&bare(OP_GET_JOBS, 8))
    );
}
