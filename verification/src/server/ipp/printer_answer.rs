//! What a client reads of the printer.

use super::answers::{
    holds_once, legible_none, number_read, operation_attrs_legible, printer_uri_fits,
    second_group_read, text_read,
};
use super::encoder::{number_attr, numbers_attr, string_attr};
use super::job_laws::offered;
use super::message::{
    encode_message, OP_CANCEL_JOB, OP_CREATE_JOB, OP_GET_JOBS, OP_GET_JOB_ATTRIBUTES, OP_PRINT_JOB,
    OP_SEND_DOCUMENT, OP_VALIDATE_JOB, PRINTER_DEVICE_ID, PRINTER_UUID, TAG_ENUM, TAG_INTEGER,
    TAG_KEYWORD, TAG_MIME, TAG_TEXT, TAG_URI,
};
use super::printer::{
    document_attrs, identity_attrs, limit_attrs, media_attrs, operations_served, printer_attrs,
    printer_message, printer_uri, protocol_attrs, raster_attrs, rendering_attrs, state_attrs,
};
use super::request::{integer_of, parse_request, string_of, RequestView};
use super::round_trip::{fits16, gathered, legible, legible_attrs, message_round_trip, unnamed};
use crate::wire::{be32, be32_round_trip, bits_of};
use vstd::prelude::*;
use vstd::utf8::encode_utf8;

verus! {

broadcast use super::answers::group_reading;

// Section by section --------------------------------------------------------

/// How long the names are that are sought below.
proof fn sought_lengths()
    ensures
        "printer-device-id"@.len() == 17,
        "printer-uuid"@.len() == 12,
        "document-format-preferred"@.len() == 25,
        "job-priority-supported"@.len() == 22,
        "print-scaling-default"@.len() == 21,
        "operations-supported"@.len() == 20,
{
    reveal_strlit("printer-device-id");
    reveal_strlit("printer-uuid");
    reveal_strlit("document-format-preferred");
    reveal_strlit("job-priority-supported");
    reveal_strlit("print-scaling-default");
    reveal_strlit("operations-supported");
}

/// [`identity_attrs`] can be read back, and the names that are sought stand there once or
/// not at all.
proof fn identity_read(uri: Seq<char>)
    requires
        fits16(encode_utf8(uri).len()),
    ensures
        legible_attrs(identity_attrs(uri)),
        holds_once(
            identity_attrs(uri),
            string_attr(TAG_TEXT, "printer-device-id"@, PRINTER_DEVICE_ID@),
        ),
        holds_once(
            identity_attrs(uri),
            string_attr(TAG_URI, "printer-uuid"@, PRINTER_UUID@),
        ),
        unnamed(identity_attrs(uri), "document-format-preferred"@),
        unnamed(identity_attrs(uri), "job-priority-supported"@),
        unnamed(identity_attrs(uri), "print-scaling-default"@),
        unnamed(identity_attrs(uri), "operations-supported"@),
{
    reveal(identity_attrs);
    reveal_strlit("printer-uri-supported");
    reveal_strlit("uri-authentication-supported");
    reveal_strlit("uri-security-supported");
    reveal_strlit("printer-name");
    reveal_strlit("printer-info");
    reveal_strlit("printer-location");
    reveal_strlit("printer-make-and-model");
    reveal_strlit("printer-device-id");
    reveal_strlit("printer-uuid");
    reveal_strlit("none");
    reveal_strlit("Virtual Print Sink");
    reveal_strlit("Rust LPR/IPP file capture printer");
    reveal_strlit("localhost");
    reveal_strlit("OpenAI Virtual Print Sink 0.1");
    reveal_strlit("MFG:OpenAI;MDL:Virtual Print Sink;CMD:PDF,POSTSCRIPT,PCL,PWGRASTER,URF;CLS:PRINTER;DES:Virtual Print Sink IPP Printer;");
    reveal_strlit("urn:uuid:8fddfcaf-d219-4c69-998c-e6a6681b2d11");
    reveal_strlit("job-priority-supported");
    reveal_strlit("print-scaling-default");
    assert("printer-uri-supported"@[5] != "print-scaling-default"@[5]);
    assert("uri-security-supported"@[0] != "job-priority-supported"@[0]);
    assert("printer-name"@[8] != "printer-uuid"@[8]);
    assert("printer-info"@[8] != "printer-uuid"@[8]);
    assert("printer-make-and-model"@[0] != "job-priority-supported"@[0]);
    sought_lengths();
    legible_none();
}

/// [`state_attrs`] can be read back, and the names that are sought stand there once or
/// not at all.
proof fn state_read()
    ensures
        legible_attrs(state_attrs()),
        unnamed(state_attrs(), "printer-device-id"@),
        unnamed(state_attrs(), "printer-uuid"@),
        unnamed(state_attrs(), "document-format-preferred"@),
        unnamed(state_attrs(), "job-priority-supported"@),
        unnamed(state_attrs(), "print-scaling-default"@),
        unnamed(state_attrs(), "operations-supported"@),
{
    reveal(state_attrs);
    reveal_strlit("printer-state");
    reveal_strlit("printer-state-reasons");
    reveal_strlit("printer-is-accepting-jobs");
    reveal_strlit("queued-job-count");
    reveal_strlit("printer-config-change-time");
    reveal_strlit("printer-up-time");
    reveal_strlit("pages-per-minute");
    reveal_strlit("pages-per-minute-color");
    reveal_strlit("color-supported");
    reveal_strlit("none");
    reveal_strlit("document-format-preferred");
    reveal_strlit("job-priority-supported");
    reveal_strlit("print-scaling-default");
    assert("printer-state-reasons"@[5] != "print-scaling-default"@[5]);
    assert("printer-is-accepting-jobs"@[0] != "document-format-preferred"@[0]);
    assert("pages-per-minute-color"@[0] != "job-priority-supported"@[0]);
    sought_lengths();
    legible_none();
}

/// [`protocol_attrs`] can be read back, and the names that are sought stand there once or
/// not at all.
proof fn protocol_read()
    ensures
        legible_attrs(protocol_attrs()),
        unnamed(protocol_attrs(), "printer-device-id"@),
        unnamed(protocol_attrs(), "printer-uuid"@),
        unnamed(protocol_attrs(), "document-format-preferred"@),
        unnamed(protocol_attrs(), "job-priority-supported"@),
        unnamed(protocol_attrs(), "print-scaling-default"@),
        holds_once(
            protocol_attrs(),
            numbers_attr(TAG_ENUM, "operations-supported"@, operations_served()),
        ),
{
    reveal(protocol_attrs);
    reveal_strlit("ipp-versions-supported");
    reveal_strlit("ipp-features-supported");
    reveal_strlit("printer-get-attributes-supported");
    reveal_strlit("operations-supported");
    reveal_strlit("charset-configured");
    reveal_strlit("charset-supported");
    reveal_strlit("natural-language-configured");
    reveal_strlit("generated-natural-language-supported");
    reveal_strlit("1.1");
    reveal_strlit("2.0");
    reveal_strlit("ipp-everywhere");
    reveal_strlit("document-format");
    reveal_strlit("utf-8");
    reveal_strlit("en");
    reveal_strlit("printer-device-id");
    reveal_strlit("job-priority-supported");
    assert("ipp-versions-supported"@[0] != "job-priority-supported"@[0]);
    assert("ipp-features-supported"@[0] != "job-priority-supported"@[0]);
    assert("charset-supported"@[0] != "printer-device-id"@[0]);
    sought_lengths();
    legible_none();
}

/// [`document_attrs`] can be read back, and the names that are sought stand there once or
/// not at all.
proof fn document_read()
    ensures
        legible_attrs(document_attrs()),
        unnamed(document_attrs(), "printer-device-id"@),
        unnamed(document_attrs(), "printer-uuid"@),
        holds_once(
            document_attrs(),
            string_attr(TAG_MIME, "document-format-preferred"@, "application/pdf"@),
        ),
        unnamed(document_attrs(), "job-priority-supported"@),
        unnamed(document_attrs(), "print-scaling-default"@),
        unnamed(document_attrs(), "operations-supported"@),
{
    reveal(document_attrs);
    reveal_strlit("document-format-default");
    reveal_strlit("document-format-preferred");
    reveal_strlit("document-format-supported");
    reveal_strlit("compression-supported");
    reveal_strlit("pdl-override-supported");
    reveal_strlit("multiple-document-jobs-supported");
    reveal_strlit("job-ids-supported");
    reveal_strlit("which-jobs-supported");
    reveal_strlit("job-creation-attributes-supported");
    reveal_strlit("application/octet-stream");
    reveal_strlit("application/pdf");
    reveal_strlit("application/postscript");
    reveal_strlit("application/vnd.hp-pcl");
    reveal_strlit("image/jpeg");
    reveal_strlit("image/pwg-raster");
    reveal_strlit("image/urf");
    reveal_strlit("text/plain");
    reveal_strlit("none");
    reveal_strlit("not-attempted");
    reveal_strlit("completed");
    reveal_strlit("not-completed");
    reveal_strlit("aborted");
    reveal_strlit("all");
    reveal_strlit("canceled");
    reveal_strlit("pending");
    reveal_strlit("pending-held");
    reveal_strlit("processing");
    reveal_strlit("processing-stopped");
    reveal_strlit("copies");
    reveal_strlit("document-format");
    reveal_strlit("job-name");
    reveal_strlit("media");
    reveal_strlit("media-col");
    reveal_strlit("orientation-requested");
    reveal_strlit("page-ranges");
    reveal_strlit("print-color-mode");
    reveal_strlit("print-quality");
    reveal_strlit("printer-resolution");
    reveal_strlit("requesting-user-name");
    reveal_strlit("sides");
    reveal_strlit("printer-device-id");
    reveal_strlit("job-priority-supported");
    reveal_strlit("print-scaling-default");
    assert("document-format-supported"@[16] != "document-format-preferred"@[16]);
    assert("compression-supported"@[0] != "print-scaling-default"@[0]);
    assert("pdl-override-supported"@[0] != "job-priority-supported"@[0]);
    assert("job-ids-supported"@[0] != "printer-device-id"@[0]);
    reveal_strlit("operations-supported");
    assert("which-jobs-supported"@[0] != "operations-supported"@[0]);
    sought_lengths();
    legible_none();
}

/// [`limit_attrs`] can be read back, and the names that are sought stand there once or
/// not at all.
proof fn limit_read()
    ensures
        legible_attrs(limit_attrs()),
        unnamed(limit_attrs(), "printer-device-id"@),
        unnamed(limit_attrs(), "printer-uuid"@),
        unnamed(limit_attrs(), "document-format-preferred"@),
        holds_once(
            limit_attrs(),
            number_attr(TAG_INTEGER, "job-priority-supported"@, 100),
        ),
        unnamed(limit_attrs(), "print-scaling-default"@),
        unnamed(limit_attrs(), "operations-supported"@),
{
    reveal(limit_attrs);
    reveal_strlit("copies-default");
    reveal_strlit("copies-supported");
    reveal_strlit("job-priority-default");
    reveal_strlit("job-priority-supported");
    reveal_strlit("job-k-octets-supported");
    reveal_strlit("finishings-default");
    reveal_strlit("finishings-supported");
    assert("job-k-octets-supported"@[4] != "job-priority-supported"@[4]);
    reveal_strlit("operations-supported");
    assert("job-priority-default"@[0] != "operations-supported"@[0]);
    assert("finishings-supported"@[0] != "operations-supported"@[0]);
    sought_lengths();
    legible_none();
}

/// [`media_attrs`] can be read back, and the names that are sought stand there once or
/// not at all.
proof fn media_read()
    ensures
        legible_attrs(media_attrs()),
        unnamed(media_attrs(), "printer-device-id"@),
        unnamed(media_attrs(), "printer-uuid"@),
        unnamed(media_attrs(), "document-format-preferred"@),
        unnamed(media_attrs(), "job-priority-supported"@),
        unnamed(media_attrs(), "print-scaling-default"@),
        unnamed(media_attrs(), "operations-supported"@),
{
    reveal(media_attrs);
    reveal_strlit("media-default");
    reveal_strlit("media-supported");
    reveal_strlit("media-ready");
    reveal_strlit("media-col-supported");
    reveal_strlit("media-source-default");
    reveal_strlit("media-source-supported");
    reveal_strlit("media-type-default");
    reveal_strlit("media-type-supported");
    reveal_strlit("sides-default");
    reveal_strlit("sides-supported");
    reveal_strlit("iso_a4_210x297mm");
    reveal_strlit("na_letter_8.5x11in");
    reveal_strlit("media-size");
    reveal_strlit("media-source");
    reveal_strlit("media-type");
    reveal_strlit("auto");
    reveal_strlit("stationery");
    reveal_strlit("one-sided");
    reveal_strlit("two-sided-long-edge");
    reveal_strlit("two-sided-short-edge");
    reveal_strlit("job-priority-supported");
    assert("media-source-supported"@[0] != "job-priority-supported"@[0]);
    reveal_strlit("operations-supported");
    assert("media-source-default"@[0] != "operations-supported"@[0]);
    assert("media-type-supported"@[0] != "operations-supported"@[0]);
    sought_lengths();
    legible_none();
}

/// [`rendering_attrs`] can be read back, and the names that are sought stand there once or
/// not at all.
proof fn rendering_read()
    ensures
        legible_attrs(rendering_attrs()),
        unnamed(rendering_attrs(), "printer-device-id"@),
        unnamed(rendering_attrs(), "printer-uuid"@),
        unnamed(rendering_attrs(), "document-format-preferred"@),
        unnamed(rendering_attrs(), "job-priority-supported"@),
        holds_once(
            rendering_attrs(),
            string_attr(TAG_KEYWORD, "print-scaling-default"@, "auto"@),
        ),
        unnamed(rendering_attrs(), "operations-supported"@),
{
    reveal(rendering_attrs);
    reveal_strlit("orientation-requested-default");
    reveal_strlit("orientation-requested-supported");
    reveal_strlit("print-quality-default");
    reveal_strlit("print-quality-supported");
    reveal_strlit("print-color-mode-default");
    reveal_strlit("print-color-mode-supported");
    reveal_strlit("print-scaling-supported");
    reveal_strlit("print-scaling-default");
    reveal_strlit("print-content-optimize-default");
    reveal_strlit("print-content-optimize-supported");
    reveal_strlit("color");
    reveal_strlit("monochrome");
    reveal_strlit("auto");
    reveal_strlit("auto-fit");
    reveal_strlit("fill");
    reveal_strlit("fit");
    reveal_strlit("none");
    reveal_strlit("graphic");
    reveal_strlit("photo");
    reveal_strlit("text");
    reveal_strlit("text-and-graphic");
    assert("print-quality-default"@[6] != "print-scaling-default"@[6]);
    sought_lengths();
    legible_none();
}

/// [`raster_attrs`] can be read back, and the names that are sought stand there once or
/// not at all.
proof fn raster_read()
    ensures
        legible_attrs(raster_attrs()),
        unnamed(raster_attrs(), "printer-device-id"@),
        unnamed(raster_attrs(), "printer-uuid"@),
        unnamed(raster_attrs(), "document-format-preferred"@),
        unnamed(raster_attrs(), "job-priority-supported"@),
        unnamed(raster_attrs(), "print-scaling-default"@),
        unnamed(raster_attrs(), "operations-supported"@),
{
    reveal(raster_attrs);
    reveal_strlit("printer-resolution-default");
    reveal_strlit("printer-resolution-supported");
    reveal_strlit("pwg-raster-document-resolution-supported");
    reveal_strlit("pwg-raster-document-type-supported");
    reveal_strlit("urf-supported");
    reveal_strlit("page-ranges-supported");
    reveal_strlit("number-up-default");
    reveal_strlit("number-up-supported");
    reveal_strlit("output-bin-default");
    reveal_strlit("output-bin-supported");
    reveal_strlit("black_1");
    reveal_strlit("sgray_8");
    reveal_strlit("srgb_8");
    reveal_strlit("CP1");
    reveal_strlit("IS1");
    reveal_strlit("MT1-2-3-4-5");
    reveal_strlit("RS300-600");
    reveal_strlit("SRGB24");
    reveal_strlit("W8");
    reveal_strlit("face-down");
    reveal_strlit("printer-device-id");
    reveal_strlit("print-scaling-default");
    assert("page-ranges-supported"@[1] != "print-scaling-default"@[1]);
    assert("number-up-default"@[0] != "printer-device-id"@[0]);
    reveal_strlit("operations-supported");
    assert("output-bin-supported"@[1] != "operations-supported"@[1]);
    sought_lengths();
    legible_none();
}

// All sections --------------------------------------------------------------

/// All that the printer says of itself can be read back, and has each of the
/// attributes below once.
proof fn printer_attrs_read(ipp_port: u16)
    ensures
        legible_attrs(printer_attrs(ipp_port)),
        holds_once(
            printer_attrs(ipp_port),
            string_attr(TAG_TEXT, "printer-device-id"@, PRINTER_DEVICE_ID@),
        ),
        holds_once(
            printer_attrs(ipp_port),
            string_attr(TAG_URI, "printer-uuid"@, PRINTER_UUID@),
        ),
        holds_once(
            printer_attrs(ipp_port),
            string_attr(TAG_MIME, "document-format-preferred"@, "application/pdf"@),
        ),
        holds_once(
            printer_attrs(ipp_port),
            number_attr(TAG_INTEGER, "job-priority-supported"@, 100),
        ),
        holds_once(
            printer_attrs(ipp_port),
            string_attr(TAG_KEYWORD, "print-scaling-default"@, "auto"@),
        ),
        holds_once(
            printer_attrs(ipp_port),
            numbers_attr(TAG_ENUM, "operations-supported"@, operations_served()),
        ),
{
    let uri = printer_uri(ipp_port);
    printer_uri_fits(ipp_port);
    identity_read(uri);
    state_read();
    protocol_read();
    document_read();
    limit_read();
    media_read();
    rendering_read();
    raster_read();
}

/// All that the printer says of itself can be read back.
pub proof fn printer_attrs_legible(ipp_port: u16)
    ensures
        legible_attrs(printer_attrs(ipp_port)),
{
    printer_attrs_read(ipp_port);
}

/// Whatever asks, and on whatever port: the answer about the printer can be
/// read, with all that the printer says of itself; it echoes the version and the
/// number of the request, and gives the same identity each time, with the
/// preferred format, the priorities and the scaling that go with it.
pub proof fn printer_identity_is_stable(request: RequestView, ipp_port: u16)
    ensures
        ({
            let m = printer_message(request, ipp_port);
            &&& parse_request(encode_message(m)) matches Ok(answer)
            &&& answer.version == request.version
            &&& answer.request_id == request.request_id
            &&& answer.operation == m.code
            &&& answer.attributes == gathered(m.groups)
            &&& answer.document_offset == encode_message(m).len()
            &&& string_of(answer.attributes, "printer-device-id"@) == Some(PRINTER_DEVICE_ID@)
            &&& answer.attributes["printer-device-id"@].tag == TAG_TEXT
            &&& string_of(answer.attributes, "printer-uuid"@) == Some(PRINTER_UUID@)
            &&& string_of(answer.attributes, "document-format-preferred"@) == Some(
                "application/pdf"@,
            )
            &&& integer_of(answer.attributes, "job-priority-supported"@) == Some(100i32)
            &&& string_of(answer.attributes, "print-scaling-default"@) == Some("auto"@)
        }),
{
    let m = printer_message(request, ipp_port);
    printer_attrs_read(ipp_port);
    operation_attrs_legible();
    assert(legible(m));
    message_round_trip(m, Seq::empty());
    assert(encode_message(m) + Seq::empty() =~= encode_message(m));
    reveal_strlit("attributes-charset");
    reveal_strlit("attributes-natural-language");
    reveal_strlit("printer-device-id");
    reveal_strlit("printer-uuid");
    reveal_strlit("document-format-preferred");
    reveal_strlit("job-priority-supported");
    reveal_strlit("print-scaling-default");
    second_group_read(m, string_attr(TAG_TEXT, "printer-device-id"@, PRINTER_DEVICE_ID@));
    second_group_read(m, string_attr(TAG_URI, "printer-uuid"@, PRINTER_UUID@));
    second_group_read(
        m,
        string_attr(TAG_MIME, "document-format-preferred"@, "application/pdf"@),
    );
    second_group_read(m, number_attr(TAG_INTEGER, "job-priority-supported"@, 100));
    second_group_read(m, string_attr(TAG_KEYWORD, "print-scaling-default"@, "auto"@));
    let read = parse_request(encode_message(m))->Ok_0.attributes;
    text_read(read, TAG_TEXT, "printer-device-id"@, PRINTER_DEVICE_ID@);
    text_read(read, TAG_URI, "printer-uuid"@, PRINTER_UUID@);
    text_read(read, TAG_MIME, "document-format-preferred"@, "application/pdf"@);
    number_read(read, TAG_INTEGER, "job-priority-supported"@, 100);
    text_read(read, TAG_KEYWORD, "print-scaling-default"@, "auto"@);
}

/// The operations that the printer lists are those that are offered, each and no
/// other.
pub proof fn printer_lists_what_is_offered(request: RequestView, ipp_port: u16, operation: u16)
    ensures
        ({
            &&& parse_request(encode_message(printer_message(request, ipp_port))) matches Ok(answer)
            &&& answer.attributes.contains_key("operations-supported"@)
            &&& answer.attributes["operations-supported"@].values.contains(
                be32(bits_of(operation as i32)),
            ) <==> offered(operation)
        }),
{
    let m = printer_message(request, ipp_port);
    let attr = numbers_attr(TAG_ENUM, "operations-supported"@, operations_served());
    let served = operations_served();
    let sought = be32(bits_of(operation as i32));
    printer_attrs_read(ipp_port);
    operation_attrs_legible();
    assert(legible(m));
    sought_lengths();
    reveal_strlit("attributes-charset");
    reveal_strlit("attributes-natural-language");
    assert("attributes-charset"@.len() == 18);
    assert("attributes-natural-language"@.len() == 27);
    second_group_read(m, attr);
    be32_round_trip(bits_of(operation as i32));
    if attr.values.contains(sought) {
        let i = choose|i: int| 0 <= i < attr.values.len() && attr.values[i] == sought;
        be32_round_trip(bits_of(served[i]));
        assert(served[i] == operation);
    }
    if offered(operation) {
        let i: int = if operation == OP_PRINT_JOB {
            0
        } else if operation == OP_VALIDATE_JOB {
            1
        } else if operation == OP_CREATE_JOB {
            2
        } else if operation == OP_SEND_DOCUMENT {
            3
        } else if operation == OP_CANCEL_JOB {
            4
        } else if operation == OP_GET_JOB_ATTRIBUTES {
            5
        } else if operation == OP_GET_JOBS {
            6
        } else {
            7
        };
        assert(served[i] == operation);
        assert(attr.values[i] == sought);
    }
}

/// The port changes nothing that the printer says of itself but its address.
pub proof fn port_changes_only_the_address(ipp_port: u16, other: u16)
    ensures
        printer_attrs(ipp_port).len() == printer_attrs(other).len(),
        printer_attrs(ipp_port)[0] == string_attr(
            TAG_URI,
            "printer-uri-supported"@,
            printer_uri(ipp_port),
        ),
        forall|k: int|
            0 < k < printer_attrs(ipp_port).len() ==> #[trigger] printer_attrs(ipp_port)[k]
                == printer_attrs(other)[k],
{
    reveal(identity_attrs);
}

} // verus!
