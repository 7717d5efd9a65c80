//! What the printer says of itself.

use super::encoder::{
    boolean_attr, number_attr, numbers_attr, operation_attrs, range_attr, resolutions_attr,
    spelled, spells_known, spells_none, spells_push, spells_run, string_attr,
    strings_attr, IppEncoder,
};
use super::message::{
    encode_attrs, encode_message, encode_two_groups, Attr, Group, Message, GROUP_END, GROUP_OPERATION, GROUP_PRINTER,
    MAX_IPP_BODY_BYTES, OP_CANCEL_JOB, OP_CREATE_JOB, OP_GET_JOBS, OP_GET_JOB_ATTRIBUTES,
    OP_GET_PRINTER_ATTRIBUTES, OP_PRINT_JOB, OP_SEND_DOCUMENT, OP_VALIDATE_JOB,
    PRINTER_DEVICE_ID, PRINTER_UUID, STATUS_OK, TAG_CHARSET, TAG_ENUM, TAG_INTEGER, TAG_KEYWORD,
    TAG_MIME, TAG_NAME, TAG_NATURAL_LANGUAGE, TAG_TEXT, TAG_URI,
};
use super::request::{ParsedIppRequest, RequestView};
use crate::notation::{decimal, push_decimal};
use crate::text::owned;
use vstd::prelude::*;
use vstd::string::StringExecFns;

verus! {

/// Who the printer is.
#[verifier::opaque]
pub open spec fn identity_attrs(uri: Seq<char>) -> Seq<Attr> {
    Seq::empty()
        .push(string_attr(TAG_URI, "printer-uri-supported"@, uri))
        .push(strings_attr(TAG_KEYWORD, "uri-authentication-supported"@, ["none"]@))
        .push(strings_attr(TAG_KEYWORD, "uri-security-supported"@, ["none"]@))
        .push(string_attr(TAG_NAME, "printer-name"@, "Virtual Print Sink"@))
        .push(string_attr(TAG_TEXT, "printer-info"@, "Rust LPR/IPP file capture printer"@))
        .push(string_attr(TAG_TEXT, "printer-location"@, "localhost"@))
        .push(string_attr(TAG_TEXT, "printer-make-and-model"@, "OpenAI Virtual Print Sink 0.1"@))
        .push(string_attr(TAG_TEXT, "printer-device-id"@, PRINTER_DEVICE_ID@))
        .push(string_attr(TAG_URI, "printer-uuid"@, PRINTER_UUID@))
}

/// Writes [`identity_attrs`].
fn write_identity(encoder: &mut IppEncoder, uri: &str)
    requires
        old(encoder).started(),
    ensures
        final(encoder)@ == old(encoder)@ + encode_attrs(identity_attrs(uri@)),
        final(encoder).started(),
{
    broadcast use spells_push;

    let ghost front = encoder@;
    proof {
        spells_none(front);
    }
    encoder.attr_string(TAG_URI, "printer-uri-supported", uri);
    encoder.attr_strings(TAG_KEYWORD, "uri-authentication-supported", &["none"]);
    encoder.attr_strings(TAG_KEYWORD, "uri-security-supported", &["none"]);
    encoder.attr_string(TAG_NAME, "printer-name", "Virtual Print Sink");
    encoder.attr_string(TAG_TEXT, "printer-info", "Rust LPR/IPP file capture printer");
    encoder.attr_string(TAG_TEXT, "printer-location", "localhost");
    encoder.attr_string(TAG_TEXT, "printer-make-and-model", "OpenAI Virtual Print Sink 0.1");
    encoder.attr_string(TAG_TEXT, "printer-device-id", PRINTER_DEVICE_ID);
    encoder.attr_string(TAG_URI, "printer-uuid", PRINTER_UUID);
    proof {
        reveal(identity_attrs);
        spelled(encoder@, front, identity_attrs(uri@));
    }
}

/// How the printer is doing.
#[verifier::opaque]
pub open spec fn state_attrs() -> Seq<Attr> {
    Seq::empty()
        .push(number_attr(TAG_ENUM, "printer-state"@, 3))
        .push(strings_attr(TAG_KEYWORD, "printer-state-reasons"@, ["none"]@))
        .push(boolean_attr("printer-is-accepting-jobs"@, true))
        .push(number_attr(TAG_INTEGER, "queued-job-count"@, 0))
        .push(number_attr(TAG_INTEGER, "printer-config-change-time"@, 0))
        .push(number_attr(TAG_INTEGER, "printer-up-time"@, 0))
        .push(number_attr(TAG_INTEGER, "pages-per-minute"@, 1))
        .push(number_attr(TAG_INTEGER, "pages-per-minute-color"@, 1))
        .push(boolean_attr("color-supported"@, true))
}

/// Writes [`state_attrs`].
fn write_state(encoder: &mut IppEncoder)
    requires
        old(encoder).started(),
    ensures
        final(encoder)@ == old(encoder)@ + encode_attrs(state_attrs()),
        final(encoder).started(),
{
    broadcast use spells_push;

    let ghost front = encoder@;
    proof {
        spells_none(front);
    }
    encoder.attr_enum("printer-state", 3);
    encoder.attr_strings(TAG_KEYWORD, "printer-state-reasons", &["none"]);
    encoder.attr_boolean("printer-is-accepting-jobs", true);
    encoder.attr_integer("queued-job-count", 0);
    encoder.attr_integer("printer-config-change-time", 0);
    encoder.attr_integer("printer-up-time", 0);
    encoder.attr_integer("pages-per-minute", 1);
    encoder.attr_integer("pages-per-minute-color", 1);
    encoder.attr_boolean("color-supported", true);
    proof {
        reveal(state_attrs);
        spelled(encoder@, front, state_attrs());
    }
}

/// The operations that the printer offers.
pub open spec fn operations_served() -> Seq<i32> {
    [
        OP_PRINT_JOB as i32,
        OP_VALIDATE_JOB as i32,
        OP_CREATE_JOB as i32,
        OP_SEND_DOCUMENT as i32,
        OP_CANCEL_JOB as i32,
        OP_GET_JOB_ATTRIBUTES as i32,
        OP_GET_JOBS as i32,
        OP_GET_PRINTER_ATTRIBUTES as i32,
    ]@
}

/// What the printer speaks.
#[verifier::opaque]
pub open spec fn protocol_attrs() -> Seq<Attr> {
    Seq::empty()
        .push(strings_attr(TAG_KEYWORD, "ipp-versions-supported"@, ["1.1", "2.0"]@))
        .push(strings_attr(TAG_KEYWORD, "ipp-features-supported"@, ["ipp-everywhere"]@))
        .push(
            strings_attr(
                TAG_KEYWORD,
                "printer-get-attributes-supported"@,
                ["document-format"]@,
            ),
        )
        .push(numbers_attr(TAG_ENUM, "operations-supported"@, operations_served()))
        .push(string_attr(TAG_CHARSET, "charset-configured"@, "utf-8"@))
        .push(strings_attr(TAG_CHARSET, "charset-supported"@, ["utf-8"]@))
        .push(string_attr(TAG_NATURAL_LANGUAGE, "natural-language-configured"@, "en"@))
        .push(
            strings_attr(
                TAG_NATURAL_LANGUAGE,
                "generated-natural-language-supported"@,
                ["en"]@,
            ),
        )
}

/// Writes [`protocol_attrs`].
fn write_protocol(encoder: &mut IppEncoder)
    requires
        old(encoder).started(),
    ensures
        final(encoder)@ == old(encoder)@ + encode_attrs(protocol_attrs()),
        final(encoder).started(),
{
    broadcast use spells_push;

    let ghost front = encoder@;
    proof {
        spells_none(front);
    }
    encoder.attr_strings(TAG_KEYWORD, "ipp-versions-supported", &["1.1", "2.0"]);
    encoder.attr_strings(TAG_KEYWORD, "ipp-features-supported", &["ipp-everywhere"]);
    encoder.attr_strings(TAG_KEYWORD, "printer-get-attributes-supported", &["document-format"]);
    encoder.attr_enums(
        "operations-supported",
        &[
            OP_PRINT_JOB as i32,
            OP_VALIDATE_JOB as i32,
            OP_CREATE_JOB as i32,
            OP_SEND_DOCUMENT as i32,
            OP_CANCEL_JOB as i32,
            OP_GET_JOB_ATTRIBUTES as i32,
            OP_GET_JOBS as i32,
            OP_GET_PRINTER_ATTRIBUTES as i32,
        ],
    );
    encoder.attr_string(TAG_CHARSET, "charset-configured", "utf-8");
    encoder.attr_strings(TAG_CHARSET, "charset-supported", &["utf-8"]);
    encoder.attr_string(TAG_NATURAL_LANGUAGE, "natural-language-configured", "en");
    encoder.attr_strings(TAG_NATURAL_LANGUAGE, "generated-natural-language-supported", &["en"]);
    proof {
        reveal(protocol_attrs);
        spelled(encoder@, front, protocol_attrs());
    }
}

/// Which documents and which jobs the printer takes.
#[verifier::opaque]
pub open spec fn document_attrs() -> Seq<Attr> {
    Seq::empty()
        .push(string_attr(TAG_MIME, "document-format-default"@, "application/octet-stream"@))
        .push(string_attr(TAG_MIME, "document-format-preferred"@, "application/pdf"@))
        .push(
            strings_attr(
                TAG_MIME,
                "document-format-supported"@,
                [
                    "application/octet-stream",
                    "application/pdf",
                    "application/postscript",
                    "application/vnd.hp-pcl",
                    "image/jpeg",
                    "image/pwg-raster",
                    "image/urf",
                    "text/plain",
                ]@,
            ),
        )
        .push(strings_attr(TAG_KEYWORD, "compression-supported"@, ["none"]@))
        .push(string_attr(TAG_KEYWORD, "pdl-override-supported"@, "not-attempted"@))
        .push(boolean_attr("multiple-document-jobs-supported"@, false))
        .push(boolean_attr("job-ids-supported"@, true))
        .push(
            strings_attr(
                TAG_KEYWORD,
                "which-jobs-supported"@,
                [
                    "completed",
                    "not-completed",
                    "aborted",
                    "all",
                    "canceled",
                    "pending",
                    "pending-held",
                    "processing",
                    "processing-stopped",
                ]@,
            ),
        )
        .push(
            strings_attr(
                TAG_KEYWORD,
                "job-creation-attributes-supported"@,
                [
                    "copies",
                    "document-format",
                    "job-name",
                    "media",
                    "media-col",
                    "orientation-requested",
                    "page-ranges",
                    "print-color-mode",
                    "print-quality",
                    "printer-resolution",
                    "requesting-user-name",
                    "sides",
                ]@,
            ),
        )
}

/// Writes [`document_attrs`].
fn write_document(encoder: &mut IppEncoder)
    requires
        old(encoder).started(),
    ensures
        final(encoder)@ == old(encoder)@ + encode_attrs(document_attrs()),
        final(encoder).started(),
{
    broadcast use spells_push;

    let ghost front = encoder@;
    proof {
        spells_none(front);
    }
    encoder.attr_string(TAG_MIME, "document-format-default", "application/octet-stream");
    encoder.attr_string(TAG_MIME, "document-format-preferred", "application/pdf");
    encoder.attr_strings(
        TAG_MIME,
        "document-format-supported",
        &[
            "application/octet-stream",
            "application/pdf",
            "application/postscript",
            "application/vnd.hp-pcl",
            "image/jpeg",
            "image/pwg-raster",
            "image/urf",
            "text/plain",
        ],
    );
    encoder.attr_strings(TAG_KEYWORD, "compression-supported", &["none"]);
    encoder.attr_string(TAG_KEYWORD, "pdl-override-supported", "not-attempted");
    encoder.attr_boolean("multiple-document-jobs-supported", false);
    encoder.attr_boolean("job-ids-supported", true);
    encoder.attr_strings(
        TAG_KEYWORD,
        "which-jobs-supported",
        &[
            "completed",
            "not-completed",
            "aborted",
            "all",
            "canceled",
            "pending",
            "pending-held",
            "processing",
            "processing-stopped",
        ],
    );
    encoder.attr_strings(
        TAG_KEYWORD,
        "job-creation-attributes-supported",
        &[
            "copies",
            "document-format",
            "job-name",
            "media",
            "media-col",
            "orientation-requested",
            "page-ranges",
            "print-color-mode",
            "print-quality",
            "printer-resolution",
            "requesting-user-name",
            "sides",
        ],
    );
    proof {
        reveal(document_attrs);
        spelled(encoder@, front, document_attrs());
    }
}

/// How many copies and how much data the printer takes.
#[verifier::opaque]
pub open spec fn limit_attrs() -> Seq<Attr> {
    Seq::empty()
        .push(number_attr(TAG_INTEGER, "copies-default"@, 1))
        .push(range_attr("copies-supported"@, 1, 999))
        .push(number_attr(TAG_INTEGER, "job-priority-default"@, 50))
        .push(number_attr(TAG_INTEGER, "job-priority-supported"@, 100))
        .push(range_attr("job-k-octets-supported"@, 0, (MAX_IPP_BODY_BYTES / 1024) as i32))
        .push(number_attr(TAG_ENUM, "finishings-default"@, 3))
        .push(numbers_attr(TAG_ENUM, "finishings-supported"@, [3i32]@))
}

/// Writes [`limit_attrs`].
fn write_limit(encoder: &mut IppEncoder)
    requires
        old(encoder).started(),
    ensures
        final(encoder)@ == old(encoder)@ + encode_attrs(limit_attrs()),
        final(encoder).started(),
{
    broadcast use spells_push;

    let ghost front = encoder@;
    proof {
        spells_none(front);
    }
    encoder.attr_integer("copies-default", 1);
    encoder.attr_range("copies-supported", 1, 999);
    encoder.attr_integer("job-priority-default", 50);
    encoder.attr_integer("job-priority-supported", 100);
    encoder.attr_range("job-k-octets-supported", 0, (MAX_IPP_BODY_BYTES / 1024) as i32);
    encoder.attr_enum("finishings-default", 3);
    encoder.attr_enums("finishings-supported", &[3]);
    proof {
        reveal(limit_attrs);
        spelled(encoder@, front, limit_attrs());
    }
}

/// On what the printer prints.
#[verifier::opaque]
pub open spec fn media_attrs() -> Seq<Attr> {
    Seq::empty()
        .push(string_attr(TAG_KEYWORD, "media-default"@, "iso_a4_210x297mm"@))
        .push(
            strings_attr(
                TAG_KEYWORD,
                "media-supported"@,
                ["iso_a4_210x297mm", "na_letter_8.5x11in"]@,
            ),
        )
        .push(
            strings_attr(
                TAG_KEYWORD,
                "media-ready"@,
                ["iso_a4_210x297mm", "na_letter_8.5x11in"]@,
            ),
        )
        .push(
            strings_attr(
                TAG_KEYWORD,
                "media-col-supported"@,
                ["media-size", "media-source", "media-type"]@,
            ),
        )
        .push(string_attr(TAG_KEYWORD, "media-source-default"@, "auto"@))
        .push(strings_attr(TAG_KEYWORD, "media-source-supported"@, ["auto"]@))
        .push(string_attr(TAG_KEYWORD, "media-type-default"@, "stationery"@))
        .push(strings_attr(TAG_KEYWORD, "media-type-supported"@, ["stationery"]@))
        .push(string_attr(TAG_KEYWORD, "sides-default"@, "one-sided"@))
        .push(
            strings_attr(
                TAG_KEYWORD,
                "sides-supported"@,
                ["one-sided", "two-sided-long-edge", "two-sided-short-edge"]@,
            ),
        )
}

/// Writes [`media_attrs`].
fn write_media(encoder: &mut IppEncoder)
    requires
        old(encoder).started(),
    ensures
        final(encoder)@ == old(encoder)@ + encode_attrs(media_attrs()),
        final(encoder).started(),
{
    broadcast use spells_push;

    let ghost front = encoder@;
    proof {
        spells_none(front);
    }
    encoder.attr_string(TAG_KEYWORD, "media-default", "iso_a4_210x297mm");
    encoder.attr_strings(
        TAG_KEYWORD,
        "media-supported",
        &["iso_a4_210x297mm", "na_letter_8.5x11in"],
    );
    encoder.attr_strings(TAG_KEYWORD, "media-ready", &["iso_a4_210x297mm", "na_letter_8.5x11in"]);
    encoder.attr_strings(
        TAG_KEYWORD,
        "media-col-supported",
        &["media-size", "media-source", "media-type"],
    );
    encoder.attr_string(TAG_KEYWORD, "media-source-default", "auto");
    encoder.attr_strings(TAG_KEYWORD, "media-source-supported", &["auto"]);
    encoder.attr_string(TAG_KEYWORD, "media-type-default", "stationery");
    encoder.attr_strings(TAG_KEYWORD, "media-type-supported", &["stationery"]);
    encoder.attr_string(TAG_KEYWORD, "sides-default", "one-sided");
    encoder.attr_strings(
        TAG_KEYWORD,
        "sides-supported",
        &["one-sided", "two-sided-long-edge", "two-sided-short-edge"],
    );
    proof {
        reveal(media_attrs);
        spelled(encoder@, front, media_attrs());
    }
}

/// How the printer renders pages.
#[verifier::opaque]
pub open spec fn rendering_attrs() -> Seq<Attr> {
    Seq::empty()
        .push(number_attr(TAG_ENUM, "orientation-requested-default"@, 3))
        .push(numbers_attr(TAG_ENUM, "orientation-requested-supported"@, [3i32, 4, 5, 6]@))
        .push(number_attr(TAG_ENUM, "print-quality-default"@, 4))
        .push(numbers_attr(TAG_ENUM, "print-quality-supported"@, [3i32, 4, 5]@))
        .push(string_attr(TAG_KEYWORD, "print-color-mode-default"@, "color"@))
        .push(strings_attr(TAG_KEYWORD, "print-color-mode-supported"@, ["monochrome", "color"]@))
        .push(
            strings_attr(
                TAG_KEYWORD,
                "print-scaling-supported"@,
                ["auto", "auto-fit", "fill", "fit", "none"]@,
            ),
        )
        .push(string_attr(TAG_KEYWORD, "print-scaling-default"@, "auto"@))
        .push(string_attr(TAG_KEYWORD, "print-content-optimize-default"@, "auto"@))
        .push(
            strings_attr(
                TAG_KEYWORD,
                "print-content-optimize-supported"@,
                ["auto", "graphic", "photo", "text", "text-and-graphic"]@,
            ),
        )
}

/// Writes [`rendering_attrs`].
fn write_rendering(encoder: &mut IppEncoder)
    requires
        old(encoder).started(),
    ensures
        final(encoder)@ == old(encoder)@ + encode_attrs(rendering_attrs()),
        final(encoder).started(),
{
    broadcast use spells_push;

    let ghost front = encoder@;
    proof {
        spells_none(front);
    }
    encoder.attr_enum("orientation-requested-default", 3);
    encoder.attr_enums("orientation-requested-supported", &[3, 4, 5, 6]);
    encoder.attr_enum("print-quality-default", 4);
    encoder.attr_enums("print-quality-supported", &[3, 4, 5]);
    encoder.attr_string(TAG_KEYWORD, "print-color-mode-default", "color");
    encoder.attr_strings(TAG_KEYWORD, "print-color-mode-supported", &["monochrome", "color"]);
    encoder.attr_strings(
        TAG_KEYWORD,
        "print-scaling-supported",
        &["auto", "auto-fit", "fill", "fit", "none"],
    );
    encoder.attr_string(TAG_KEYWORD, "print-scaling-default", "auto");
    encoder.attr_string(TAG_KEYWORD, "print-content-optimize-default", "auto");
    encoder.attr_strings(
        TAG_KEYWORD,
        "print-content-optimize-supported",
        &["auto", "graphic", "photo", "text", "text-and-graphic"],
    );
    proof {
        reveal(rendering_attrs);
        spelled(encoder@, front, rendering_attrs());
    }
}

/// What the printer does with pages as pictures, and where they come out.
#[verifier::opaque]
pub open spec fn raster_attrs() -> Seq<Attr> {
    Seq::empty()
        .push(resolutions_attr("printer-resolution-default"@, seq![(600i32, 600i32, 3u8)]))
        .push(
            resolutions_attr(
                "printer-resolution-supported"@,
                [(300i32, 300i32, 3u8), (600i32, 600i32, 3u8)]@,
            ),
        )
        .push(
            resolutions_attr(
                "pwg-raster-document-resolution-supported"@,
                [(300i32, 300i32, 3u8), (600i32, 600i32, 3u8)]@,
            ),
        )
        .push(
            strings_attr(
                TAG_KEYWORD,
                "pwg-raster-document-type-supported"@,
                ["black_1", "sgray_8", "srgb_8"]@,
            ),
        )
        .push(
            strings_attr(
                TAG_KEYWORD,
                "urf-supported"@,
                ["CP1", "IS1", "MT1-2-3-4-5", "RS300-600", "SRGB24", "W8"]@,
            ),
        )
        .push(boolean_attr("page-ranges-supported"@, true))
        .push(number_attr(TAG_INTEGER, "number-up-default"@, 1))
        .push(numbers_attr(TAG_INTEGER, "number-up-supported"@, [1i32, 2, 4, 6, 9, 16]@))
        .push(string_attr(TAG_KEYWORD, "output-bin-default"@, "face-down"@))
        .push(strings_attr(TAG_KEYWORD, "output-bin-supported"@, ["face-down"]@))
}

/// Writes [`raster_attrs`].
fn write_raster(encoder: &mut IppEncoder)
    requires
        old(encoder).started(),
    ensures
        final(encoder)@ == old(encoder)@ + encode_attrs(raster_attrs()),
        final(encoder).started(),
{
    broadcast use spells_push;

    let ghost front = encoder@;
    proof {
        spells_none(front);
    }
    encoder.attr_resolution("printer-resolution-default", 600, 600, 3);
    encoder.attr_resolutions("printer-resolution-supported", &[(300, 300, 3), (600, 600, 3)]);
    encoder.attr_resolutions(
        "pwg-raster-document-resolution-supported",
        &[(300, 300, 3), (600, 600, 3)],
    );
    encoder.attr_strings(
        TAG_KEYWORD,
        "pwg-raster-document-type-supported",
        &["black_1", "sgray_8", "srgb_8"],
    );
    encoder.attr_strings(
        TAG_KEYWORD,
        "urf-supported",
        &["CP1", "IS1", "MT1-2-3-4-5", "RS300-600", "SRGB24", "W8"],
    );
    encoder.attr_boolean("page-ranges-supported", true);
    encoder.attr_integer("number-up-default", 1);
    encoder.attr_integers("number-up-supported", &[1, 2, 4, 6, 9, 16]);
    encoder.attr_string(TAG_KEYWORD, "output-bin-default", "face-down");
    encoder.attr_strings(TAG_KEYWORD, "output-bin-supported", &["face-down"]);
    proof {
        reveal(raster_attrs);
        spelled(encoder@, front, raster_attrs());
    }
}

/// The address under which the printer is reached.
pub open spec fn printer_uri(ipp_port: u16) -> Seq<char> {
    "ipp://127.0.0.1:"@ + decimal(ipp_port as nat) + "/printers/virtual"@
}

/// All that the printer says of itself.
pub open spec fn printer_attrs(ipp_port: u16) -> Seq<Attr> {
    identity_attrs(printer_uri(ipp_port)) + state_attrs() + protocol_attrs() + document_attrs()
        + limit_attrs() + media_attrs() + rendering_attrs() + raster_attrs()
}

/// The answer to a request for the printer's attributes.
pub open spec fn printer_message(request: RequestView, ipp_port: u16) -> Message {
    Message {
        version: request.version,
        code: STATUS_OK,
        request_id: request.request_id,
        groups: seq![
            Group { tag: GROUP_OPERATION, attrs: operation_attrs() },
            Group { tag: GROUP_PRINTER, attrs: printer_attrs(ipp_port) },
        ],
    }
}

/// The address under which the printer is reached.
pub fn printer_uri_text(ipp_port: u16) -> (uri: String)
    ensures
        uri@ == printer_uri(ipp_port),
{
    let mut uri = owned("ipp://127.0.0.1:");
    push_decimal(&mut uri, ipp_port as u64);
    uri.append("/printers/virtual");
    uri
}

/// Answers a request for the printer's attributes.
pub fn printer_attributes_response(request: &ParsedIppRequest, ipp_port: u16) -> (bytes: Vec<u8>)
    ensures
        bytes@ == encode_message(printer_message(request@, ipp_port)),
{
    broadcast use spells_run;

    let uri = printer_uri_text(ipp_port);
    let mut encoder = IppEncoder::new(request.version(), STATUS_OK, request.request_id);
    encoder.operation_defaults();
    let ghost head = encoder@;
    encoder.begin_group(GROUP_PRINTER);
    let ghost front = encoder@;
    write_identity(&mut encoder, uri.as_str());
    proof {
        spells_known(front, identity_attrs(uri@));
    }
    write_state(&mut encoder);
    write_protocol(&mut encoder);
    write_document(&mut encoder);
    write_limit(&mut encoder);
    write_media(&mut encoder);
    write_rendering(&mut encoder);
    write_raster(&mut encoder);
    let ghost attrs = printer_attrs(ipp_port);
    let ghost bytes = encoder@;
    proof {
        spelled(encoder@, front, attrs);
        encode_two_groups(printer_message(request@, ipp_port));
        assert(bytes.push(GROUP_END) =~= head + (seq![GROUP_PRINTER] + encode_attrs(attrs))
            + seq![GROUP_END]);
    }
    encoder.finish()
}

} // verus!
