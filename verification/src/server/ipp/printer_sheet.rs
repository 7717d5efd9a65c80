//! All that the printer says of itself, as a client reads it.

use super::answers::operation_attrs_legible;
use super::encoder::operation_attrs;
use super::jobs::{handled, ActionView, StateView};
use super::message::{encode_message, Attr};
use super::printer::{
    document_attrs, identity_attrs, limit_attrs, media_attrs, printer_attrs, printer_message,
    printer_uri, protocol_attrs, raster_attrs, rendering_attrs, state_attrs,
};
use super::printer_answer::printer_attrs_legible;
use super::request::{parse_request, AttributeView, Attributes, RequestView};
use super::round_trip::{attribute_round_trip, legible, message_round_trip, named_once};
use crate::notation::decimal;
use crate::text::{lossy_text, lossy_text_of_encoded};
use vstd::prelude::*;
use vstd::utf8::encode_utf8;

verus! {

// Reading -------------------------------------------------------------------

/// Whether an attribute of the printer is there, with a tag.
pub open spec fn is_said(attributes: Attributes, name: Seq<char>, tag: u8) -> bool {
    &&& attributes.contains_key(name)
    &&& attributes[name].group == 0x04
    &&& attributes[name].tag == tag
}

/// Whether the printer says texts.
pub open spec fn says_texts(
    attributes: Attributes,
    name: Seq<char>,
    tag: u8,
    texts: Seq<Seq<char>>,
) -> bool {
    let values = attributes[name].values;
    &&& is_said(attributes, name, tag)
    &&& values.len() == texts.len()
    &&& forall|i: int| 0 <= i < values.len() ==> lossy_text(#[trigger] values[i]) == texts[i]
}

/// Whether the printer says one text.
pub open spec fn says_text(attributes: Attributes, name: Seq<char>, tag: u8, text: Seq<char>) -> bool {
    let values = attributes[name].values;
    &&& is_said(attributes, name, tag)
    &&& values.len() == 1
    &&& lossy_text(values[0]) == text
}

/// The number that four bytes write, most significant first.
pub open spec fn number_at(bytes: Seq<u8>, from: int) -> int {
    bytes[from] * 0x100_0000 + bytes[from + 1] * 0x1_0000 + bytes[from + 2] * 0x100 + bytes[from
        + 3]
}

/// Whether the printer says numbers, of four bytes each.
pub open spec fn says_numbers(
    attributes: Attributes,
    name: Seq<char>,
    tag: u8,
    numbers: Seq<int>,
) -> bool {
    let values = attributes[name].values;
    &&& is_said(attributes, name, tag)
    &&& values.len() == numbers.len()
    &&& forall|i: int|
        0 <= i < values.len() ==> (#[trigger] values[i]).len() == 4 && number_at(values[i], 0)
            == numbers[i]
}

/// Whether the printer says yes or no, in one byte.
pub open spec fn says_truth(attributes: Attributes, name: Seq<char>, truth: bool) -> bool {
    let values = attributes[name].values;
    &&& is_said(attributes, name, 0x22)
    &&& values.len() == 1
    &&& values[0].len() == 1
    &&& values[0][0] == if truth {
        1
    } else {
        0int
    }
}

/// Whether the printer says a range, of four bytes for each end.
pub open spec fn says_range(attributes: Attributes, name: Seq<char>, min: int, max: int) -> bool {
    let values = attributes[name].values;
    &&& is_said(attributes, name, 0x33)
    &&& values.len() == 1
    &&& values[0].len() == 8
    &&& number_at(values[0], 0) == min
    &&& number_at(values[0], 4) == max
}

/// Whether the printer says resolutions, of nine bytes each: across, along, and
/// the unit.
pub open spec fn says_resolutions(
    attributes: Attributes,
    name: Seq<char>,
    resolutions: Seq<(int, int, int)>,
) -> bool {
    let values = attributes[name].values;
    &&& is_said(attributes, name, 0x32)
    &&& values.len() == resolutions.len()
    &&& forall|i: int|
        0 <= i < values.len() ==> {
            &&& (#[trigger] values[i]).len() == 9
            &&& number_at(values[i], 0) == resolutions[i].0
            &&& number_at(values[i], 4) == resolutions[i].1
            &&& values[i][8] == resolutions[i].2
        }
}

// Every attribute is read ---------------------------------------------------

/// A number by which the names of the printer's attributes differ.
spec fn name_key(name: Seq<char>) -> int {
    name.len() * 0x20_0000 + (name[0] as u32) * 0x4000 + (name[6] as u32) * 0x80 + (name[name.len()
        - 3] as u32)
}

/// The place of an attribute by its name.
#[verifier::opaque]
spec fn name_place(name: Seq<char>) -> int {
    let key = name_key(name);
    if key == 45889908 {
        0
    } else if key == 60652148 {
        1
    } else if key == 48067060 {
        2
    } else if key == 27015521 {
        3
    } else if key == 27015534 {
        4
    } else if key == 35404137 {
        5
    } else if key == 47987044 {
        6
    } else if key == 37501229 {
        7
    } else if key == 27015541 {
        8
    } else if key == 29112673 {
        9
    } else if key == 45889903 {
        10
    } else if key == 54278511 {
        11
    } else if key == 35411701 {
        12
    } else if key == 56375657 {
        13
    } else if key == 33306985 {
        14
    } else if key == 35403893 {
        15
    } else if key == 47986796 {
        16
    } else if key == 33094132 {
        17
    } else if key == 47872372 {
        18
    } else if key == 47870196 {
        19
    } else if key == 68958580 {
        20
    } else if key == 43775220 {
        21
    } else if key == 39385714 {
        22
    } else if key == 37288564 {
        23
    } else if key == 58439282 {
        24
    } else if key == 77199988 {
        25
    } else if key == 49887093 {
        26
    } else if key == 54081394 {
        27
    } else if key == 54081396 {
        28
    } else if key == 45677044 {
        29
    } else if key == 47985396 {
        30
    } else if key == 68908660 {
        31
    } else if key == 37403124 {
        32
    } else if key == 43906420 {
        33
    } else if key == 70955764 {
        34
    } else if key == 30988021 {
        35
    } else if key == 35182324 {
        36
    } else if key == 43693301 {
        37
    } else if key == 47887604 {
        38
    } else if key == 47888372 {
        39
    } else if key == 39433461 {
        40
    } else if key == 43627764 {
        41
    } else if key == 29061749 {
        42
    } else if key == 33257972 {
        43
    } else if key == 24869217 {
        44
    } else if key == 41644532 {
        45
    } else if key == 43743733 {
        46
    } else if key == 47938036 {
        47
    } else if key == 39549557 {
        48
    } else if key == 43743860 {
        49
    } else if key == 29160053 {
        50
    } else if key == 33356276 {
        51
    } else if key == 62648565 {
        52
    } else if key == 66842868 {
        53
    } else if key == 45889781 {
        54
    } else if key == 50084084 {
        55
    } else if key == 52179445 {
        56
    } else if key == 56373748 {
        57
    } else if key == 50084340 {
        58
    } else if key == 45890037 {
        59
    } else if key == 64762357 {
        60
    } else if key == 68956660 {
        61
    } else if key == 56375669 {
        62
    } else if key == 60569972 {
        63
    } else if key == 85735924 {
        64
    } else if key == 73153012 {
        65
    } else if key == 29194356 {
        66
    } else if key == 45887732 {
        67
    } else if key == 37459701 {
        68
    } else if key == 41654004 {
        69
    } else if key == 39573237 {
        70
    } else if key == 43767540 {
        71
    } else if key == 39353075 {
        72
    } else if key == 58227425 {
        73
    } else {
        -1
    }
}

/// Whether attributes stand at their places, from a place on.
spec fn in_place(attrs: Seq<Attr>, from: int) -> bool {
    forall|j: int| 0 <= j < attrs.len() ==> name_place((#[trigger] attrs[j]).name) == from + j
}

/// The attributes of [`identity_attrs`] stand at their places.
proof fn identity_in_place(uri: Seq<char>)
    ensures
        identity_attrs(uri).len() == 9,
        in_place(identity_attrs(uri), 0),
{
    reveal(identity_attrs);
    reveal(name_place);
    let attrs = identity_attrs(uri);
    assert(name_place(attrs[0].name) == 0) by {
        reveal_strlit("printer-uri-supported");
        assert(attrs[0].name == "printer-uri-supported"@);
        assert(name_key("printer-uri-supported"@) == 45889908);
    }
    assert(name_place(attrs[1].name) == 1) by {
        reveal_strlit("uri-authentication-supported");
        assert(attrs[1].name == "uri-authentication-supported"@);
        assert(name_key("uri-authentication-supported"@) == 60652148);
    }
    assert(name_place(attrs[2].name) == 2) by {
        reveal_strlit("uri-security-supported");
        assert(attrs[2].name == "uri-security-supported"@);
        assert(name_key("uri-security-supported"@) == 48067060);
    }
    assert(name_place(attrs[3].name) == 3) by {
        reveal_strlit("printer-name");
        assert(attrs[3].name == "printer-name"@);
        assert(name_key("printer-name"@) == 27015521);
    }
    assert(name_place(attrs[4].name) == 4) by {
        reveal_strlit("printer-info");
        assert(attrs[4].name == "printer-info"@);
        assert(name_key("printer-info"@) == 27015534);
    }
    assert(name_place(attrs[5].name) == 5) by {
        reveal_strlit("printer-location");
        assert(attrs[5].name == "printer-location"@);
        assert(name_key("printer-location"@) == 35404137);
    }
    assert(name_place(attrs[6].name) == 6) by {
        reveal_strlit("printer-make-and-model");
        assert(attrs[6].name == "printer-make-and-model"@);
        assert(name_key("printer-make-and-model"@) == 47987044);
    }
    assert(name_place(attrs[7].name) == 7) by {
        reveal_strlit("printer-device-id");
        assert(attrs[7].name == "printer-device-id"@);
        assert(name_key("printer-device-id"@) == 37501229);
    }
    assert(name_place(attrs[8].name) == 8) by {
        reveal_strlit("printer-uuid");
        assert(attrs[8].name == "printer-uuid"@);
        assert(name_key("printer-uuid"@) == 27015541);
    }
}

/// The attributes of [`state_attrs`] stand at their places.
proof fn state_in_place()
    ensures
        state_attrs().len() == 9,
        in_place(state_attrs(), 9),
{
    reveal(state_attrs);
    reveal(name_place);
    let attrs = state_attrs();
    assert(name_place(attrs[0].name) == 9) by {
        reveal_strlit("printer-state");
        assert(attrs[0].name == "printer-state"@);
        assert(name_key("printer-state"@) == 29112673);
    }
    assert(name_place(attrs[1].name) == 10) by {
        reveal_strlit("printer-state-reasons");
        assert(attrs[1].name == "printer-state-reasons"@);
        assert(name_key("printer-state-reasons"@) == 45889903);
    }
    assert(name_place(attrs[2].name) == 11) by {
        reveal_strlit("printer-is-accepting-jobs");
        assert(attrs[2].name == "printer-is-accepting-jobs"@);
        assert(name_key("printer-is-accepting-jobs"@) == 54278511);
    }
    assert(name_place(attrs[3].name) == 12) by {
        reveal_strlit("queued-job-count");
        assert(attrs[3].name == "queued-job-count"@);
        assert(name_key("queued-job-count"@) == 35411701);
    }
    assert(name_place(attrs[4].name) == 13) by {
        reveal_strlit("printer-config-change-time");
        assert(attrs[4].name == "printer-config-change-time"@);
        assert(name_key("printer-config-change-time"@) == 56375657);
    }
    assert(name_place(attrs[5].name) == 14) by {
        reveal_strlit("printer-up-time");
        assert(attrs[5].name == "printer-up-time"@);
        assert(name_key("printer-up-time"@) == 33306985);
    }
    assert(name_place(attrs[6].name) == 15) by {
        reveal_strlit("pages-per-minute");
        assert(attrs[6].name == "pages-per-minute"@);
        assert(name_key("pages-per-minute"@) == 35403893);
    }
    assert(name_place(attrs[7].name) == 16) by {
        reveal_strlit("pages-per-minute-color");
        assert(attrs[7].name == "pages-per-minute-color"@);
        assert(name_key("pages-per-minute-color"@) == 47986796);
    }
    assert(name_place(attrs[8].name) == 17) by {
        reveal_strlit("color-supported");
        assert(attrs[8].name == "color-supported"@);
        assert(name_key("color-supported"@) == 33094132);
    }
}

/// The attributes of [`protocol_attrs`] stand at their places.
proof fn protocol_in_place()
    ensures
        protocol_attrs().len() == 8,
        in_place(protocol_attrs(), 18),
{
    reveal(protocol_attrs);
    reveal(name_place);
    let attrs = protocol_attrs();
    assert(name_place(attrs[0].name) == 18) by {
        reveal_strlit("ipp-versions-supported");
        assert(attrs[0].name == "ipp-versions-supported"@);
        assert(name_key("ipp-versions-supported"@) == 47872372);
    }
    assert(name_place(attrs[1].name) == 19) by {
        reveal_strlit("ipp-features-supported");
        assert(attrs[1].name == "ipp-features-supported"@);
        assert(name_key("ipp-features-supported"@) == 47870196);
    }
    assert(name_place(attrs[2].name) == 20) by {
        reveal_strlit("printer-get-attributes-supported");
        assert(attrs[2].name == "printer-get-attributes-supported"@);
        assert(name_key("printer-get-attributes-supported"@) == 68958580);
    }
    assert(name_place(attrs[3].name) == 21) by {
        reveal_strlit("operations-supported");
        assert(attrs[3].name == "operations-supported"@);
        assert(name_key("operations-supported"@) == 43775220);
    }
    assert(name_place(attrs[4].name) == 22) by {
        reveal_strlit("charset-configured");
        assert(attrs[4].name == "charset-configured"@);
        assert(name_key("charset-configured"@) == 39385714);
    }
    assert(name_place(attrs[5].name) == 23) by {
        reveal_strlit("charset-supported");
        assert(attrs[5].name == "charset-supported"@);
        assert(name_key("charset-supported"@) == 37288564);
    }
    assert(name_place(attrs[6].name) == 24) by {
        reveal_strlit("natural-language-configured");
        assert(attrs[6].name == "natural-language-configured"@);
        assert(name_key("natural-language-configured"@) == 58439282);
    }
    assert(name_place(attrs[7].name) == 25) by {
        reveal_strlit("generated-natural-language-supported");
        assert(attrs[7].name == "generated-natural-language-supported"@);
        assert(name_key("generated-natural-language-supported"@) == 77199988);
    }
}

/// The attributes of [`document_attrs`] stand at their places.
proof fn document_in_place()
    ensures
        document_attrs().len() == 9,
        in_place(document_attrs(), 26),
{
    reveal(document_attrs);
    reveal(name_place);
    let attrs = document_attrs();
    assert(name_place(attrs[0].name) == 26) by {
        reveal_strlit("document-format-default");
        assert(attrs[0].name == "document-format-default"@);
        assert(name_key("document-format-default"@) == 49887093);
    }
    assert(name_place(attrs[1].name) == 27) by {
        reveal_strlit("document-format-preferred");
        assert(attrs[1].name == "document-format-preferred"@);
        assert(name_key("document-format-preferred"@) == 54081394);
    }
    assert(name_place(attrs[2].name) == 28) by {
        reveal_strlit("document-format-supported");
        assert(attrs[2].name == "document-format-supported"@);
        assert(name_key("document-format-supported"@) == 54081396);
    }
    assert(name_place(attrs[3].name) == 29) by {
        reveal_strlit("compression-supported");
        assert(attrs[3].name == "compression-supported"@);
        assert(name_key("compression-supported"@) == 45677044);
    }
    assert(name_place(attrs[4].name) == 30) by {
        reveal_strlit("pdl-override-supported");
        assert(attrs[4].name == "pdl-override-supported"@);
        assert(name_key("pdl-override-supported"@) == 47985396);
    }
    assert(name_place(attrs[5].name) == 31) by {
        reveal_strlit("multiple-document-jobs-supported");
        assert(attrs[5].name == "multiple-document-jobs-supported"@);
        assert(name_key("multiple-document-jobs-supported"@) == 68908660);
    }
    assert(name_place(attrs[6].name) == 32) by {
        reveal_strlit("job-ids-supported");
        assert(attrs[6].name == "job-ids-supported"@);
        assert(name_key("job-ids-supported"@) == 37403124);
    }
    assert(name_place(attrs[7].name) == 33) by {
        reveal_strlit("which-jobs-supported");
        assert(attrs[7].name == "which-jobs-supported"@);
        assert(name_key("which-jobs-supported"@) == 43906420);
    }
    assert(name_place(attrs[8].name) == 34) by {
        reveal_strlit("job-creation-attributes-supported");
        assert(attrs[8].name == "job-creation-attributes-supported"@);
        assert(name_key("job-creation-attributes-supported"@) == 70955764);
    }
}

/// The attributes of [`limit_attrs`] stand at their places.
proof fn limit_in_place()
    ensures
        limit_attrs().len() == 7,
        in_place(limit_attrs(), 35),
{
    reveal(limit_attrs);
    reveal(name_place);
    let attrs = limit_attrs();
    assert(name_place(attrs[0].name) == 35) by {
        reveal_strlit("copies-default");
        assert(attrs[0].name == "copies-default"@);
        assert(name_key("copies-default"@) == 30988021);
    }
    assert(name_place(attrs[1].name) == 36) by {
        reveal_strlit("copies-supported");
        assert(attrs[1].name == "copies-supported"@);
        assert(name_key("copies-supported"@) == 35182324);
    }
    assert(name_place(attrs[2].name) == 37) by {
        reveal_strlit("job-priority-default");
        assert(attrs[2].name == "job-priority-default"@);
        assert(name_key("job-priority-default"@) == 43693301);
    }
    assert(name_place(attrs[3].name) == 38) by {
        reveal_strlit("job-priority-supported");
        assert(attrs[3].name == "job-priority-supported"@);
        assert(name_key("job-priority-supported"@) == 47887604);
    }
    assert(name_place(attrs[4].name) == 39) by {
        reveal_strlit("job-k-octets-supported");
        assert(attrs[4].name == "job-k-octets-supported"@);
        assert(name_key("job-k-octets-supported"@) == 47888372);
    }
    assert(name_place(attrs[5].name) == 40) by {
        reveal_strlit("finishings-default");
        assert(attrs[5].name == "finishings-default"@);
        assert(name_key("finishings-default"@) == 39433461);
    }
    assert(name_place(attrs[6].name) == 41) by {
        reveal_strlit("finishings-supported");
        assert(attrs[6].name == "finishings-supported"@);
        assert(name_key("finishings-supported"@) == 43627764);
    }
}

/// The attributes of [`media_attrs`] stand at their places.
proof fn media_in_place()
    ensures
        media_attrs().len() == 10,
        in_place(media_attrs(), 42),
{
    reveal(media_attrs);
    reveal(name_place);
    let attrs = media_attrs();
    assert(name_place(attrs[0].name) == 42) by {
        reveal_strlit("media-default");
        assert(attrs[0].name == "media-default"@);
        assert(name_key("media-default"@) == 29061749);
    }
    assert(name_place(attrs[1].name) == 43) by {
        reveal_strlit("media-supported");
        assert(attrs[1].name == "media-supported"@);
        assert(name_key("media-supported"@) == 33257972);
    }
    assert(name_place(attrs[2].name) == 44) by {
        reveal_strlit("media-ready");
        assert(attrs[2].name == "media-ready"@);
        assert(name_key("media-ready"@) == 24869217);
    }
    assert(name_place(attrs[3].name) == 45) by {
        reveal_strlit("media-col-supported");
        assert(attrs[3].name == "media-col-supported"@);
        assert(name_key("media-col-supported"@) == 41644532);
    }
    assert(name_place(attrs[4].name) == 46) by {
        reveal_strlit("media-source-default");
        assert(attrs[4].name == "media-source-default"@);
        assert(name_key("media-source-default"@) == 43743733);
    }
    assert(name_place(attrs[5].name) == 47) by {
        reveal_strlit("media-source-supported");
        assert(attrs[5].name == "media-source-supported"@);
        assert(name_key("media-source-supported"@) == 47938036);
    }
    assert(name_place(attrs[6].name) == 48) by {
        reveal_strlit("media-type-default");
        assert(attrs[6].name == "media-type-default"@);
        assert(name_key("media-type-default"@) == 39549557);
    }
    assert(name_place(attrs[7].name) == 49) by {
        reveal_strlit("media-type-supported");
        assert(attrs[7].name == "media-type-supported"@);
        assert(name_key("media-type-supported"@) == 43743860);
    }
    assert(name_place(attrs[8].name) == 50) by {
        reveal_strlit("sides-default");
        assert(attrs[8].name == "sides-default"@);
        assert(name_key("sides-default"@) == 29160053);
    }
    assert(name_place(attrs[9].name) == 51) by {
        reveal_strlit("sides-supported");
        assert(attrs[9].name == "sides-supported"@);
        assert(name_key("sides-supported"@) == 33356276);
    }
}

/// The attributes of [`rendering_attrs`] stand at their places.
proof fn rendering_in_place()
    ensures
        rendering_attrs().len() == 10,
        in_place(rendering_attrs(), 52),
{
    reveal(rendering_attrs);
    reveal(name_place);
    let attrs = rendering_attrs();
    assert(name_place(attrs[0].name) == 52) by {
        reveal_strlit("orientation-requested-default");
        assert(attrs[0].name == "orientation-requested-default"@);
        assert(name_key("orientation-requested-default"@) == 62648565);
    }
    assert(name_place(attrs[1].name) == 53) by {
        reveal_strlit("orientation-requested-supported");
        assert(attrs[1].name == "orientation-requested-supported"@);
        assert(name_key("orientation-requested-supported"@) == 66842868);
    }
    assert(name_place(attrs[2].name) == 54) by {
        reveal_strlit("print-quality-default");
        assert(attrs[2].name == "print-quality-default"@);
        assert(name_key("print-quality-default"@) == 45889781);
    }
    assert(name_place(attrs[3].name) == 55) by {
        reveal_strlit("print-quality-supported");
        assert(attrs[3].name == "print-quality-supported"@);
        assert(name_key("print-quality-supported"@) == 50084084);
    }
    assert(name_place(attrs[4].name) == 56) by {
        reveal_strlit("print-color-mode-default");
        assert(attrs[4].name == "print-color-mode-default"@);
        assert(name_key("print-color-mode-default"@) == 52179445);
    }
    assert(name_place(attrs[5].name) == 57) by {
        reveal_strlit("print-color-mode-supported");
        assert(attrs[5].name == "print-color-mode-supported"@);
        assert(name_key("print-color-mode-supported"@) == 56373748);
    }
    assert(name_place(attrs[6].name) == 58) by {
        reveal_strlit("print-scaling-supported");
        assert(attrs[6].name == "print-scaling-supported"@);
        assert(name_key("print-scaling-supported"@) == 50084340);
    }
    assert(name_place(attrs[7].name) == 59) by {
        reveal_strlit("print-scaling-default");
        assert(attrs[7].name == "print-scaling-default"@);
        assert(name_key("print-scaling-default"@) == 45890037);
    }
    assert(name_place(attrs[8].name) == 60) by {
        reveal_strlit("print-content-optimize-default");
        assert(attrs[8].name == "print-content-optimize-default"@);
        assert(name_key("print-content-optimize-default"@) == 64762357);
    }
    assert(name_place(attrs[9].name) == 61) by {
        reveal_strlit("print-content-optimize-supported");
        assert(attrs[9].name == "print-content-optimize-supported"@);
        assert(name_key("print-content-optimize-supported"@) == 68956660);
    }
}

/// The attributes of [`raster_attrs`] stand at their places.
proof fn raster_in_place()
    ensures
        raster_attrs().len() == 10,
        in_place(raster_attrs(), 62),
{
    reveal(raster_attrs);
    reveal(name_place);
    let attrs = raster_attrs();
    assert(name_place(attrs[0].name) == 62) by {
        reveal_strlit("printer-resolution-default");
        assert(attrs[0].name == "printer-resolution-default"@);
        assert(name_key("printer-resolution-default"@) == 56375669);
    }
    assert(name_place(attrs[1].name) == 63) by {
        reveal_strlit("printer-resolution-supported");
        assert(attrs[1].name == "printer-resolution-supported"@);
        assert(name_key("printer-resolution-supported"@) == 60569972);
    }
    assert(name_place(attrs[2].name) == 64) by {
        reveal_strlit("pwg-raster-document-resolution-supported");
        assert(attrs[2].name == "pwg-raster-document-resolution-supported"@);
        assert(name_key("pwg-raster-document-resolution-supported"@) == 85735924);
    }
    assert(name_place(attrs[3].name) == 65) by {
        reveal_strlit("pwg-raster-document-type-supported");
        assert(attrs[3].name == "pwg-raster-document-type-supported"@);
        assert(name_key("pwg-raster-document-type-supported"@) == 73153012);
    }
    assert(name_place(attrs[4].name) == 66) by {
        reveal_strlit("urf-supported");
        assert(attrs[4].name == "urf-supported"@);
        assert(name_key("urf-supported"@) == 29194356);
    }
    assert(name_place(attrs[5].name) == 67) by {
        reveal_strlit("page-ranges-supported");
        assert(attrs[5].name == "page-ranges-supported"@);
        assert(name_key("page-ranges-supported"@) == 45887732);
    }
    assert(name_place(attrs[6].name) == 68) by {
        reveal_strlit("number-up-default");
        assert(attrs[6].name == "number-up-default"@);
        assert(name_key("number-up-default"@) == 37459701);
    }
    assert(name_place(attrs[7].name) == 69) by {
        reveal_strlit("number-up-supported");
        assert(attrs[7].name == "number-up-supported"@);
        assert(name_key("number-up-supported"@) == 41654004);
    }
    assert(name_place(attrs[8].name) == 70) by {
        reveal_strlit("output-bin-default");
        assert(attrs[8].name == "output-bin-default"@);
        assert(name_key("output-bin-default"@) == 39573237);
    }
    assert(name_place(attrs[9].name) == 71) by {
        reveal_strlit("output-bin-supported");
        assert(attrs[9].name == "output-bin-supported"@);
        assert(name_key("output-bin-supported"@) == 43767540);
    }
}

/// The attributes that every answer begins with stand at no place of the printer's.
proof fn operation_attrs_elsewhere()
    ensures
        forall|j: int|
            0 <= j < operation_attrs().len() ==> name_place((#[trigger] operation_attrs()[j]).name)
                >= 72,
{
    reveal(name_place);
    let attrs = operation_attrs();
    assert(name_place(attrs[0].name) == 72) by {
        reveal_strlit("attributes-charset");
        assert(attrs[0].name == "attributes-charset"@);
        assert(name_key("attributes-charset"@) == 39353075);
    }
    assert(name_place(attrs[1].name) == 73) by {
        reveal_strlit("attributes-natural-language");
        assert(attrs[1].name == "attributes-natural-language"@);
        assert(name_key("attributes-natural-language"@) == 58227425);
    }
}

/// Two runs of attributes that stand at their places, one behind the other.
proof fn runs_in_place(a: Seq<Attr>, b: Seq<Attr>, from: int)
    requires
        in_place(a, from),
        in_place(b, from + a.len()),
    ensures
        in_place(a + b, from),
{
    assert forall|j: int| 0 <= j < (a + b).len() implies name_place((#[trigger] (a + b)[j]).name)
        == from + j by {
        if j < a.len() {
            assert((a + b)[j] == a[j]);
        } else {
            assert((a + b)[j] == b[j - a.len()]);
        }
    }
}

/// All the attributes of the printer stand at their places.
proof fn printer_in_place(ipp_port: u16)
    ensures
        printer_attrs(ipp_port).len() == 72,
        in_place(printer_attrs(ipp_port), 0),
{
    let uri = printer_uri(ipp_port);
    identity_in_place(uri);
    state_in_place();
    protocol_in_place();
    document_in_place();
    limit_in_place();
    media_in_place();
    rendering_in_place();
    raster_in_place();
    let a = identity_attrs(uri);
    let b = a + state_attrs();
    let c = b + protocol_attrs();
    let d = c + document_attrs();
    let e = d + limit_attrs();
    let f = e + media_attrs();
    let g = f + rendering_attrs();
    runs_in_place(a, state_attrs(), 0);
    runs_in_place(b, protocol_attrs(), 0);
    runs_in_place(c, document_attrs(), 0);
    runs_in_place(d, limit_attrs(), 0);
    runs_in_place(e, media_attrs(), 0);
    runs_in_place(f, rendering_attrs(), 0);
    runs_in_place(g, raster_attrs(), 0);
}

/// Whether an answer holds all of some attributes, in the printer's group.
spec fn holds_all(attributes: Attributes, attrs: Seq<Attr>) -> bool {
    forall|j: int|
        0 <= j < attrs.len() && (#[trigger] attrs[j]).values.len() > 0 ==> {
            &&& attributes.contains_key(attrs[j].name)
            &&& attributes[attrs[j].name] == (AttributeView {
                group: 0x04,
                tag: attrs[j].tag,
                values: attrs[j].values,
            })
        }
}

/// What holds two runs holds each of them.
proof fn holds_runs(attributes: Attributes, a: Seq<Attr>, b: Seq<Attr>)
    requires
        holds_all(attributes, a + b),
    ensures
        holds_all(attributes, a),
        holds_all(attributes, b),
{
    assert forall|j: int| 0 <= j < a.len() && (#[trigger] a[j]).values.len() > 0 implies {
        &&& attributes.contains_key(a[j].name)
        &&& attributes[a[j].name] == (AttributeView {
            group: 0x04,
            tag: a[j].tag,
            values: a[j].values,
        })
    } by {
        assert((a + b)[j] == a[j]);
    }
    assert forall|j: int| 0 <= j < b.len() && (#[trigger] b[j]).values.len() > 0 implies {
        &&& attributes.contains_key(b[j].name)
        &&& attributes[b[j].name] == (AttributeView {
            group: 0x04,
            tag: b[j].tag,
            values: b[j].values,
        })
    } by {
        assert((a + b)[j + a.len()] == b[j]);
    }
}

/// The answer about the printer holds all that the printer says of itself.
proof fn answer_holds_all(request: RequestView, ipp_port: u16)
    ensures
        ({
            let m = printer_message(request, ipp_port);
            &&& parse_request(encode_message(m)) matches Ok(answer)
            &&& answer.version == request.version
            &&& answer.request_id == request.request_id
            &&& answer.operation == 0
            &&& holds_all(answer.attributes, printer_attrs(ipp_port))
        }),
{
    let m = printer_message(request, ipp_port);
    let attrs = printer_attrs(ipp_port);
    printer_attrs_legible(ipp_port);
    operation_attrs_legible();
    assert(legible(m));
    message_round_trip(m, Seq::empty());
    assert(encode_message(m) + Seq::empty() =~= encode_message(m));
    printer_in_place(ipp_port);
    operation_attrs_elsewhere();
    let read = parse_request(encode_message(m))->Ok_0.attributes;
    assert forall|j: int| 0 <= j < attrs.len() && (#[trigger] attrs[j]).values.len() > 0 implies {
        &&& read.contains_key(attrs[j].name)
        &&& read[attrs[j].name] == (AttributeView {
            group: 0x04,
            tag: attrs[j].tag,
            values: attrs[j].values,
        })
    } by {
        assert(name_place(attrs[j].name) == j);
        assert(named_once(m.groups, 1, j));
        attribute_round_trip(m, Seq::empty(), 1, j);
    }
}

// What is said --------------------------------------------------------------

/// A text that was written is read.
broadcast proof fn written_text_is_read(text: Seq<char>)
    ensures
        #[trigger] lossy_text(encode_utf8(text)) == text,
{
    lossy_text_of_encoded(text);
}

/// Who the printer is, and where.
pub open spec fn says_identity(attributes: Attributes, uri: Seq<char>) -> bool {
    &&& says_text(attributes, "printer-uri-supported"@, 0x45, uri)
    &&& says_texts(attributes, "uri-authentication-supported"@, 0x44, seq!["none"@])
    &&& says_texts(attributes, "uri-security-supported"@, 0x44, seq!["none"@])
    &&& says_text(attributes, "printer-name"@, 0x42, "Virtual Print Sink"@)
    &&& says_text(attributes, "printer-info"@, 0x41, "Rust LPR/IPP file capture printer"@)
    &&& says_text(attributes, "printer-location"@, 0x41, "localhost"@)
    &&& says_text(attributes, "printer-make-and-model"@, 0x41, "OpenAI Virtual Print Sink 0.1"@)
    &&& says_text(
        attributes,
        "printer-device-id"@,
        0x41,
        "MFG:OpenAI;MDL:Virtual Print Sink;CMD:PDF,POSTSCRIPT,PCL,PWGRASTER,URF;CLS:PRINTER;DES:Virtual Print Sink IPP Printer;"@,
    )
    &&& says_text(
        attributes,
        "printer-uuid"@,
        0x45,
        "urn:uuid:8fddfcaf-d219-4c69-998c-e6a6681b2d11"@,
    )
}

proof fn identity_is_said(attributes: Attributes, uri: Seq<char>)
    requires
        holds_all(attributes, identity_attrs(uri)),
    ensures
        says_identity(attributes, uri),
{
    broadcast use written_text_is_read;

    reveal(identity_attrs);
    let attrs = identity_attrs(uri);
    assert(attrs[0].values.len() > 0);
    assert(attrs[1].values.len() > 0);
    assert(attrs[2].values.len() > 0);
    assert(attrs[3].values.len() > 0);
    assert(attrs[4].values.len() > 0);
    assert(attrs[5].values.len() > 0);
    assert(attrs[6].values.len() > 0);
    assert(attrs[7].values.len() > 0);
    assert(attrs[8].values.len() > 0);
}

/// How the printer is doing: idle, and taking jobs.
pub open spec fn says_state(attributes: Attributes) -> bool {
    &&& says_numbers(attributes, "printer-state"@, 0x23, seq![3int])
    &&& says_texts(attributes, "printer-state-reasons"@, 0x44, seq!["none"@])
    &&& says_truth(attributes, "printer-is-accepting-jobs"@, true)
    &&& says_numbers(attributes, "queued-job-count"@, 0x21, seq![0int])
    &&& says_numbers(attributes, "printer-config-change-time"@, 0x21, seq![0int])
    &&& says_numbers(attributes, "printer-up-time"@, 0x21, seq![0int])
    &&& says_numbers(attributes, "pages-per-minute"@, 0x21, seq![1int])
    &&& says_numbers(attributes, "pages-per-minute-color"@, 0x21, seq![1int])
    &&& says_truth(attributes, "color-supported"@, true)
}

proof fn state_is_said(attributes: Attributes)
    requires
        holds_all(attributes, state_attrs()),
    ensures
        says_state(attributes),
{
    broadcast use written_text_is_read;

    reveal(state_attrs);
    let attrs = state_attrs();
    assert(attrs[0].values.len() > 0);
    assert(attrs[1].values.len() > 0);
    assert(attrs[2].values.len() > 0);
    assert(attrs[3].values.len() > 0);
    assert(attrs[4].values.len() > 0);
    assert(attrs[5].values.len() > 0);
    assert(attrs[6].values.len() > 0);
    assert(attrs[7].values.len() > 0);
    assert(attrs[8].values.len() > 0);
}

/// What the printer speaks, and the operations that it offers.
pub open spec fn says_protocol(attributes: Attributes) -> bool {
    &&& says_texts(attributes, "ipp-versions-supported"@, 0x44, seq!["1.1"@, "2.0"@])
    &&& says_texts(attributes, "ipp-features-supported"@, 0x44, seq!["ipp-everywhere"@])
    &&& says_texts(attributes, "printer-get-attributes-supported"@, 0x44, seq!["document-format"@])
    &&& says_numbers(attributes, "operations-supported"@, 0x23, seq![2int, 4, 5, 6, 8, 9, 10, 11])
    &&& says_text(attributes, "charset-configured"@, 0x47, "utf-8"@)
    &&& says_texts(attributes, "charset-supported"@, 0x47, seq!["utf-8"@])
    &&& says_text(attributes, "natural-language-configured"@, 0x48, "en"@)
    &&& says_texts(attributes, "generated-natural-language-supported"@, 0x48, seq!["en"@])
}

proof fn protocol_is_said(attributes: Attributes)
    requires
        holds_all(attributes, protocol_attrs()),
    ensures
        says_protocol(attributes),
{
    broadcast use written_text_is_read;

    reveal(protocol_attrs);
    let attrs = protocol_attrs();
    assert(attrs[0].values.len() > 0);
    assert(attrs[1].values.len() > 0);
    assert(attrs[2].values.len() > 0);
    assert(attrs[3].values.len() > 0);
    assert(attrs[4].values.len() > 0);
    assert(attrs[5].values.len() > 0);
    assert(attrs[6].values.len() > 0);
    assert(attrs[7].values.len() > 0);
}

/// The document formats and the jobs that the printer takes.
pub open spec fn says_document(attributes: Attributes) -> bool {
    &&& says_text(attributes, "document-format-default"@, 0x49, "application/octet-stream"@)
    &&& says_text(attributes, "document-format-preferred"@, 0x49, "application/pdf"@)
    &&& says_texts(
        attributes,
        "document-format-supported"@,
        0x49,
        seq![
            "application/octet-stream"@,
            "application/pdf"@,
            "application/postscript"@,
            "application/vnd.hp-pcl"@,
            "image/jpeg"@,
            "image/pwg-raster"@,
            "image/urf"@,
            "text/plain"@,
        ],
    )
    &&& says_texts(attributes, "compression-supported"@, 0x44, seq!["none"@])
    &&& says_text(attributes, "pdl-override-supported"@, 0x44, "not-attempted"@)
    &&& says_truth(attributes, "multiple-document-jobs-supported"@, false)
    &&& says_truth(attributes, "job-ids-supported"@, true)
    &&& says_texts(
        attributes,
        "which-jobs-supported"@,
        0x44,
        seq![
            "completed"@,
            "not-completed"@,
            "aborted"@,
            "all"@,
            "canceled"@,
            "pending"@,
            "pending-held"@,
            "processing"@,
            "processing-stopped"@,
        ],
    )
    &&& says_texts(
        attributes,
        "job-creation-attributes-supported"@,
        0x44,
        seq![
            "copies"@,
            "document-format"@,
            "job-name"@,
            "media"@,
            "media-col"@,
            "orientation-requested"@,
            "page-ranges"@,
            "print-color-mode"@,
            "print-quality"@,
            "printer-resolution"@,
            "requesting-user-name"@,
            "sides"@,
        ],
    )
}

proof fn document_is_said(attributes: Attributes)
    requires
        holds_all(attributes, document_attrs()),
    ensures
        says_document(attributes),
{
    broadcast use written_text_is_read;

    reveal(document_attrs);
    let attrs = document_attrs();
    assert(attrs[0].values.len() > 0);
    assert(attrs[1].values.len() > 0);
    assert(attrs[2].values.len() > 0);
    assert(attrs[3].values.len() > 0);
    assert(attrs[4].values.len() > 0);
    assert(attrs[5].values.len() > 0);
    assert(attrs[6].values.len() > 0);
    assert(attrs[7].values.len() > 0);
    assert(attrs[8].values.len() > 0);
}

/// How many copies and how much data the printer takes.
pub open spec fn says_limit(attributes: Attributes) -> bool {
    &&& says_numbers(attributes, "copies-default"@, 0x21, seq![1int])
    &&& says_range(attributes, "copies-supported"@, 1, 999)
    &&& says_numbers(attributes, "job-priority-default"@, 0x21, seq![50int])
    &&& says_numbers(attributes, "job-priority-supported"@, 0x21, seq![100int])
    &&& says_range(attributes, "job-k-octets-supported"@, 0, 262144)
    &&& says_numbers(attributes, "finishings-default"@, 0x23, seq![3int])
    &&& says_numbers(attributes, "finishings-supported"@, 0x23, seq![3int])
}

proof fn limit_is_said(attributes: Attributes)
    requires
        holds_all(attributes, limit_attrs()),
    ensures
        says_limit(attributes),
{
    broadcast use written_text_is_read;

    reveal(limit_attrs);
    let attrs = limit_attrs();
    assert(attrs[0].values.len() > 0);
    assert(attrs[1].values.len() > 0);
    assert(attrs[2].values.len() > 0);
    assert(attrs[3].values.len() > 0);
    assert(attrs[4].values.len() > 0);
    assert(attrs[5].values.len() > 0);
    assert(attrs[6].values.len() > 0);
}

/// On what the printer prints, and on which sides.
pub open spec fn says_media(attributes: Attributes) -> bool {
    &&& says_text(attributes, "media-default"@, 0x44, "iso_a4_210x297mm"@)
    &&& says_texts(
        attributes,
        "media-supported"@,
        0x44,
        seq!["iso_a4_210x297mm"@, "na_letter_8.5x11in"@],
    )
    &&& says_texts(
        attributes,
        "media-ready"@,
        0x44,
        seq!["iso_a4_210x297mm"@, "na_letter_8.5x11in"@],
    )
    &&& says_texts(
        attributes,
        "media-col-supported"@,
        0x44,
        seq!["media-size"@, "media-source"@, "media-type"@],
    )
    &&& says_text(attributes, "media-source-default"@, 0x44, "auto"@)
    &&& says_texts(attributes, "media-source-supported"@, 0x44, seq!["auto"@])
    &&& says_text(attributes, "media-type-default"@, 0x44, "stationery"@)
    &&& says_texts(attributes, "media-type-supported"@, 0x44, seq!["stationery"@])
    &&& says_text(attributes, "sides-default"@, 0x44, "one-sided"@)
    &&& says_texts(
        attributes,
        "sides-supported"@,
        0x44,
        seq!["one-sided"@, "two-sided-long-edge"@, "two-sided-short-edge"@],
    )
}

proof fn media_is_said(attributes: Attributes)
    requires
        holds_all(attributes, media_attrs()),
    ensures
        says_media(attributes),
{
    broadcast use written_text_is_read;

    reveal(media_attrs);
    let attrs = media_attrs();
    assert(attrs[0].values.len() > 0);
    assert(attrs[1].values.len() > 0);
    assert(attrs[2].values.len() > 0);
    assert(attrs[3].values.len() > 0);
    assert(attrs[4].values.len() > 0);
    assert(attrs[5].values.len() > 0);
    assert(attrs[6].values.len() > 0);
    assert(attrs[7].values.len() > 0);
    assert(attrs[8].values.len() > 0);
    assert(attrs[9].values.len() > 0);
}

/// How the printer renders pages.
pub open spec fn says_rendering(attributes: Attributes) -> bool {
    &&& says_numbers(attributes, "orientation-requested-default"@, 0x23, seq![3int])
    &&& says_numbers(attributes, "orientation-requested-supported"@, 0x23, seq![3int, 4, 5, 6])
    &&& says_numbers(attributes, "print-quality-default"@, 0x23, seq![4int])
    &&& says_numbers(attributes, "print-quality-supported"@, 0x23, seq![3int, 4, 5])
    &&& says_text(attributes, "print-color-mode-default"@, 0x44, "color"@)
    &&& says_texts(attributes, "print-color-mode-supported"@, 0x44, seq!["monochrome"@, "color"@])
    &&& says_texts(
        attributes,
        "print-scaling-supported"@,
        0x44,
        seq!["auto"@, "auto-fit"@, "fill"@, "fit"@, "none"@],
    )
    &&& says_text(attributes, "print-scaling-default"@, 0x44, "auto"@)
    &&& says_text(attributes, "print-content-optimize-default"@, 0x44, "auto"@)
    &&& says_texts(
        attributes,
        "print-content-optimize-supported"@,
        0x44,
        seq!["auto"@, "graphic"@, "photo"@, "text"@, "text-and-graphic"@],
    )
}

proof fn rendering_is_said(attributes: Attributes)
    requires
        holds_all(attributes, rendering_attrs()),
    ensures
        says_rendering(attributes),
{
    broadcast use written_text_is_read;

    reveal(rendering_attrs);
    let attrs = rendering_attrs();
    assert(attrs[0].values.len() > 0);
    assert(attrs[1].values.len() > 0);
    assert(attrs[2].values.len() > 0);
    assert(attrs[3].values.len() > 0);
    assert(attrs[4].values.len() > 0);
    assert(attrs[5].values.len() > 0);
    assert(attrs[6].values.len() > 0);
    assert(attrs[7].values.len() > 0);
    assert(attrs[8].values.len() > 0);
    assert(attrs[9].values.len() > 0);
}

/// What the printer does with pages as pictures, and where they come out.
pub open spec fn says_raster(attributes: Attributes) -> bool {
    &&& says_resolutions(attributes, "printer-resolution-default"@, seq![(600int, 600int, 3int)])
    &&& says_resolutions(
        attributes,
        "printer-resolution-supported"@,
        seq![(300int, 300int, 3int), (600int, 600int, 3int)],
    )
    &&& says_resolutions(
        attributes,
        "pwg-raster-document-resolution-supported"@,
        seq![(300int, 300int, 3int), (600int, 600int, 3int)],
    )
    &&& says_texts(
        attributes,
        "pwg-raster-document-type-supported"@,
        0x44,
        seq!["black_1"@, "sgray_8"@, "srgb_8"@],
    )
    &&& says_texts(
        attributes,
        "urf-supported"@,
        0x44,
        seq!["CP1"@, "IS1"@, "MT1-2-3-4-5"@, "RS300-600"@, "SRGB24"@, "W8"@],
    )
    &&& says_truth(attributes, "page-ranges-supported"@, true)
    &&& says_numbers(attributes, "number-up-default"@, 0x21, seq![1int])
    &&& says_numbers(attributes, "number-up-supported"@, 0x21, seq![1int, 2, 4, 6, 9, 16])
    &&& says_text(attributes, "output-bin-default"@, 0x44, "face-down"@)
    &&& says_texts(attributes, "output-bin-supported"@, 0x44, seq!["face-down"@])
}

proof fn raster_is_said(attributes: Attributes)
    requires
        holds_all(attributes, raster_attrs()),
    ensures
        says_raster(attributes),
{
    broadcast use written_text_is_read;

    reveal(raster_attrs);
    let attrs = raster_attrs();
    assert(attrs[0].values.len() > 0);
    assert(attrs[1].values.len() > 0);
    assert(attrs[2].values.len() > 0);
    assert(attrs[3].values.len() > 0);
    assert(attrs[4].values.len() > 0);
    assert(attrs[5].values.len() > 0);
    assert(attrs[6].values.len() > 0);
    assert(attrs[7].values.len() > 0);
    assert(attrs[8].values.len() > 0);
    assert(attrs[9].values.len() > 0);
}

/// Whatever asks, and on whatever port: a client that asks for the printer's
/// attributes reads who the printer is, that it is idle and takes jobs, what it
/// speaks, which documents it takes and how many copies of them, on what it
/// prints, and how. The table of jobs stays as it is.
pub proof fn printer_says(state: StateView, ask: RequestView)
    requires
        ask.operation == 0x000b,
    ensures
        handled(state, ask).0 == state,
        handled(state, ask).1 matches Ok(ActionView::Reply(bytes)) && {
            &&& parse_request(bytes) matches Ok(answer)
            &&& answer.version == ask.version
            &&& answer.request_id == ask.request_id
            &&& answer.operation == 0
            &&& says_identity(
                answer.attributes,
                "ipp://127.0.0.1:"@ + decimal(state.ipp_port as nat) + "/printers/virtual"@,
            )
            &&& says_state(answer.attributes)
            &&& says_protocol(answer.attributes)
            &&& says_document(answer.attributes)
            &&& says_limit(answer.attributes)
            &&& says_media(answer.attributes)
            &&& says_rendering(answer.attributes)
            &&& says_raster(answer.attributes)
        },
{
    let port = state.ipp_port;
    let m = printer_message(ask, port);
    answer_holds_all(ask, port);
    let read = parse_request(encode_message(m))->Ok_0.attributes;
    let uri = printer_uri(port);
    let a = identity_attrs(uri);
    let b = a + state_attrs();
    let c = b + protocol_attrs();
    let d = c + document_attrs();
    let e = d + limit_attrs();
    let f = e + media_attrs();
    let g = f + rendering_attrs();
    holds_runs(read, g, raster_attrs());
    holds_runs(read, f, rendering_attrs());
    holds_runs(read, e, media_attrs());
    holds_runs(read, d, limit_attrs());
    holds_runs(read, c, document_attrs());
    holds_runs(read, b, protocol_attrs());
    holds_runs(read, a, state_attrs());
    identity_is_said(read, uri);
    state_is_said(read);
    protocol_is_said(read);
    document_is_said(read);
    limit_is_said(read);
    media_is_said(read);
    rendering_is_said(read);
    raster_is_said(read);
}

} // verus!
