//! IPP messages: their codes, their parts, and how they are written as bytes.

use crate::wire::{be16, be32};
use vstd::prelude::*;
use vstd::utf8::encode_utf8;

verus! {

/// The largest request body that is taken in, in bytes.
pub const MAX_IPP_BODY_BYTES: usize = 268_435_456;

pub const OP_PRINT_JOB: u16 = 0x0002;

pub const OP_VALIDATE_JOB: u16 = 0x0004;

pub const OP_CREATE_JOB: u16 = 0x0005;

pub const OP_SEND_DOCUMENT: u16 = 0x0006;

pub const OP_CANCEL_JOB: u16 = 0x0008;

pub const OP_GET_JOB_ATTRIBUTES: u16 = 0x0009;

pub const OP_GET_JOBS: u16 = 0x000a;

pub const OP_GET_PRINTER_ATTRIBUTES: u16 = 0x000b;

pub const STATUS_OK: u16 = 0x0000;

pub const STATUS_CLIENT_ERROR_NOT_FOUND: u16 = 0x0406;

pub const STATUS_SERVER_ERROR_OPERATION_NOT_SUPPORTED: u16 = 0x0501;

pub const GROUP_OPERATION: u8 = 0x01;

pub const GROUP_JOB: u8 = 0x02;

pub const GROUP_END: u8 = 0x03;

pub const GROUP_PRINTER: u8 = 0x04;

pub const TAG_INTEGER: u8 = 0x21;

pub const TAG_BOOLEAN: u8 = 0x22;

pub const TAG_ENUM: u8 = 0x23;

pub const TAG_RESOLUTION: u8 = 0x32;

pub const TAG_RANGE: u8 = 0x33;

pub const TAG_TEXT: u8 = 0x41;

pub const TAG_NAME: u8 = 0x42;

pub const TAG_KEYWORD: u8 = 0x44;

pub const TAG_URI: u8 = 0x45;

pub const TAG_CHARSET: u8 = 0x47;

pub const TAG_NATURAL_LANGUAGE: u8 = 0x48;

pub const TAG_MIME: u8 = 0x49;

/// The identity by which Windows picks the driver and finds the support
/// application of the printer. It has to stay as it is.
pub const PRINTER_DEVICE_ID: &'static str = "MFG:OpenAI;MDL:Virtual Print Sink;CMD:PDF,POSTSCRIPT,PCL,PWGRASTER,URF;CLS:PRINTER;DES:Virtual Print Sink IPP Printer;";

/// The identity of the printer. It has to stay as it is.
pub const PRINTER_UUID: &'static str = "urn:uuid:8fddfcaf-d219-4c69-998c-e6a6681b2d11";

/// Whether `tag` opens or closes a group of attributes.
pub open spec fn is_delimiter(tag: u8) -> bool {
    0x01 <= tag <= 0x05
}

/// An attribute of a message: its name and its values, which all have one tag.
pub struct Attr {
    pub tag: u8,
    pub name: Seq<char>,
    pub values: Seq<Seq<u8>>,
}

/// A group of attributes.
pub struct Group {
    pub tag: u8,
    pub attrs: Seq<Attr>,
}

/// A message: a request, whose code names an operation, or a response, whose
/// code is a status.
pub struct Message {
    pub version: (u8, u8),
    pub code: u16,
    pub request_id: u32,
    pub groups: Seq<Group>,
}

/// A length as it is written: the low sixteen bits of it.
pub open spec fn len16(n: nat) -> u16 {
    (n % 0x1_0000) as u16
}

/// One value on the wire. A value without a name belongs to the attribute that
/// the value before it belongs to.
pub open spec fn encode_value(tag: u8, name: Seq<u8>, value: Seq<u8>) -> Seq<u8> {
    seq![tag] + be16(len16(name.len())) + name + be16(len16(value.len())) + value
}

/// Values without a name, one after the other.
pub open spec fn encode_more(tag: u8, values: Seq<Seq<u8>>) -> Seq<u8>
    decreases values.len(),
{
    if values.len() == 0 {
        Seq::empty()
    } else {
        encode_more(tag, values.drop_last()) + encode_value(tag, Seq::empty(), values.last())
    }
}

/// An attribute on the wire: its first value under its name, the others without
/// a name. An attribute without values leaves no trace.
#[verifier::opaque]
pub open spec fn encode_attr(attr: Attr) -> Seq<u8> {
    if attr.values.len() == 0 {
        Seq::empty()
    } else {
        encode_value(attr.tag, encode_utf8(attr.name), attr.values[0]) + encode_more(
            attr.tag,
            attr.values.drop_first(),
        )
    }
}

/// Attributes one after the other.
#[verifier::opaque]
pub open spec fn encode_attrs(attrs: Seq<Attr>) -> Seq<u8>
    decreases attrs.len(),
{
    if attrs.len() == 0 {
        Seq::empty()
    } else {
        encode_attrs(attrs.drop_last()) + encode_attr(attrs.last())
    }
}

/// Groups one after the other, each behind its tag.
pub open spec fn encode_groups(groups: Seq<Group>) -> Seq<u8>
    decreases groups.len(),
{
    if groups.len() == 0 {
        Seq::empty()
    } else {
        encode_groups(groups.drop_last()) + (seq![groups.last().tag] + encode_attrs(
            groups.last().attrs,
        ))
    }
}

/// The eight bytes in front of the attributes.
pub open spec fn encode_header(version: (u8, u8), code: u16, request_id: u32) -> Seq<u8> {
    seq![version.0, version.1] + be16(code) + be32(request_id)
}

/// A message on the wire.
pub open spec fn encode_message(m: Message) -> Seq<u8> {
    encode_header(m.version, m.code, m.request_id) + encode_groups(m.groups) + seq![GROUP_END]
}

/// A message with one group.
pub proof fn encode_one_group(m: Message)
    requires
        m.groups.len() == 1,
    ensures
        encode_message(m) == encode_header(m.version, m.code, m.request_id) + (
        seq![m.groups[0].tag] + encode_attrs(m.groups[0].attrs)) + seq![GROUP_END],
{
    let first = seq![m.groups[0].tag] + encode_attrs(m.groups[0].attrs);
    assert(m.groups.drop_last() =~= Seq::<Group>::empty());
    assert(encode_groups(m.groups.drop_last()) + first =~= first);
}

/// A message with two groups.
pub proof fn encode_two_groups(m: Message)
    requires
        m.groups.len() == 2,
    ensures
        encode_message(m) == encode_header(m.version, m.code, m.request_id) + (
        seq![m.groups[0].tag] + encode_attrs(m.groups[0].attrs)) + (seq![m.groups[1].tag]
            + encode_attrs(m.groups[1].attrs)) + seq![GROUP_END],
{
    let front = Message { groups: m.groups.drop_last(), ..m };
    let first = seq![m.groups[0].tag] + encode_attrs(m.groups[0].attrs);
    let second = seq![m.groups[1].tag] + encode_attrs(m.groups[1].attrs);
    let header = encode_header(m.version, m.code, m.request_id);
    assert(front.groups.drop_last() =~= Seq::<Group>::empty());
    assert(encode_groups(front.groups.drop_last()) + first =~= first);
    assert(encode_groups(front.groups) == first);
    assert(header + (first + second) =~= header + first + second);
}

} // verus!
