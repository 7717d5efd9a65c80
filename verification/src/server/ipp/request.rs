//! Reading IPP requests.

use super::message::{is_delimiter, GROUP_END};
use crate::name_map::NameMap;
use crate::text::{from_utf8_lossy, lossy_text, option_text};
use crate::wire::{copy_range, read16, read32, read_signed, signed, value16, value32};
use vstd::prelude::*;
use vstd::slice::slice_subrange;

verus! {

/// Why a request was refused.
#[derive(Clone, Copy, Debug, PartialEq, Eq, Structural)]
pub enum IppError {
    /// The body is shorter than a header and an end tag.
    TooShort,
    /// A length field lies beyond the end of the body.
    UnexpectedEnd,
    /// An attribute's name lies beyond the end of the body.
    InvalidNameLength,
    /// A value without a name stands first in its group.
    NoPredecessor,
    /// An attribute's value lies beyond the end of the body.
    InvalidValueLength,
    /// The body ends without an end tag.
    EndTagMissing,
    /// Send-Document came without a job id.
    SendDocumentWithoutJobId,
    /// Get-Job-Attributes came without a job id.
    GetJobAttributesWithoutJobId,
}

impl IppError {
    /// The error in words.
    pub open spec fn words(self) -> Seq<char> {
        match self {
            IppError::TooShort => "IPP request is too short"@,
            IppError::UnexpectedEnd => "unexpected end of IPP message"@,
            IppError::InvalidNameLength => "invalid IPP attribute name length"@,
            IppError::NoPredecessor => "IPP attribute with empty name has no predecessor"@,
            IppError::InvalidValueLength => "invalid IPP attribute value length"@,
            IppError::EndTagMissing => "IPP end-of-attributes tag was not found"@,
            IppError::SendDocumentWithoutJobId => "Send-Document requires job-id"@,
            IppError::GetJobAttributesWithoutJobId => "Get-Job-Attributes requires job-id"@,
        }
    }

    /// The error in words.
    pub fn message(self) -> (text: &'static str)
        ensures
            text@ == self.words(),
    {
        match self {
            IppError::TooShort => "IPP request is too short",
            IppError::UnexpectedEnd => "unexpected end of IPP message",
            IppError::InvalidNameLength => "invalid IPP attribute name length",
            IppError::NoPredecessor => "IPP attribute with empty name has no predecessor",
            IppError::InvalidValueLength => "invalid IPP attribute value length",
            IppError::EndTagMissing => "IPP end-of-attributes tag was not found",
            IppError::SendDocumentWithoutJobId => "Send-Document requires job-id",
            IppError::GetJobAttributesWithoutJobId => "Get-Job-Attributes requires job-id",
        }
    }
}

/// An attribute of a request: the group and the tag under which its first value
/// came, and the bytes of all its values.
#[derive(Debug)]
pub struct ParsedAttribute {
    pub group: u8,
    pub tag: u8,
    pub values: Vec<Vec<u8>>,
}

/// What a [`ParsedAttribute`] holds.
pub struct AttributeView {
    pub group: u8,
    pub tag: u8,
    pub values: Seq<Seq<u8>>,
}

/// The bytes of each value.
pub open spec fn value_bytes(values: Seq<Vec<u8>>) -> Seq<Seq<u8>> {
    values.map_values(|v: Vec<u8>| v@)
}

impl View for ParsedAttribute {
    type V = AttributeView;

    open spec fn view(&self) -> AttributeView {
        AttributeView { group: self.group, tag: self.tag, values: value_bytes(self.values@) }
    }
}

/// A request as it was read. The document of the request stands in its body
/// from `document_offset` on.
#[derive(Debug)]
pub struct ParsedIppRequest {
    pub version_major: u8,
    pub version_minor: u8,
    pub operation: u16,
    pub request_id: u32,
    pub attributes: NameMap<ParsedAttribute>,
    pub document_offset: usize,
}

/// The attributes of a request by name.
pub type Attributes = Map<Seq<char>, AttributeView>;

/// What a [`ParsedIppRequest`] holds.
pub struct RequestView {
    pub version: (u8, u8),
    pub operation: u16,
    pub request_id: u32,
    pub attributes: Attributes,
    pub document_offset: nat,
}

impl View for ParsedIppRequest {
    type V = RequestView;

    open spec fn view(&self) -> RequestView {
        RequestView {
            version: (self.version_major, self.version_minor),
            operation: self.operation,
            request_id: self.request_id,
            attributes: self.attributes@,
            document_offset: self.document_offset as nat,
        }
    }
}

/// How far reading has come: the group that is open, the name that a value
/// without a name would take, and the attributes so far.
pub struct Reading {
    pub group: u8,
    pub last: Option<Seq<char>>,
    pub attributes: Attributes,
}

/// Reading before the first group.
pub open spec fn reading_start() -> Reading {
    Reading { group: 0, last: None, attributes: Map::empty() }
}

/// `attributes` with one more value. The first value of a name decides the
/// group and the tag.
pub open spec fn with_value(
    attributes: Attributes,
    group: u8,
    tag: u8,
    name: Seq<char>,
    value: Seq<u8>,
) -> Attributes {
    if attributes.contains_key(name) {
        let known = attributes[name];
        attributes.insert(
            name,
            AttributeView {
                group: known.group,
                tag: known.tag,
                values: known.values.push(value),
            },
        )
    } else {
        attributes.insert(name, AttributeView { group, tag, values: seq![value] })
    }
}

/// One value at the start of `rest`: its name, its bytes, and what follows it.
pub open spec fn read_value(rest: Seq<u8>, last: Option<Seq<char>>) -> Result<
    (Seq<char>, Seq<u8>, Seq<u8>),
    IppError,
> {
    if rest.len() < 3 {
        Err(IppError::UnexpectedEnd)
    } else {
        let name_len = value16(rest[1], rest[2]) as int;
        if 3 + name_len > rest.len() {
            Err(IppError::InvalidNameLength)
        } else if name_len == 0 && last is None {
            Err(IppError::NoPredecessor)
        } else {
            let name = if name_len == 0 {
                last->0
            } else {
                lossy_text(rest.subrange(3, 3 + name_len))
            };
            let at = 3 + name_len;
            if at + 2 > rest.len() {
                Err(IppError::UnexpectedEnd)
            } else {
                let value_len = value16(rest[at], rest[at + 1]) as int;
                if at + 2 + value_len > rest.len() {
                    Err(IppError::InvalidValueLength)
                } else {
                    Ok(
                        (
                            name,
                            rest.subrange(at + 2, at + 2 + value_len),
                            rest.skip(at + 2 + value_len),
                        ),
                    )
                }
            }
        }
    }
}

/// Reads groups and values up to the end tag: the attributes, and the document
/// that follows the end tag.
pub open spec fn read_attributes(rest: Seq<u8>, reading: Reading) -> Result<
    (Attributes, Seq<u8>),
    IppError,
>
    decreases rest.len(),
{
    if rest.len() == 0 {
        Err(IppError::EndTagMissing)
    } else if rest[0] == GROUP_END {
        Ok((reading.attributes, rest.skip(1)))
    } else if is_delimiter(rest[0]) {
        read_attributes(
            rest.skip(1),
            Reading { group: rest[0], last: None, attributes: reading.attributes },
        )
    } else {
        match read_value(rest, reading.last) {
            Err(error) => Err(error),
            Ok((name, value, next)) => if next.len() < rest.len() {
                read_attributes(
                    next,
                    Reading {
                        group: reading.group,
                        last: Some(name),
                        attributes: with_value(
                            reading.attributes,
                            reading.group,
                            rest[0],
                            name,
                            value,
                        ),
                    },
                )
            } else {
                Err(IppError::UnexpectedEnd)
            },
        }
    }
}

/// What a request body says.
pub open spec fn parse_request(body: Seq<u8>) -> Result<RequestView, IppError> {
    if body.len() < 9 {
        Err(IppError::TooShort)
    } else {
        match read_attributes(body.skip(8), reading_start()) {
            Err(error) => Err(error),
            Ok((attributes, document)) => Ok(
                RequestView {
                    version: (body[0], body[1]),
                    operation: value16(body[2], body[3]),
                    request_id: value32(body[4], body[5], body[6], body[7]),
                    attributes,
                    document_offset: (body.len() - document.len()) as nat,
                },
            ),
        }
    }
}

/// The text of the first value of an attribute.
pub open spec fn string_of(attributes: Attributes, name: Seq<char>) -> Option<Seq<char>> {
    if attributes.contains_key(name) && attributes[name].values.len() > 0 {
        Some(lossy_text(attributes[name].values[0]))
    } else {
        None
    }
}

/// The number in the first value of an attribute, where that has four bytes.
pub open spec fn integer_of(attributes: Attributes, name: Seq<char>) -> Option<i32> {
    if attributes.contains_key(name) && attributes[name].values.len() > 0
        && attributes[name].values[0].len() == 4 {
        let v = attributes[name].values[0];
        Some(signed(value32(v[0], v[1], v[2], v[3])))
    } else {
        None
    }
}

/// Reads a number of two bytes at `index` and moves `index` behind it.
pub fn read_u16(body: &[u8], index: &mut usize) -> (value: Result<u16, IppError>)
    ensures
        *old(index) + 2 <= body@.len() ==> value == Ok::<u16, IppError>(
            value16(body@[*old(index) as int], body@[*old(index) + 1]),
        ) && *final(index) == *old(index) + 2,
        *old(index) + 2 > body@.len() ==> value == Err::<u16, IppError>(IppError::UnexpectedEnd)
            && *final(index) == *old(index),
{
    if body.len() < 2 || *index > body.len() - 2 {
        return Err(IppError::UnexpectedEnd);
    }
    let value = read16(body[*index], body[*index + 1]);
    *index = *index + 2;
    Ok(value)
}

/// Whether every attribute has a name and a value.
pub open spec fn attributes_complete(attributes: Attributes) -> bool {
    forall|name: Seq<char>| #[trigger]
        attributes.contains_key(name) ==> name.len() > 0 && attributes[name].values.len() > 0
}

/// Reads the value whose tag stands at `index`: its name, its bytes, and where it
/// ends.
fn take_value(body: &[u8], index: usize, last: &Option<String>) -> (taken: Result<
    (String, Vec<u8>, usize),
    IppError,
>)
    requires
        index < body@.len(),
    ensures
        match taken {
            Ok((name, value, end)) => {
                &&& index < end <= body@.len()
                &&& read_value(body@.skip(index as int), option_text(*last)) == Ok::<
                    (Seq<char>, Seq<u8>, Seq<u8>),
                    IppError,
                >((name@, value@, body@.skip(end as int)))
                &&& (last matches Some(text) ==> text@.len() > 0) ==> name@.len() > 0
            },
            Err(error) => read_value(body@.skip(index as int), option_text(*last)) == Err::<
                (Seq<char>, Seq<u8>, Seq<u8>),
                IppError,
            >(error),
        },
{
    let ghost rest = body@.skip(index as int);
    let total = body.len();
    let mut at: usize = index + 1;
    let name_len = match read_u16(body, &mut at) {
        Ok(len) => len as usize,
        Err(error) => {
            return Err(error);
        },
    };
    if name_len > total - at {
        return Err(IppError::InvalidNameLength);
    }
    let name = if name_len == 0 {
        match last {
            Some(name) => name.clone(),
            None => {
                return Err(IppError::NoPredecessor);
            },
        }
    } else {
        let bytes = slice_subrange(body, at, at + name_len);
        assert(bytes@ =~= rest.subrange(3, 3 + name_len));
        from_utf8_lossy(bytes)
    };
    at = at + name_len;
    let value_len = match read_u16(body, &mut at) {
        Ok(len) => len as usize,
        Err(error) => {
            return Err(error);
        },
    };
    if value_len > total - at {
        return Err(IppError::InvalidValueLength);
    }
    let value = copy_range(body, at, at + value_len);
    let end = at + value_len;
    assert(value@ =~= rest.subrange(5 + name_len, 5 + name_len + value_len));
    assert(rest.skip(5 + name_len + value_len) =~= body@.skip(end as int));
    Ok((name, value, end))
}

/// Adds a value to the attributes of a request.
fn add_value(
    attributes: &mut NameMap<ParsedAttribute>,
    group: u8,
    tag: u8,
    name: String,
    value: Vec<u8>,
)
    ensures
        final(attributes)@ == with_value(old(attributes)@, group, tag, name@, value@),
{
    match attributes.remove(name.as_str()) {
        Some(known) => {
            let mut known = known;
            let ghost before = known.values@;
            known.values.push(value);
            let ghost after = known@;
            assert(value_bytes(known.values@) =~= value_bytes(before).push(value@));
            attributes.insert(name, known);
            assert(attributes@ =~= old(attributes)@.insert(name@, after));
        },
        None => {
            let mut values: Vec<Vec<u8>> = Vec::new();
            values.push(value);
            assert(value_bytes(values@) =~= seq![value@]);
            attributes.insert(name, ParsedAttribute { group, tag, values });
        },
    }
}

impl ParsedIppRequest {
    /// Reads a request.
    pub fn parse(body: &[u8]) -> (request: Result<Self, IppError>)
        ensures
            match request {
                Ok(r) => {
                    &&& parse_request(body@) == Ok::<RequestView, IppError>(r@)
                    &&& r.document_offset <= body@.len()
                    &&& attributes_complete(r@.attributes)
                },
                Err(error) => parse_request(body@) == Err::<RequestView, IppError>(error),
            },
    {
        if body.len() < 9 {
            return Err(IppError::TooShort);
        }
        let version_major = body[0];
        let version_minor = body[1];
        let operation = read16(body[2], body[3]);
        let request_id = read32(body[4], body[5], body[6], body[7]);

        let mut index: usize = 8;
        let mut current_group: u8 = 0;
        let mut last_name: Option<String> = None;
        let mut attributes: NameMap<ParsedAttribute> = NameMap::new();

        while index < body.len()
            invariant
                8 <= index <= body@.len(),
                read_attributes(body@.skip(8), reading_start()) == read_attributes(
                    body@.skip(index as int),
                    Reading {
                        group: current_group,
                        last: option_text(last_name),
                        attributes: attributes@,
                    },
                ),
                attributes_complete(attributes@),
                last_name matches Some(name) ==> name@.len() > 0,
                version_major == body@[0],
                version_minor == body@[1],
                operation == value16(body@[2], body@[3]),
                request_id == value32(body@[4], body@[5], body@[6], body@[7]),
            decreases body@.len() - index,
        {
            let ghost rest = body@.skip(index as int);
            let tag = body[index];
            index = index + 1;
            assert(rest.skip(1) =~= body@.skip(index as int));

            if tag == GROUP_END {
                return Ok(
                    ParsedIppRequest {
                        version_major,
                        version_minor,
                        operation,
                        request_id,
                        attributes,
                        document_offset: index,
                    },
                );
            }
            if 0x01 <= tag && tag <= 0x05 {
                current_group = tag;
                last_name = None;
                continue ;
            }
            match take_value(body, index - 1, &last_name) {
                Ok((name, value, end)) => {
                    index = end;
                    last_name = Some(name.clone());
                    add_value(&mut attributes, current_group, tag, name, value);
                },
                Err(error) => {
                    return Err(error);
                },
            }
        }
        Err(IppError::EndTagMissing)
    }

    /// The text of the first value of an attribute.
    pub fn get_string(&self, name: &str) -> (text: Option<String>)
        ensures
            option_text(text) == string_of(self@.attributes, name@),
    {
        match self.attributes.get(name) {
            Some(attribute) => if attribute.values.len() > 0 {
                Some(from_utf8_lossy(attribute.values[0].as_slice()))
            } else {
                None
            },
            None => None,
        }
    }

    /// The number in the first value of an attribute, where that has four
    /// bytes.
    pub fn get_i32(&self, name: &str) -> (number: Option<i32>)
        ensures
            number == integer_of(self@.attributes, name@),
    {
        match self.attributes.get(name) {
            Some(attribute) => if attribute.values.len() > 0 && attribute.values[0].len() == 4 {
                let value = &attribute.values[0];
                Some(read_signed(value[0], value[1], value[2], value[3]))
            } else {
                None
            },
            None => None,
        }
    }

    /// The document of the request that was read from `body`.
    pub fn document<'a>(&self, body: &'a [u8]) -> (document: &'a [u8])
        requires
            self@.document_offset <= body@.len(),
        ensures
            document@ == body@.skip(self@.document_offset as int),
    {
        let document = slice_subrange(body, self.document_offset, body.len());
        assert(document@ =~= body@.skip(self.document_offset as int));
        document
    }

    /// The protocol version of the request.
    pub fn version(&self) -> (version: (u8, u8))
        ensures
            version == self@.version,
    {
        (self.version_major, self.version_minor)
    }
}

} // verus!
