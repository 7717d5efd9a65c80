//! IPP messages byte by byte: where everything stands that is written, and what
//! is read where.

use super::message::{
    encode_attr, encode_attrs, encode_groups, encode_header, encode_message, encode_more,
    encode_value, len16, Attr, Group, Message,
};
use super::request::{
    integer_of, parse_request, read_attributes, read_value, reading_start, string_of, with_value,
    AttributeView, Attributes, IppError, Reading, RequestView,
};
use super::round_trip::{
    gathered, legible, legible_attr, legible_attrs, legible_group, message_round_trip, with_attrs,
    with_values,
};
use crate::text::lossy_text;
use crate::wire::{be16, be16_round_trip, be32, be32_round_trip};
use vstd::prelude::*;
use vstd::utf8::encode_utf8;

verus! {

// What is written where -----------------------------------------------------

/// A value stands on the wire as its tag, the length of its name in two bytes,
/// its name, its own length in two bytes, and itself. Of a length that two bytes
/// do not hold the low sixteen bits are written.
pub proof fn value_on_the_wire(tag: u8, name: Seq<u8>, value: Seq<u8>)
    ensures
        ({
            let bytes = encode_value(tag, name, value);
            let n = name.len() as int;
            let v = value.len() as int;
            &&& bytes.len() == 5 + n + v
            &&& bytes[0] == tag
            &&& bytes[1] * 256 + bytes[2] == n % 0x1_0000
            &&& bytes.subrange(3, 3 + n) == name
            &&& bytes[3 + n] * 256 + bytes[4 + n] == v % 0x1_0000
            &&& bytes.subrange(5 + n, 5 + n + v) == value
        }),
{
    let bytes = encode_value(tag, name, value);
    let n = name.len() as int;
    let v = value.len() as int;
    be16_round_trip(len16(name.len()));
    be16_round_trip(len16(value.len()));
    assert(bytes[1] == be16(len16(name.len()))[0] && bytes[2] == be16(len16(name.len()))[1]);
    assert(bytes[3 + n] == be16(len16(value.len()))[0]);
    assert(bytes[4 + n] == be16(len16(value.len()))[1]);
    assert(bytes.subrange(3, 3 + n) =~= name);
    assert(bytes.subrange(5 + n, 5 + n + v) =~= value);
}

/// An attribute stands on the wire as its first value under its name, and every
/// further value behind it without a name.
pub proof fn attribute_on_the_wire(tag: u8, name: Seq<char>, values: Seq<Seq<u8>>, value: Seq<u8>)
    ensures
        encode_attr(Attr { tag, name, values: Seq::empty() }) == Seq::<u8>::empty(),
        encode_attr(Attr { tag, name, values: seq![value] }) == encode_value(
            tag,
            encode_utf8(name),
            value,
        ),
        values.len() > 0 ==> encode_attr(Attr { tag, name, values: values.push(value) })
            == encode_attr(Attr { tag, name, values }) + encode_value(tag, Seq::empty(), value),
{
    reveal(encode_attr);
    assert(seq![value].drop_first() =~= Seq::<Seq<u8>>::empty());
    assert(encode_attr(Attr { tag, name, values: seq![value] }) =~= encode_value(
        tag,
        encode_utf8(name),
        value,
    ));
    if values.len() > 0 {
        let all = values.push(value);
        let first = encode_value(tag, encode_utf8(name), values[0]);
        assert(all.drop_first() =~= values.drop_first().push(value));
        assert(all.drop_first().drop_last() =~= values.drop_first());
        assert(first + (encode_more(tag, values.drop_first()) + encode_value(
            tag,
            Seq::empty(),
            value,
        )) =~= first + encode_more(tag, values.drop_first()) + encode_value(
            tag,
            Seq::empty(),
            value,
        ));
    }
}

/// Attributes stand one behind the other, and groups too, each behind its tag.
pub proof fn groups_on_the_wire(attrs: Seq<Attr>, attr: Attr, groups: Seq<Group>, group: Group)
    ensures
        encode_attrs(Seq::empty()) == Seq::<u8>::empty(),
        encode_attrs(attrs.push(attr)) == encode_attrs(attrs) + encode_attr(attr),
        encode_groups(Seq::empty()) == Seq::<u8>::empty(),
        encode_groups(groups.push(group)) == encode_groups(groups) + (seq![group.tag]
            + encode_attrs(group.attrs)),
{
    reveal(encode_attrs);
    assert(attrs.push(attr).drop_last() =~= attrs);
    assert(groups.push(group).drop_last() =~= groups);
}

/// A message stands on the wire as its version in two bytes, its code in two, its
/// number in four, its groups, and the byte three.
pub proof fn message_on_the_wire(m: Message)
    ensures
        ({
            let bytes = encode_message(m);
            let n = encode_groups(m.groups).len() as int;
            &&& bytes.len() == 9 + n
            &&& bytes[0] == m.version.0
            &&& bytes[1] == m.version.1
            &&& bytes[2] * 256 + bytes[3] == m.code
            &&& bytes[4] * 0x100_0000 + bytes[5] * 0x1_0000 + bytes[6] * 0x100 + bytes[7]
                == m.request_id
            &&& bytes.subrange(8, 8 + n) == encode_groups(m.groups)
            &&& bytes[8 + n] == 3
        }),
{
    let bytes = encode_message(m);
    let n = encode_groups(m.groups).len() as int;
    let header = encode_header(m.version, m.code, m.request_id);
    be16_round_trip(m.code);
    be32_round_trip(m.request_id);
    assert(header.len() == 8);
    assert(bytes[2] == be16(m.code)[0] && bytes[3] == be16(m.code)[1]);
    assert(bytes[4] == be32(m.request_id)[0] && bytes[5] == be32(m.request_id)[1]);
    assert(bytes[6] == be32(m.request_id)[2] && bytes[7] == be32(m.request_id)[3]);
    assert(bytes.subrange(8, 8 + n) =~= encode_groups(m.groups));
}

// What is read where --------------------------------------------------------

/// Of a request are read its version from the first two bytes, its operation from
/// the next two and its number from the next four; its document begins behind a
/// byte three.
pub proof fn header_is_read(body: Seq<u8>)
    requires
        parse_request(body) is Ok,
    ensures
        ({
            let request = parse_request(body)->Ok_0;
            &&& request.version == (body[0], body[1])
            &&& request.operation == body[2] * 256 + body[3]
            &&& request.request_id == body[4] * 0x100_0000 + body[5] * 0x1_0000 + body[6] * 0x100
                + body[7]
            &&& 9 <= request.document_offset <= body.len()
            &&& body[request.document_offset - 1] == 3
        }),
{
    let rest = body.skip(8);
    ends_with_tag(rest, reading_start());
    let n = parse_request(body)->Ok_0.document_offset - 8;
    assert(rest[n - 1] == body[8 + n - 1]);
}

/// Behind the header no group is open and no attribute is there yet. What reading
/// leaves over is the document; what goes wrong is why the request is refused.
pub proof fn attributes_follow_the_header(body: Seq<u8>)
    requires
        body.len() >= 9,
    ensures
        ({
            let start = Reading { group: 0, last: None, attributes: Map::empty() };
            match read_attributes(body.skip(8), start) {
                Ok((attributes, document)) => {
                    &&& parse_request(body) matches Ok(request)
                    &&& request.attributes == attributes
                    &&& body.skip(request.document_offset as int) == document
                },
                Err(error) => parse_request(body) == Err::<RequestView, IppError>(error),
            }
        }),
{
    if parse_request(body) is Ok {
        let offset = parse_request(body)->Ok_0.document_offset as int;
        document_is_left(body.skip(8), reading_start());
        assert(body.skip(8).skip(offset - 8) =~= body.skip(offset));
    }
}

/// What reading attributes leaves over is the end of what there was.
proof fn document_is_left(rest: Seq<u8>, reading: Reading)
    requires
        read_attributes(rest, reading) is Ok,
    ensures
        ({
            let document = read_attributes(rest, reading)->Ok_0.1;
            document.len() < rest.len() && document == rest.skip(rest.len() - document.len())
        }),
    decreases rest.len(),
{
    let document = read_attributes(rest, reading)->Ok_0.1;
    let n = rest.len() - document.len();
    if rest[0] == 3 {
    } else if 1 <= rest[0] <= 5 {
        let after = Reading { group: rest[0], last: None, attributes: reading.attributes };
        document_is_left(rest.skip(1), after);
        assert(rest.skip(1).skip(n - 1) =~= rest.skip(n));
    } else {
        let (name, value, next) = read_value(rest, reading.last)->Ok_0;
        let after = Reading {
            group: reading.group,
            last: Some(name),
            attributes: with_value(reading.attributes, reading.group, rest[0], name, value),
        };
        document_is_left(next, after);
        let step = rest.len() - next.len();
        assert(next =~= rest.skip(step));
        assert(rest.skip(step).skip(n - step) =~= rest.skip(n));
    }
}

/// Reading attributes stops behind a byte three.
proof fn ends_with_tag(rest: Seq<u8>, reading: Reading)
    requires
        read_attributes(rest, reading) is Ok,
    ensures
        ({
            let n = rest.len() - read_attributes(rest, reading)->Ok_0.1.len();
            0 < n <= rest.len() && rest[n - 1] == 3
        }),
    decreases rest.len(),
{
    let document = read_attributes(rest, reading)->Ok_0.1;
    if rest[0] == 3 {
        assert(document == rest.skip(1));
    } else if 1 <= rest[0] <= 5 {
        let after = Reading { group: rest[0], last: None, attributes: reading.attributes };
        ends_with_tag(rest.skip(1), after);
        let n = rest.len() - document.len();
        assert(rest.skip(1)[n - 2] == rest[n - 1]);
    } else {
        let (name, value, next) = read_value(rest, reading.last)->Ok_0;
        let after = Reading {
            group: reading.group,
            last: Some(name),
            attributes: with_value(reading.attributes, reading.group, rest[0], name, value),
        };
        ends_with_tag(next, after);
        let step = rest.len() - next.len();
        let n = rest.len() - document.len();
        assert(next =~= rest.skip(step));
        assert(rest.skip(step)[n - step - 1] == rest[n - 1]);
    }
}

/// A body of less than nine bytes is too short for a request, and none other is.
pub proof fn short_bodies_are_refused(body: Seq<u8>)
    ensures
        body.len() < 9 <==> parse_request(body) == Err::<RequestView, IppError>(IppError::TooShort),
{
    if body.len() >= 9 {
        never_too_short(body.skip(8), reading_start());
    }
}

/// What is read behind a header is never too short for one.
proof fn never_too_short(rest: Seq<u8>, reading: Reading)
    ensures
        read_attributes(rest, reading) != Err::<(Attributes, Seq<u8>), IppError>(
            IppError::TooShort,
        ),
    decreases rest.len(),
{
    if rest.len() > 0 && rest[0] != 3 {
        if 1 <= rest[0] <= 5 {
            never_too_short(
                rest.skip(1),
                Reading { group: rest[0], last: None, attributes: reading.attributes },
            );
        } else if read_value(rest, reading.last) is Ok {
            let (name, value, next) = read_value(rest, reading.last)->Ok_0;
            if next.len() < rest.len() {
                never_too_short(
                    next,
                    Reading {
                        group: reading.group,
                        last: Some(name),
                        attributes: with_value(
                            reading.attributes,
                            reading.group,
                            rest[0],
                            name,
                            value,
                        ),
                    },
                );
            }
        }
    }
}

/// A byte from one to five is the start of a group, but for three, which ends
/// the attributes. Behind a group tag, a value without a name has none before it.
pub proof fn groups_are_read(tag: u8, rest: Seq<u8>, reading: Reading)
    requires
        tag == 1 || tag == 2 || tag == 4 || tag == 5,
    ensures
        read_attributes(seq![3u8] + rest, reading) == Ok::<_, IppError>(
            (reading.attributes, rest),
        ),
        read_attributes(seq![tag] + rest, reading) == read_attributes(
            rest,
            Reading { group: tag, last: None, attributes: reading.attributes },
        ),
        read_attributes(Seq::empty(), reading) == Err::<(Attributes, Seq<u8>), IppError>(
            IppError::EndTagMissing,
        ),
{
    assert((seq![3u8] + rest).skip(1) =~= rest);
    assert((seq![tag] + rest).skip(1) =~= rest);
}

/// Anything else is the start of a value: a tag, two bytes that count those of
/// the name, the name, two bytes that count those of the value, the value. One
/// without a name belongs to the attribute before it.
pub proof fn values_are_read(
    tag: u8,
    name: Seq<u8>,
    value: Seq<u8>,
    rest: Seq<u8>,
    reading: Reading,
)
    requires
        tag == 0 || tag > 5,
        name.len() < 0x1_0000,
        value.len() < 0x1_0000,
        name.len() == 0 ==> reading.last is Some,
    ensures
        ({
            let bytes = encode_value(tag, name, value);
            let called = if name.len() == 0 {
                reading.last->0
            } else {
                lossy_text(name)
            };
            read_attributes(bytes + rest, reading) == read_attributes(
                rest,
                Reading {
                    group: reading.group,
                    last: Some(called),
                    attributes: with_value(reading.attributes, reading.group, tag, called, value),
                },
            )
        }),
{
    let bytes = encode_value(tag, name, value);
    let all = bytes + rest;
    let n = name.len() as int;
    let v = value.len() as int;
    value_on_the_wire(tag, name, value);
    assert(all[0] == bytes[0] && all[1] == bytes[1] && all[2] == bytes[2]);
    assert(all[3 + n] == bytes[3 + n] && all[4 + n] == bytes[4 + n]);
    assert(all.subrange(3, 3 + n) =~= name);
    assert(all.subrange(5 + n, 5 + n + v) =~= value);
    assert(all.skip(5 + n + v) =~= rest);
}

/// Where a value is cut short, reading ends with what is wrong: its lengths are
/// not there, or count more than there is; one without a name has none before it.
pub proof fn cut_values_are_refused(rest: Seq<u8>, reading: Reading)
    requires
        rest.len() > 0,
        rest[0] == 0 || rest[0] > 5,
    ensures
        ({
            let read = read_attributes(rest, reading);
            let n = rest[1] * 256 + rest[2];
            let v = rest[3 + n] * 256 + rest[4 + n];
            if rest.len() < 3 {
                read == Err::<(Attributes, Seq<u8>), IppError>(IppError::UnexpectedEnd)
            } else if rest.len() < 3 + n {
                read == Err::<(Attributes, Seq<u8>), IppError>(IppError::InvalidNameLength)
            } else if n == 0 && reading.last is None {
                read == Err::<(Attributes, Seq<u8>), IppError>(IppError::NoPredecessor)
            } else if rest.len() < 5 + n {
                read == Err::<(Attributes, Seq<u8>), IppError>(IppError::UnexpectedEnd)
            } else {
                rest.len() < 5 + n + v ==> read == Err::<(Attributes, Seq<u8>), IppError>(
                    IppError::InvalidValueLength,
                )
            }
        }),
{
}

// Attributes by name --------------------------------------------------------

/// What is looked up under a name is the first value of the attribute: its text,
/// or its number, where it has four bytes. The number is negative from half of
/// the range on.
pub proof fn first_value_counts(attributes: Attributes, name: Seq<char>)
    ensures
        !attributes.contains_key(name) ==> string_of(attributes, name) is None && integer_of(
            attributes,
            name,
        ) is None,
        attributes.contains_key(name) && attributes[name].values.len() > 0 ==> {
            let first = attributes[name].values[0];
            let number = first[0] * 0x100_0000 + first[1] * 0x1_0000 + first[2] * 0x100 + first[3];
            &&& string_of(attributes, name) == Some(lossy_text(first))
            &&& integer_of(attributes, name) is Some <==> first.len() == 4
            &&& integer_of(attributes, name) matches Some(read) ==> read == if number
                < 0x8000_0000 {
                number
            } else {
                number - 0x1_0000_0000
            }
        },
{
}

/// A message without groups reads as one without attributes.
pub proof fn no_groups_no_attributes(m: Message, document: Seq<u8>)
    requires
        m.groups.len() == 0,
    ensures
        parse_request(encode_message(m) + document) matches Ok(request) && request.attributes
            == Map::<Seq<char>, AttributeView>::empty(),
{
    assert(legible(m));
    message_round_trip(m, document);
}

/// A group without attributes changes nothing of what is read.
pub proof fn empty_group_changes_nothing(m: Message, tag: u8, document: Seq<u8>)
    requires
        legible(m),
        tag == 1 || tag == 2 || tag == 4 || tag == 5,
    ensures
        ({
            let more = Message {
                groups: m.groups.push(Group { tag, attrs: Seq::empty() }),
                ..m
            };
            &&& parse_request(encode_message(m) + document) matches Ok(was)
            &&& parse_request(encode_message(more) + document) matches Ok(is)
            &&& is.attributes == was.attributes
        }),
{
    let added = Group { tag, attrs: Seq::empty() };
    let more = Message { groups: m.groups.push(added), ..m };
    assert(legible(more)) by {
        assert forall|i: int| 0 <= i < more.groups.len() implies legible_group(
            #[trigger] more.groups[i],
        ) by {
            if i < m.groups.len() {
                assert(more.groups[i] == m.groups[i]);
            }
        }
    }
    message_round_trip(m, document);
    message_round_trip(more, document);
    assert(more.groups.drop_last() =~= m.groups);
}

/// More values under a name that is there are added to it, in order.
#[verifier::rlimit(40)]
proof fn values_added(
    attributes: Attributes,
    group: u8,
    tag: u8,
    name: Seq<char>,
    values: Seq<Seq<u8>>,
)
    ensures
        ({
            let after = with_values(attributes, group, tag, name, values);
            &&& forall|other: Seq<char>|
                other != name ==> {
                    &&& #[trigger] after.contains_key(other) == attributes.contains_key(other)
                    &&& attributes.contains_key(other) ==> after[other] == attributes[other]
                }
            &&& attributes.contains_key(name) ==> after.contains_key(name) && after[name] == (
            AttributeView {
                group: attributes[name].group,
                tag: attributes[name].tag,
                values: attributes[name].values + values,
            })
            &&& !attributes.contains_key(name) && values.len() > 0 ==> after.contains_key(name)
                && after[name] == (AttributeView { group, tag, values })
        }),
    decreases values.len(),
{
    if values.len() == 0 {
        if attributes.contains_key(name) {
            assert(attributes[name].values + values =~= attributes[name].values);
        }
    } else {
        let front = values.drop_last();
        values_added(attributes, group, tag, name, front);
        if attributes.contains_key(name) {
            assert((attributes[name].values + front).push(values.last()) =~=
                attributes[name].values + values);
        } else if front.len() > 0 {
            assert(front.push(values.last()) =~= values);
        } else {
            reveal_with_fuel(with_values, 2);
            assert(seq![values.last()] =~= values);
        }
    }
}

/// An attribute that is added to the last group of a message is read under its
/// name, with that group, its tag and its values; where the name has been there
/// before, the values are added to those before, and the first group and tag stay.
/// No other name is touched.
#[verifier::rlimit(40)]
pub proof fn added_attribute_is_read(
    m: Message,
    tag: u8,
    attrs: Seq<Attr>,
    added: Attr,
    document: Seq<u8>,
)
    requires
        legible(m),
        tag == 1 || tag == 2 || tag == 4 || tag == 5,
        legible_attrs(attrs),
        legible_attr(added),
        added.values.len() > 0,
    ensures
        ({
            let before = Message { groups: m.groups.push(Group { tag, attrs }), ..m };
            let after = Message {
                groups: m.groups.push(Group { tag, attrs: attrs.push(added) }),
                ..m
            };
            &&& parse_request(encode_message(before) + document) matches Ok(was)
            &&& parse_request(encode_message(after) + document) matches Ok(is)
            &&& is.attributes.contains_key(added.name)
            &&& is.attributes[added.name] == if was.attributes.contains_key(added.name) {
                AttributeView {
                    group: was.attributes[added.name].group,
                    tag: was.attributes[added.name].tag,
                    values: was.attributes[added.name].values + added.values,
                }
            } else {
                AttributeView { group: tag, tag: added.tag, values: added.values }
            }
            &&& forall|other: Seq<char>|
                other != added.name ==> {
                    &&& #[trigger] is.attributes.contains_key(other)
                        == was.attributes.contains_key(other)
                    &&& was.attributes.contains_key(other) ==> is.attributes[other]
                        == was.attributes[other]
                }
        }),
{
    let more = attrs.push(added);
    let before = Message { groups: m.groups.push(Group { tag, attrs }), ..m };
    let after = Message { groups: m.groups.push(Group { tag, attrs: more }), ..m };
    assert(legible_attrs(more)) by {
        assert forall|i: int| 0 <= i < more.len() implies legible_attr(#[trigger] more[i]) by {
            if i < attrs.len() {
                assert(more[i] == attrs[i]);
            }
        }
    }
    assert(legible(before)) by {
        assert forall|i: int| 0 <= i < before.groups.len() implies legible_group(
            #[trigger] before.groups[i],
        ) by {
            if i < m.groups.len() {
                assert(before.groups[i] == m.groups[i]);
            }
        }
    }
    assert(legible(after)) by {
        assert forall|i: int| 0 <= i < after.groups.len() implies legible_group(
            #[trigger] after.groups[i],
        ) by {
            if i < m.groups.len() {
                assert(after.groups[i] == m.groups[i]);
            }
        }
    }
    message_round_trip(before, document);
    message_round_trip(after, document);
    assert(before.groups.drop_last() =~= m.groups);
    assert(after.groups.drop_last() =~= m.groups);
    assert(more.drop_last() =~= attrs);
    values_added(
        with_attrs(gathered(m.groups), tag, attrs),
        tag,
        added.tag,
        added.name,
        added.values,
    );
}

} // verus!
