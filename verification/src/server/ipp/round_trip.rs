//! What is read back of a message that was written.

use super::message::{
    encode_attr, encode_attrs, encode_groups, encode_header, encode_message, encode_more,
    encode_value, is_delimiter, len16, Attr, Group, Message, GROUP_END,
};
use super::request::{
    parse_request, read_attributes, read_value, reading_start, with_value, AttributeView,
    Attributes, IppError, Reading, RequestView,
};
use crate::text::{lossy_text, lossy_text_of_encoded};
use crate::wire::{be16, be16_round_trip, be32, be32_round_trip};
use vstd::prelude::*;
use vstd::utf8::encode_utf8;

verus! {

// What can be written and read back -----------------------------------------

/// Whether a length can be written in sixteen bits.
pub open spec fn fits16(n: nat) -> bool {
    n < 0x1_0000
}

/// Whether an attribute can be read back: where it has values, it has a name,
/// its tag is none that opens or closes a group, and its lengths can be written.
pub open spec fn legible_attr(attr: Attr) -> bool {
    attr.values.len() > 0 ==> {
        &&& !is_delimiter(attr.tag)
        &&& attr.name.len() > 0
        &&& fits16(encode_utf8(attr.name).len())
        &&& forall|i: int| 0 <= i < attr.values.len() ==> fits16((#[trigger] attr.values[i]).len())
    }
}

/// Whether all attributes can be read back.
pub open spec fn legible_attrs(attrs: Seq<Attr>) -> bool {
    forall|i: int| 0 <= i < attrs.len() ==> legible_attr(#[trigger] attrs[i])
}

/// Whether a group can be read back.
pub open spec fn legible_group(group: Group) -> bool {
    &&& is_delimiter(group.tag)
    &&& group.tag != GROUP_END
    &&& legible_attrs(group.attrs)
}

/// Whether a message can be read back.
pub open spec fn legible(m: Message) -> bool {
    forall|i: int| 0 <= i < m.groups.len() ==> legible_group(#[trigger] m.groups[i])
}

// What is read --------------------------------------------------------------

/// `attributes` with more values of one attribute.
pub open spec fn with_values(
    attributes: Attributes,
    group: u8,
    tag: u8,
    name: Seq<char>,
    values: Seq<Seq<u8>>,
) -> Attributes
    decreases values.len(),
{
    if values.len() == 0 {
        attributes
    } else {
        with_value(
            with_values(attributes, group, tag, name, values.drop_last()),
            group,
            tag,
            name,
            values.last(),
        )
    }
}

/// `attributes` with more attributes of one group.
pub open spec fn with_attrs(attributes: Attributes, group: u8, attrs: Seq<Attr>) -> Attributes
    decreases attrs.len(),
{
    if attrs.len() == 0 {
        attributes
    } else {
        with_values(
            with_attrs(attributes, group, attrs.drop_last()),
            group,
            attrs.last().tag,
            attrs.last().name,
            attrs.last().values,
        )
    }
}

/// The attributes of groups, by name.
pub open spec fn gathered(groups: Seq<Group>) -> Attributes
    decreases groups.len(),
{
    if groups.len() == 0 {
        Map::empty()
    } else {
        with_attrs(gathered(groups.drop_last()), groups.last().tag, groups.last().attrs)
    }
}

// Reading step by step ------------------------------------------------------

/// A text with characters has bytes.
proof fn encoded_name_not_empty(name: Seq<char>)
    requires
        name.len() > 0,
    ensures
        encode_utf8(name).len() > 0,
{
    if encode_utf8(name).len() == 0 {
        assert(encode_utf8(name) =~= encode_utf8(Seq::<char>::empty()));
        crate::text::encode_utf8_injective(name, Seq::<char>::empty());
    }
}

/// A value that was written is read, and what follows it is left.
proof fn value_read(tag: u8, name: Seq<u8>, value: Seq<u8>, tail: Seq<u8>, last: Option<Seq<char>>)
    requires
        fits16(name.len()),
        fits16(value.len()),
        name.len() > 0 || last is Some,
    ensures
        read_value(encode_value(tag, name, value) + tail, last) == Ok::<
            (Seq<char>, Seq<u8>, Seq<u8>),
            IppError,
        >(
            (
                if name.len() == 0 {
                    last->0
                } else {
                    lossy_text(name)
                },
                value,
                tail,
            ),
        ),
        (encode_value(tag, name, value) + tail)[0] == tag,
        (encode_value(tag, name, value) + tail).len() > tail.len(),
{
    let n = name.len() as int;
    let v = value.len() as int;
    let rest = encode_value(tag, name, value) + tail;
    be16_round_trip(len16(name.len()));
    be16_round_trip(len16(value.len()));
    assert(rest.len() == 5 + n + v + tail.len());
    assert(rest[1] == be16(len16(name.len()))[0] && rest[2] == be16(len16(name.len()))[1]);
    assert(rest.subrange(3, 3 + n) =~= name);
    assert(rest[3 + n] == be16(len16(value.len()))[0]);
    assert(rest[4 + n] == be16(len16(value.len()))[1]);
    assert(rest.subrange(5 + n, 5 + n + v) =~= value);
    assert(rest.skip(5 + n + v) =~= tail);
}

/// Values without a name are read as values of the name before them.
proof fn more_read(tag: u8, name: Seq<char>, values: Seq<Seq<u8>>, tail: Seq<u8>, reading: Reading)
    requires
        !is_delimiter(tag),
        forall|i: int| 0 <= i < values.len() ==> fits16((#[trigger] values[i]).len()),
        reading.last == Some(name),
    ensures
        read_attributes(encode_more(tag, values) + tail, reading) == read_attributes(
            tail,
            Reading {
                attributes: with_values(reading.attributes, reading.group, tag, name, values),
                ..reading
            },
        ),
    decreases values.len(),
{
    if values.len() == 0 {
        assert(encode_more(tag, values) + tail =~= tail);
    } else {
        let value = encode_value(tag, Seq::empty(), values.last());
        let front = values.drop_last();
        assert(encode_more(tag, values) + tail =~= encode_more(tag, front) + (value + tail));
        assert forall|i: int| 0 <= i < front.len() implies fits16((#[trigger] front[i]).len()) by {
            assert(front[i] == values[i]);
        }
        more_read(tag, name, front, value + tail, reading);
        value_read(tag, Seq::empty(), values.last(), tail, reading.last);
    }
}

/// The first value and the others of an attribute, together.
proof fn first_and_more(
    attributes: Attributes,
    group: u8,
    tag: u8,
    name: Seq<char>,
    values: Seq<Seq<u8>>,
)
    requires
        values.len() > 0,
    ensures
        with_values(
            with_value(attributes, group, tag, name, values[0]),
            group,
            tag,
            name,
            values.drop_first(),
        ) == with_values(attributes, group, tag, name, values),
    decreases values.len(),
{
    let rest = values.drop_first();
    if rest.len() == 0 {
        reveal_with_fuel(with_values, 2);
        assert(values.last() == values[0]);
    } else {
        let front = values.drop_last();
        assert(rest.drop_last() =~= front.drop_first());
        assert(rest.last() == values.last());
        first_and_more(attributes, group, tag, name, front);
    }
}

/// An attribute that was written is read.
proof fn attr_read(attr: Attr, tail: Seq<u8>, reading: Reading)
    requires
        legible_attr(attr),
        attr.values.len() > 0,
    ensures
        read_attributes(encode_attr(attr) + tail, reading) == read_attributes(
            tail,
            Reading {
                group: reading.group,
                last: Some(attr.name),
                attributes: with_values(
                    reading.attributes,
                    reading.group,
                    attr.tag,
                    attr.name,
                    attr.values,
                ),
            },
        ),
{
    reveal(encode_attr);
    let name = encode_utf8(attr.name);
    let first = encode_value(attr.tag, name, attr.values[0]);
    let others = attr.values.drop_first();
    let more = encode_more(attr.tag, others);
    assert(encode_attr(attr) + tail =~= first + (more + tail));
    encoded_name_not_empty(attr.name);
    lossy_text_of_encoded(attr.name);
    value_read(attr.tag, name, attr.values[0], more + tail, reading.last);
    let after_first = Reading {
        group: reading.group,
        last: Some(attr.name),
        attributes: with_value(
            reading.attributes,
            reading.group,
            attr.tag,
            attr.name,
            attr.values[0],
        ),
    };
    assert forall|i: int| 0 <= i < others.len() implies fits16((#[trigger] others[i]).len()) by {
        assert(others[i] == attr.values[i + 1]);
    }
    more_read(attr.tag, attr.name, others, tail, after_first);
    first_and_more(reading.attributes, reading.group, attr.tag, attr.name, attr.values);
}

/// The name that a value without a name would take behind `attrs`: that of the
/// last attribute with a value.
spec fn last_name(attrs: Seq<Attr>, before: Option<Seq<char>>) -> Option<Seq<char>>
    decreases attrs.len(),
{
    if attrs.len() == 0 {
        before
    } else if attrs.last().values.len() > 0 {
        Some(attrs.last().name)
    } else {
        last_name(attrs.drop_last(), before)
    }
}

/// Attributes that were written are read.
proof fn attrs_read(attrs: Seq<Attr>, tail: Seq<u8>, reading: Reading)
    requires
        legible_attrs(attrs),
    ensures
        read_attributes(encode_attrs(attrs) + tail, reading) == read_attributes(
            tail,
            Reading {
                group: reading.group,
                last: last_name(attrs, reading.last),
                attributes: with_attrs(reading.attributes, reading.group, attrs),
            },
        ),
    decreases attrs.len(),
{
    reveal(encode_attrs);
    if attrs.len() == 0 {
        assert(encode_attrs(attrs) + tail =~= tail);
    } else {
        let front = attrs.drop_last();
        let last = encode_attr(attrs.last());
        assert(encode_attrs(attrs) + tail =~= encode_attrs(front) + (last + tail));
        assert forall|i: int| 0 <= i < front.len() implies legible_attr(#[trigger] front[i]) by {
            assert(front[i] == attrs[i]);
        }
        attrs_read(front, last + tail, reading);
        if attrs.last().values.len() > 0 {
            attr_read(
                attrs.last(),
                tail,
                Reading {
                    group: reading.group,
                    last: last_name(front, reading.last),
                    attributes: with_attrs(reading.attributes, reading.group, front),
                },
            );
        } else {
            reveal(encode_attr);
            assert(last + tail =~= tail);
        }
    }
}

/// The group that is open behind `groups`, and the name that a value without a
/// name would take there.
spec fn reading_after(groups: Seq<Group>) -> Reading {
    if groups.len() == 0 {
        reading_start()
    } else {
        Reading {
            group: groups.last().tag,
            last: last_name(groups.last().attrs, None),
            attributes: gathered(groups),
        }
    }
}

/// Groups that were written are read.
proof fn groups_read(groups: Seq<Group>, tail: Seq<u8>)
    requires
        forall|i: int| 0 <= i < groups.len() ==> legible_group(#[trigger] groups[i]),
    ensures
        read_attributes(encode_groups(groups) + tail, reading_start()) == read_attributes(
            tail,
            reading_after(groups),
        ),
    decreases groups.len(),
{
    if groups.len() == 0 {
        assert(encode_groups(groups) + tail =~= tail);
    } else {
        let front = groups.drop_last();
        let group = groups.last();
        let attrs = encode_attrs(group.attrs);
        let last = seq![group.tag] + attrs;
        assert(encode_groups(groups) + tail =~= encode_groups(front) + (last + tail));
        assert forall|i: int| 0 <= i < front.len() implies legible_group(#[trigger] front[i]) by {
            assert(front[i] == groups[i]);
        }
        groups_read(front, last + tail);
        assert(legible_group(groups[groups.len() - 1]));
        assert((last + tail)[0] == group.tag);
        assert((last + tail).skip(1) =~= attrs + tail);
        attrs_read(
            group.attrs,
            tail,
            Reading { group: group.tag, last: None, attributes: reading_after(front).attributes },
        );
    }
}

// Finding an attribute by its name ------------------------------------------

/// Whether no attribute of `attrs` has the name `name`.
pub open spec fn unnamed(attrs: Seq<Attr>, name: Seq<char>) -> bool {
    forall|i: int| 0 <= i < attrs.len() ==> (#[trigger] attrs[i]).name != name
}

/// Values leave the attributes of other names as they are.
proof fn values_elsewhere(
    attributes: Attributes,
    group: u8,
    tag: u8,
    name: Seq<char>,
    values: Seq<Seq<u8>>,
    other: Seq<char>,
)
    requires
        name != other,
    ensures
        ({
            let after = with_values(attributes, group, tag, name, values);
            &&& after.contains_key(other) == attributes.contains_key(other)
            &&& after.contains_key(other) ==> after[other] == attributes[other]
        }),
    decreases values.len(),
{
    if values.len() > 0 {
        values_elsewhere(attributes, group, tag, name, values.drop_last(), other);
    }
}

/// Values under a new name are found under it.
proof fn values_found(
    attributes: Attributes,
    group: u8,
    tag: u8,
    name: Seq<char>,
    values: Seq<Seq<u8>>,
)
    requires
        !attributes.contains_key(name),
        values.len() > 0,
    ensures
        with_values(attributes, group, tag, name, values).contains_key(name),
        with_values(attributes, group, tag, name, values)[name] == (AttributeView {
            group,
            tag,
            values,
        }),
    decreases values.len(),
{
    let front = values.drop_last();
    if front.len() == 0 {
        reveal_with_fuel(with_values, 2);
        assert(values =~= seq![values.last()]);
    } else {
        values_found(attributes, group, tag, name, front);
        assert(values =~= front.push(values.last()));
    }
}

/// Attributes leave the attributes of other names as they are.
proof fn attrs_elsewhere(attributes: Attributes, group: u8, attrs: Seq<Attr>, other: Seq<char>)
    requires
        unnamed(attrs, other),
    ensures
        ({
            let after = with_attrs(attributes, group, attrs);
            &&& after.contains_key(other) == attributes.contains_key(other)
            &&& after.contains_key(other) ==> after[other] == attributes[other]
        }),
    decreases attrs.len(),
{
    if attrs.len() > 0 {
        let front = attrs.drop_last();
        let last = attrs.last();
        assert(attrs[attrs.len() - 1].name != other);
        assert forall|i: int| 0 <= i < front.len() implies (#[trigger] front[i]).name != other by {
            assert(front[i] == attrs[i]);
        }
        attrs_elsewhere(attributes, group, front, other);
        values_elsewhere(
            with_attrs(attributes, group, front),
            group,
            last.tag,
            last.name,
            last.values,
            other,
        );
    }
}

/// An attribute whose name no other one has is found.
proof fn attrs_found(attributes: Attributes, group: u8, attrs: Seq<Attr>, k: int)
    requires
        0 <= k < attrs.len(),
        !attributes.contains_key(attrs[k].name),
        attrs[k].values.len() > 0,
        forall|i: int|
            0 <= i < attrs.len() && i != k ==> (#[trigger] attrs[i]).name != attrs[k].name,
    ensures
        ({
            let after = with_attrs(attributes, group, attrs);
            &&& after.contains_key(attrs[k].name)
            &&& after[attrs[k].name] == (AttributeView {
                group,
                tag: attrs[k].tag,
                values: attrs[k].values,
            })
        }),
    decreases attrs.len(),
{
    let front = attrs.drop_last();
    let last = attrs.last();
    let name = attrs[k].name;
    assert forall|i: int| 0 <= i < front.len() && i != k implies (#[trigger] front[i]).name
        != name by {
        assert(front[i] == attrs[i]);
    }
    if k == attrs.len() - 1 {
        attrs_elsewhere(attributes, group, front, name);
        values_found(with_attrs(attributes, group, front), group, last.tag, name, last.values);
    } else {
        assert(front[k] == attrs[k]);
        attrs_found(attributes, group, front, k);
        assert(attrs[attrs.len() - 1].name != name);
        values_elsewhere(
            with_attrs(attributes, group, front),
            group,
            last.tag,
            last.name,
            last.values,
            name,
        );
    }
}

/// Names that no group has are not found.
proof fn groups_elsewhere(groups: Seq<Group>, other: Seq<char>)
    requires
        forall|i: int| 0 <= i < groups.len() ==> unnamed((#[trigger] groups[i]).attrs, other),
    ensures
        !gathered(groups).contains_key(other),
    decreases groups.len(),
{
    if groups.len() > 0 {
        let front = groups.drop_last();
        assert forall|i: int| 0 <= i < front.len() implies unnamed(
            (#[trigger] front[i]).attrs,
            other,
        ) by {
            assert(front[i] == groups[i]);
        }
        groups_elsewhere(front, other);
        assert(unnamed(groups[groups.len() - 1].attrs, other));
        attrs_elsewhere(gathered(front), groups.last().tag, groups.last().attrs, other);
    }
}

/// Whether the attribute at `k` of the group at `g` is the only one with its
/// name.
pub open spec fn named_once(groups: Seq<Group>, g: int, k: int) -> bool {
    &&& 0 <= g < groups.len()
    &&& 0 <= k < groups[g].attrs.len()
    &&& forall|i: int|
        0 <= i < groups.len() && i != g ==> unnamed(
            (#[trigger] groups[i]).attrs,
            groups[g].attrs[k].name,
        )
    &&& forall|i: int|
        0 <= i < groups[g].attrs.len() && i != k ==> (#[trigger] groups[g].attrs[i]).name
            != groups[g].attrs[k].name
}

/// An attribute whose name no other one has is found in what is gathered.
proof fn groups_found(groups: Seq<Group>, g: int, k: int)
    requires
        named_once(groups, g, k),
        groups[g].attrs[k].values.len() > 0,
    ensures
        ({
            let attr = groups[g].attrs[k];
            &&& gathered(groups).contains_key(attr.name)
            &&& gathered(groups)[attr.name] == (AttributeView {
                group: groups[g].tag,
                tag: attr.tag,
                values: attr.values,
            })
        }),
    decreases groups.len(),
{
    let front = groups.drop_last();
    let last = groups.last();
    let name = groups[g].attrs[k].name;
    assert forall|i: int| 0 <= i < front.len() && i != g implies unnamed(
        (#[trigger] front[i]).attrs,
        name,
    ) by {
        assert(front[i] == groups[i]);
    }
    if g == groups.len() - 1 {
        groups_elsewhere(front, name);
        attrs_found(gathered(front), last.tag, last.attrs, k);
    } else {
        assert(front[g] == groups[g]);
        assert(named_once(front, g, k));
        groups_found(front, g, k);
        assert(unnamed(groups[groups.len() - 1].attrs, name));
        attrs_elsewhere(gathered(front), last.tag, last.attrs, name);
    }
}

// The laws ------------------------------------------------------------------

/// Reading undoes writing: of a message with a document behind it are read its
/// version, its code, its number and its attributes, and the document begins
/// where the message ends.
pub proof fn message_round_trip(m: Message, document: Seq<u8>)
    requires
        legible(m),
    ensures
        parse_request(encode_message(m) + document) == Ok::<RequestView, IppError>(
            RequestView {
                version: m.version,
                operation: m.code,
                request_id: m.request_id,
                attributes: gathered(m.groups),
                document_offset: encode_message(m).len(),
            },
        ),
        (encode_message(m) + document).skip(encode_message(m).len() as int) == document,
{
    let header = encode_header(m.version, m.code, m.request_id);
    let body = encode_message(m) + document;
    let tail = seq![GROUP_END] + document;
    be16_round_trip(m.code);
    be32_round_trip(m.request_id);
    assert(header.len() == 8);
    assert(body.skip(8) =~= encode_groups(m.groups) + tail);
    assert(body.skip(encode_message(m).len() as int) =~= document);
    groups_read(m.groups, tail);
    assert(tail[0] == GROUP_END && tail.skip(1) =~= document);
    assert(body[0] == header[0] && body[1] == header[1]);
    assert(body[2] == be16(m.code)[0] && body[3] == be16(m.code)[1]);
    assert(body[4] == be32(m.request_id)[0]);
    assert(body[5] == be32(m.request_id)[1]);
    assert(body[6] == be32(m.request_id)[2]);
    assert(body[7] == be32(m.request_id)[3]);
}

/// An attribute of a message whose name no other one has is read under that
/// name, with its group, its tag and all its values in order.
pub proof fn attribute_round_trip(m: Message, document: Seq<u8>, g: int, k: int)
    requires
        legible(m),
        named_once(m.groups, g, k),
        m.groups[g].attrs[k].values.len() > 0,
    ensures
        ({
            let attr = m.groups[g].attrs[k];
            &&& parse_request(encode_message(m) + document) matches Ok(request)
            &&& request.attributes.contains_key(attr.name)
            &&& request.attributes[attr.name] == (AttributeView {
                group: m.groups[g].tag,
                tag: attr.tag,
                values: attr.values,
            })
        }),
{
    assert(legible_group(m.groups[g]));
    assert(legible_attr(m.groups[g].attrs[k]));
    message_round_trip(m, document);
    groups_found(m.groups, g, k);
}

/// A name that no attribute of a message has is not read.
pub proof fn no_attribute_round_trip(m: Message, document: Seq<u8>, name: Seq<char>)
    requires
        legible(m),
        forall|i: int| 0 <= i < m.groups.len() ==> unnamed((#[trigger] m.groups[i]).attrs, name),
    ensures
        parse_request(encode_message(m) + document) matches Ok(request)
            && !request.attributes.contains_key(name),
{
    message_round_trip(m, document);
    groups_elsewhere(m.groups, name);
}

} // verus!
