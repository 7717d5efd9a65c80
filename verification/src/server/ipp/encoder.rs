//! Writing IPP messages.

use super::message::{
    encode_attr, encode_attrs, encode_header, encode_more, encode_value, len16, Attr, GROUP_END,
    GROUP_OPERATION, TAG_BOOLEAN, TAG_CHARSET, TAG_ENUM, TAG_INTEGER, TAG_NATURAL_LANGUAGE,
    TAG_RANGE, TAG_RESOLUTION,
};
use crate::wire::{be32, bits_of, push16, push32, push_bytes, signed_bytes};
use vstd::prelude::*;
use vstd::utf8::encode_utf8;

verus! {

// Attributes by the kind of their values ------------------------------------

/// An attribute with one text for a value.
pub open spec fn string_attr(tag: u8, name: Seq<char>, value: Seq<char>) -> Attr {
    Attr { tag, name, values: seq![encode_utf8(value)] }
}

/// An attribute with texts for values.
pub open spec fn strings_attr(tag: u8, name: Seq<char>, values: Seq<&str>) -> Attr {
    Attr { tag, name, values: values.map_values(|v: &str| encode_utf8(v@)) }
}

/// An attribute with one number of 32 bits for a value.
pub open spec fn number_attr(tag: u8, name: Seq<char>, value: i32) -> Attr {
    Attr { tag, name, values: seq![be32(bits_of(value))] }
}

/// An attribute with numbers of 32 bits for values.
pub open spec fn numbers_attr(tag: u8, name: Seq<char>, values: Seq<i32>) -> Attr {
    Attr { tag, name, values: values.map_values(|v: i32| be32(bits_of(v))) }
}

/// An attribute that is true or false.
pub open spec fn boolean_attr(name: Seq<char>, value: bool) -> Attr {
    Attr { tag: TAG_BOOLEAN, name, values: seq![seq![if value { 1u8 } else { 0u8 }]] }
}

/// An attribute with a range of numbers for a value.
pub open spec fn range_attr(name: Seq<char>, min: i32, max: i32) -> Attr {
    Attr { tag: TAG_RANGE, name, values: seq![be32(bits_of(min)) + be32(bits_of(max))] }
}

/// The bytes of a resolution.
pub open spec fn resolution(value: (i32, i32, u8)) -> Seq<u8> {
    be32(bits_of(value.0)) + be32(bits_of(value.1)) + seq![value.2]
}

/// An attribute with resolutions for values.
pub open spec fn resolutions_attr(name: Seq<char>, values: Seq<(i32, i32, u8)>) -> Attr {
    Attr { tag: TAG_RESOLUTION, name, values: values.map_values(|v: (i32, i32, u8)| resolution(v)) }
}

/// The attributes that every message begins with.
pub open spec fn operation_attrs() -> Seq<Attr> {
    Seq::empty().push(string_attr(TAG_CHARSET, "attributes-charset"@, "utf-8"@)).push(
        string_attr(TAG_NATURAL_LANGUAGE, "attributes-natural-language"@, "en"@),
    )
}

// How encodings fit together ------------------------------------------------

/// An attribute with a single value is written as that value.
pub broadcast proof fn encode_single(attr: Attr)
    requires
        attr.values.len() == 1,
    ensures
        #[trigger] encode_attr(attr) == encode_value(
            attr.tag,
            encode_utf8(attr.name),
            attr.values[0],
        ),
{
    reveal(encode_attr);
    assert(attr.values.drop_first() =~= Seq::<Seq<u8>>::empty());
    assert(encode_attr(attr) =~= encode_value(attr.tag, encode_utf8(attr.name), attr.values[0]));
}

/// Whether `bytes` are `front` followed by `attrs`.
pub closed spec fn spells(bytes: Seq<u8>, front: Seq<u8>, attrs: Seq<Attr>) -> bool {
    bytes == front + encode_attrs(attrs)
}

/// At first no attribute has been written.
pub proof fn spells_none(front: Seq<u8>)
    ensures
        spells(front, front, Seq::empty()),
{
    reveal(encode_attrs);
    assert(front + encode_attrs(Seq::empty()) =~= front);
}

/// An attribute is written behind those before it.
pub broadcast proof fn spells_push(bytes: Seq<u8>, front: Seq<u8>, attrs: Seq<Attr>, attr: Attr)
    requires
        spells(bytes, front, attrs),
    ensures
        #![trigger spells(bytes, front, attrs), bytes + encode_attr(attr)]
        spells(bytes + encode_attr(attr), front, attrs.push(attr)),
{
    reveal(encode_attrs);
    assert(attrs.push(attr).drop_last() =~= attrs);
    assert(bytes + encode_attr(attr) =~= front + encode_attrs(attrs.push(attr)));
}

/// A run of attributes is written behind those before it.
pub broadcast proof fn spells_run(bytes: Seq<u8>, front: Seq<u8>, attrs: Seq<Attr>, run: Seq<Attr>)
    requires
        spells(bytes, front, attrs),
    ensures
        #![trigger spells(bytes, front, attrs), bytes + encode_attrs(run)]
        spells(bytes + encode_attrs(run), front, attrs + run),
{
    encode_attrs_concat(attrs, run);
    assert(bytes + encode_attrs(run) =~= front + encode_attrs(attrs + run));
}

/// Bytes that are known to spell attributes.
pub proof fn spells_known(front: Seq<u8>, attrs: Seq<Attr>)
    ensures
        spells(front + encode_attrs(attrs), front, attrs),
{
}

/// What has been written, as bytes.
pub proof fn spelled(bytes: Seq<u8>, front: Seq<u8>, attrs: Seq<Attr>)
    requires
        spells(bytes, front, attrs),
    ensures
        bytes == front + encode_attrs(attrs),
{
}

/// Attributes in two parts are written one part behind the other.
pub proof fn encode_attrs_concat(a: Seq<Attr>, b: Seq<Attr>)
    ensures
        encode_attrs(a + b) == encode_attrs(a) + encode_attrs(b),
    decreases b.len(),
{
    reveal(encode_attrs);
    if b.len() == 0 {
        assert(a + b =~= a);
        assert(encode_attrs(a) + encode_attrs(b) =~= encode_attrs(a));
    } else {
        encode_attrs_concat(a, b.drop_last());
        assert((a + b).drop_last() =~= a + b.drop_last());
        assert(encode_attrs(a + b) =~= encode_attrs(a) + encode_attrs(b));
    }
}

/// A resolution on the wire.
pub fn resolution_bytes(x: i32, y: i32, units: u8) -> (bytes: [u8; 9])
    ensures
        bytes@ == resolution((x, y, units)),
{
    let a = signed_bytes(x);
    let b = signed_bytes(y);
    let bytes = [a[0], a[1], a[2], a[3], b[0], b[1], b[2], b[3], units];
    assert(bytes@ =~= resolution((x, y, units)));
    bytes
}

/// A length as it is written.
fn short_len(n: usize) -> (len: u16)
    ensures
        len == len16(n as nat),
{
    (n % 0x1_0000) as u16
}

/// What can be a value of an attribute with several values.
trait AttributeValue {
    /// The value on the wire.
    spec fn wire(&self) -> Seq<u8>;

    /// The value on the wire.
    fn wire_bytes(&self) -> (bytes: Vec<u8>)
        ensures
            bytes@ == self.wire(),
    ;
}

/// Values on the wire.
spec fn wire_values<T: AttributeValue>(values: Seq<T>) -> Seq<Seq<u8>> {
    values.map_values(|v: T| v.wire())
}

impl<'a> AttributeValue for &'a str {
    spec fn wire(&self) -> Seq<u8> {
        encode_utf8(self@)
    }

    fn wire_bytes(&self) -> (bytes: Vec<u8>) {
        let mut bytes: Vec<u8> = Vec::new();
        push_bytes(&mut bytes, self.as_bytes());
        bytes
    }
}

impl AttributeValue for i32 {
    spec fn wire(&self) -> Seq<u8> {
        be32(bits_of(*self))
    }

    fn wire_bytes(&self) -> (bytes: Vec<u8>) {
        let mut bytes: Vec<u8> = Vec::new();
        push_bytes(&mut bytes, &signed_bytes(*self));
        bytes
    }
}

impl AttributeValue for (i32, i32, u8) {
    spec fn wire(&self) -> Seq<u8> {
        resolution(*self)
    }

    fn wire_bytes(&self) -> (bytes: Vec<u8>) {
        let mut bytes: Vec<u8> = Vec::new();
        push_bytes(&mut bytes, &resolution_bytes(self.0, self.1, self.2));
        bytes
    }
}

/// A message that is being written.
pub struct IppEncoder {
    bytes: Vec<u8>,
    group_started: bool,
}

impl View for IppEncoder {
    type V = Seq<u8>;

    closed spec fn view(&self) -> Seq<u8> {
        self.bytes@
    }
}

impl IppEncoder {
    /// Whether a group of attributes has been opened.
    pub closed spec fn started(&self) -> bool {
        self.group_started
    }

    /// A message with a header and nothing else.
    pub fn new(version: (u8, u8), status: u16, request_id: u32) -> (encoder: Self)
        ensures
            encoder@ == encode_header(version, status, request_id),
            !encoder.started(),
    {
        let mut bytes: Vec<u8> = Vec::with_capacity(1024);
        bytes.push(version.0);
        bytes.push(version.1);
        push16(&mut bytes, status);
        push32(&mut bytes, request_id);
        assert(bytes@ =~= encode_header(version, status, request_id));
        IppEncoder { bytes, group_started: false }
    }

    /// Opens the group of the operation's attributes and writes those that
    /// every message begins with.
    pub fn operation_defaults(&mut self)
        ensures
            final(self)@ == old(self)@ + (seq![GROUP_OPERATION] + encode_attrs(operation_attrs())),
            final(self).started(),
    {
        broadcast use spells_push;

        self.begin_group(GROUP_OPERATION);
        let ghost front = self@;
        proof {
            spells_none(front);
        }
        self.attr_string(TAG_CHARSET, "attributes-charset", "utf-8");
        self.attr_string(TAG_NATURAL_LANGUAGE, "attributes-natural-language", "en");
        proof {
            spelled(self@, front, operation_attrs());
            let attrs = encode_attrs(operation_attrs());
            assert(old(self)@.push(GROUP_OPERATION) + attrs =~= old(self)@ + (
            seq![GROUP_OPERATION] + attrs));
        }
    }

    /// Opens a group of attributes.
    pub fn begin_group(&mut self, group: u8)
        ensures
            final(self)@ == old(self)@.push(group),
            final(self).started(),
    {
        self.bytes.push(group);
        self.group_started = true;
    }

    /// Writes a value under a name.
    pub fn attr_raw(&mut self, tag: u8, name: &str, value: &[u8])
        requires
            old(self).started(),
        ensures
            final(self)@ == old(self)@ + encode_value(tag, encode_utf8(name@), value@),
            final(self).started(),
    {
        self.bytes.push(tag);
        let name_bytes = name.as_bytes();
        push16(&mut self.bytes, short_len(name_bytes.len()));
        push_bytes(&mut self.bytes, name_bytes);
        push16(&mut self.bytes, short_len(value.len()));
        push_bytes(&mut self.bytes, value);
        assert(self@ =~= old(self)@ + encode_value(tag, encode_utf8(name@), value@));
    }

    /// Writes one more value of the attribute that the last value belongs to.
    pub fn attr_raw_continuation(&mut self, tag: u8, value: &[u8])
        ensures
            final(self)@ == old(self)@ + encode_value(tag, Seq::empty(), value@),
            final(self).started() == old(self).started(),
    {
        self.bytes.push(tag);
        push16(&mut self.bytes, 0);
        push16(&mut self.bytes, short_len(value.len()));
        push_bytes(&mut self.bytes, value);
        assert(self@ =~= old(self)@ + encode_value(tag, Seq::empty(), value@));
    }

    /// Writes an attribute with one text for a value.
    pub fn attr_string(&mut self, tag: u8, name: &str, value: &str)
        requires
            old(self).started(),
        ensures
            final(self)@ == old(self)@ + encode_attr(string_attr(tag, name@, value@)),
            final(self).started(),
    {
        broadcast use encode_single;

        self.attr_raw(tag, name, value.as_bytes());
    }

    /// Writes an attribute with values of one kind: the first under its name, the
    /// others without a name.
    fn attr_values<T: AttributeValue>(&mut self, tag: u8, name: &str, values: &[T])
        requires
            values@.len() > 0 ==> old(self).started(),
        ensures
            final(self)@ == old(self)@ + encode_attr(
                Attr { tag, name: name@, values: wire_values(values@) },
            ),
            final(self).started() == old(self).started(),
    {
        reveal(encode_attr);
        let ghost attr = Attr { tag, name: name@, values: wire_values(values@) };
        if values.len() == 0 {
            assert(self@ =~= old(self)@ + encode_attr(attr));
            return;
        }
        self.attr_raw(tag, name, values[0].wire_bytes().as_slice());
        let ghost front = self@;
        let ghost more = attr.values.drop_first();
        let mut i: usize = 1;
        assert(self@ =~= front + encode_more(tag, more.take(0)));
        while i < values.len()
            invariant
                1 <= i <= values@.len(),
                more == wire_values(values@).drop_first(),
                self@ == front + encode_more(tag, more.take(i - 1)),
                self.started(),
            decreases values@.len() - i,
        {
            self.attr_raw_continuation(tag, values[i].wire_bytes().as_slice());
            assert(more.take(i as int).drop_last() =~= more.take(i - 1));
            assert(self@ =~= front + encode_more(tag, more.take(i as int)));
            i = i + 1;
        }
        assert(more.take(i - 1) =~= more);
        assert(self@ =~= old(self)@ + encode_attr(attr));
    }

    /// Writes an attribute with texts for values.
    pub fn attr_strings(&mut self, tag: u8, name: &str, values: &[&str])
        requires
            values@.len() > 0 ==> old(self).started(),
        ensures
            final(self)@ == old(self)@ + encode_attr(strings_attr(tag, name@, values@)),
            final(self).started() == old(self).started(),
    {
        self.attr_values(tag, name, values);
        assert(wire_values(values@) =~= strings_attr(tag, name@, values@).values);
    }

    /// Writes an attribute with a whole number for a value.
    pub fn attr_integer(&mut self, name: &str, value: i32)
        requires
            old(self).started(),
        ensures
            final(self)@ == old(self)@ + encode_attr(number_attr(TAG_INTEGER, name@, value)),
            final(self).started(),
    {
        broadcast use encode_single;

        self.attr_raw(TAG_INTEGER, name, &signed_bytes(value));
    }

    /// Writes an attribute with whole numbers for values.
    pub fn attr_integers(&mut self, name: &str, values: &[i32])
        requires
            values@.len() > 0 ==> old(self).started(),
        ensures
            final(self)@ == old(self)@ + encode_attr(numbers_attr(TAG_INTEGER, name@, values@)),
            final(self).started() == old(self).started(),
    {
        self.attr_values(TAG_INTEGER, name, values);
        assert(wire_values(values@) =~= numbers_attr(TAG_INTEGER, name@, values@).values);
    }

    /// Writes an attribute with the number of a choice for a value.
    pub fn attr_enum(&mut self, name: &str, value: i32)
        requires
            old(self).started(),
        ensures
            final(self)@ == old(self)@ + encode_attr(number_attr(TAG_ENUM, name@, value)),
            final(self).started(),
    {
        broadcast use encode_single;

        self.attr_raw(TAG_ENUM, name, &signed_bytes(value));
    }

    /// Writes an attribute with the numbers of choices for values.
    pub fn attr_enums(&mut self, name: &str, values: &[i32])
        requires
            values@.len() > 0 ==> old(self).started(),
        ensures
            final(self)@ == old(self)@ + encode_attr(numbers_attr(TAG_ENUM, name@, values@)),
            final(self).started() == old(self).started(),
    {
        self.attr_values(TAG_ENUM, name, values);
        assert(wire_values(values@) =~= numbers_attr(TAG_ENUM, name@, values@).values);
    }

    /// Writes an attribute that is true or false.
    pub fn attr_boolean(&mut self, name: &str, value: bool)
        requires
            old(self).started(),
        ensures
            final(self)@ == old(self)@ + encode_attr(boolean_attr(name@, value)),
            final(self).started(),
    {
        broadcast use encode_single;

        let data = [if value { 1u8 } else { 0u8 }];
        assert(data@ =~= seq![if value { 1u8 } else { 0u8 }]);
        self.attr_raw(TAG_BOOLEAN, name, &data);
    }

    /// Writes an attribute with a range of numbers for a value.
    pub fn attr_range(&mut self, name: &str, min: i32, max: i32)
        requires
            old(self).started(),
        ensures
            final(self)@ == old(self)@ + encode_attr(range_attr(name@, min, max)),
            final(self).started(),
    {
        broadcast use encode_single;

        let a = signed_bytes(min);
        let b = signed_bytes(max);
        let data = [a[0], a[1], a[2], a[3], b[0], b[1], b[2], b[3]];
        assert(data@ =~= be32(bits_of(min)) + be32(bits_of(max)));
        self.attr_raw(TAG_RANGE, name, &data);
    }

    /// Writes an attribute with one resolution for a value.
    pub fn attr_resolution(&mut self, name: &str, x: i32, y: i32, units: u8)
        requires
            old(self).started(),
        ensures
            final(self)@ == old(self)@ + encode_attr(resolutions_attr(name@, seq![(x, y, units)])),
            final(self).started(),
    {
        broadcast use encode_single;

        self.attr_raw(TAG_RESOLUTION, name, &resolution_bytes(x, y, units));
    }

    /// Writes an attribute with resolutions for values.
    pub fn attr_resolutions(&mut self, name: &str, values: &[(i32, i32, u8)])
        requires
            values@.len() > 0 ==> old(self).started(),
        ensures
            final(self)@ == old(self)@ + encode_attr(resolutions_attr(name@, values@)),
            final(self).started() == old(self).started(),
    {
        self.attr_values(TAG_RESOLUTION, name, values);
        assert(wire_values(values@) =~= resolutions_attr(name@, values@).values);
    }

    /// Closes the message.
    pub fn finish(self) -> (bytes: Vec<u8>)
        ensures
            bytes@ == self@.push(GROUP_END),
    {
        let mut bytes = self.bytes;
        bytes.push(GROUP_END);
        bytes
    }
}

} // verus!
