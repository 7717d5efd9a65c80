//! What is kept of the attributes of a request, value by value.

use super::metadata::{metadata_key, metadata_of, rendered, rendered_list};
use super::request::{AttributeView, Attributes};
use crate::notation::{decimal, hex_bytes};
use crate::text::lossy_text;
use vstd::prelude::*;

verus! {

/// Whether values with this tag are kept as the texts that they are: texts,
/// names, keywords, addresses, character sets, languages and formats.
pub open spec fn holds_text(tag: u8) -> bool {
    tag == 0x41 || tag == 0x42 || tag == 0x44 || tag == 0x45 || tag == 0x47 || tag == 0x48 || tag
        == 0x49
}

/// A number of four bytes is kept in decimal. From half of the range on it is
/// negative.
pub proof fn numbers_are_kept_in_decimal(tag: u8, value: Seq<u8>)
    requires
        tag == 0x21 || tag == 0x23,
        value.len() == 4,
    ensures
        ({
            let number = value[0] * 0x100_0000 + value[1] * 0x1_0000 + value[2] * 0x100 + value[3];
            rendered(tag, value) == if number < 0x8000_0000 {
                decimal(number as nat)
            } else {
                seq!['-'] + decimal((0x1_0000_0000 - number) as nat)
            }
        }),
{
}

/// A truth value of one byte is kept as a word, and a text as it is.
pub proof fn words_are_kept(tag: u8, value: Seq<u8>)
    ensures
        tag == 0x22 && value.len() == 1 && value[0] == 0 ==> rendered(tag, value) == "false"@,
        tag == 0x22 && value.len() == 1 && value[0] != 0 ==> rendered(tag, value) == "true"@,
        holds_text(tag) ==> rendered(tag, value) == lossy_text(value),
{
}

/// Anything else is kept in hexadecimal: values with other tags, and numbers and
/// truth values that are not of their length.
pub proof fn anything_else_is_kept_in_hexadecimal(tag: u8, value: Seq<u8>)
    requires
        !holds_text(tag),
        (tag == 0x21 || tag == 0x23) ==> value.len() != 4,
        tag == 0x22 ==> value.len() != 1,
    ensures
        rendered(tag, value) == hex_bytes(value),
{
}

/// Of several values each is kept, in order, with a comma and a space between
/// two.
pub proof fn values_are_kept_in_order(tag: u8, values: Seq<Seq<u8>>, value: Seq<u8>)
    ensures
        rendered_list(tag, Seq::empty()) == Seq::<char>::empty(),
        rendered_list(tag, seq![value]) == rendered(tag, value),
        values.len() > 0 ==> rendered_list(tag, values.push(value)) == rendered_list(tag, values)
            + seq![',', ' '] + rendered(tag, value),
{
    assert(values.push(value).drop_last() =~= values);
    reveal_strlit(", ");
    assert(", "@ =~= seq![',', ' ']);
}

/// The name under which an attribute of a group from 0 to 9 is kept: `g0`, the
/// digit of the group, a colon and the name of the attribute.
pub open spec fn kept_under(group: u8, name: Seq<char>) -> Seq<char> {
    seq!['g', '0', ('0' as u32 + group as u32) as char, ':'] + name
}

/// Every attribute is kept under its group and its name, with all its values.
pub proof fn every_attribute_is_kept(attributes: Attributes, name: Seq<char>)
    requires
        attributes.contains_key(name),
        attributes[name].group < 10,
    ensures
        ({
            let key = kept_under(attributes[name].group, name);
            &&& metadata_of(attributes).contains_key(key)
            &&& metadata_of(attributes)[key] == rendered_list(
                attributes[name].tag,
                attributes[name].values,
            )
        }),
{
    let key = kept_under(attributes[name].group, name);
    assert(key =~= metadata_key(attributes[name].group, name));
    assert(key.skip(4) =~= name);
}

/// Nothing is kept but attributes.
pub proof fn nothing_else_is_kept(attributes: Attributes, key: Seq<char>)
    requires
        metadata_of(attributes).contains_key(key),
        attributes[key.skip(4)].group < 10,
    ensures
        attributes.contains_key(key.skip(4)),
        key == kept_under(attributes[key.skip(4)].group, key.skip(4)),
{
    let name = key.skip(4);
    assert(kept_under(attributes[name].group, name) =~= metadata_key(attributes[name].group, name));
}

/// One attribute more is kept beside those that were kept before.
pub proof fn one_more_is_kept(attributes: Attributes, name: Seq<char>, added: AttributeView)
    requires
        added.group < 10,
        !attributes.contains_key(name),
    ensures
        metadata_of(attributes.insert(name, added)) == metadata_of(attributes).insert(
            kept_under(added.group, name),
            rendered_list(added.tag, added.values),
        ),
{
    let more = attributes.insert(name, added);
    let key = kept_under(added.group, name);
    assert(key =~= metadata_key(added.group, name));
    assert(key.skip(4) =~= name);
    assert forall|other: Seq<char>| #[trigger]
        metadata_of(more).contains_key(other) == metadata_of(attributes).insert(
            key,
            rendered_list(added.tag, added.values),
        ).contains_key(other) by {
        if other.skip(4) == name && other != key {
            assert(!metadata_of(more).contains_key(other));
        }
    }
    assert(metadata_of(more) =~= metadata_of(attributes).insert(
        key,
        rendered_list(added.tag, added.values),
    ));
}

} // verus!
