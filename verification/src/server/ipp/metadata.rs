//! The attributes of a request in readable form.

use super::message::{
    TAG_BOOLEAN, TAG_CHARSET, TAG_ENUM, TAG_INTEGER, TAG_KEYWORD, TAG_MIME, TAG_NAME,
    TAG_NATURAL_LANGUAGE, TAG_TEXT, TAG_URI,
};
use super::request::{value_bytes, Attributes, ParsedAttribute, ParsedIppRequest};
use crate::name_map::NameMap;
use crate::notation::{
    hex_byte, hex_bytes, push_hex_byte, push_hex_bytes, push_signed_decimal, signed_decimal,
};
use crate::text::{from_utf8_lossy, lossy_text, owned};
use crate::wire::{read_signed, signed, value32};
use vstd::prelude::*;
use vstd::string::StringExecFns;

verus! {

/// Whether values with this tag are texts.
pub open spec fn is_text_tag(tag: u8) -> bool {
    ||| tag == TAG_TEXT
    ||| tag == TAG_NAME
    ||| tag == TAG_KEYWORD
    ||| tag == TAG_URI
    ||| tag == TAG_CHARSET
    ||| tag == TAG_NATURAL_LANGUAGE
    ||| tag == TAG_MIME
}

/// A value in readable form: numbers in decimal, truth values in words, texts
/// as they are, anything else in hexadecimal.
pub open spec fn rendered(tag: u8, value: Seq<u8>) -> Seq<char> {
    if (tag == TAG_INTEGER || tag == TAG_ENUM) && value.len() == 4 {
        signed_decimal(signed(value32(value[0], value[1], value[2], value[3])) as int)
    } else if tag == TAG_BOOLEAN && value.len() == 1 {
        if value[0] != 0 {
            "true"@
        } else {
            "false"@
        }
    } else if is_text_tag(tag) {
        lossy_text(value)
    } else {
        hex_bytes(value)
    }
}

/// Values in readable form, with commas between them.
pub open spec fn rendered_list(tag: u8, values: Seq<Seq<u8>>) -> Seq<char>
    decreases values.len(),
{
    if values.len() == 0 {
        Seq::empty()
    } else if values.len() == 1 {
        rendered(tag, values[0])
    } else {
        rendered_list(tag, values.drop_last()) + ", "@ + rendered(tag, values.last())
    }
}

/// The name under which an attribute is kept: its group and its own name.
pub open spec fn metadata_key(group: u8, name: Seq<char>) -> Seq<char> {
    seq!['g'] + hex_byte(group) + seq![':'] + name
}

/// The attributes of a request as they are kept: each in readable form, under a
/// name that tells its group.
pub open spec fn metadata_of(attributes: Attributes) -> Map<Seq<char>, Seq<char>> {
    Map::new(
        |key: Seq<char>|
            attributes.contains_key(key.skip(4)) && key == metadata_key(
                attributes[key.skip(4)].group,
                key.skip(4),
            ),
        |key: Seq<char>|
            rendered_list(attributes[key.skip(4)].tag, attributes[key.skip(4)].values),
    )
}

/// Each attribute of a request is kept, and is found under its group and name.
pub proof fn metadata_has_attribute(attributes: Attributes, name: Seq<char>)
    requires
        attributes.contains_key(name),
    ensures
        metadata_of(attributes).contains_key(metadata_key(attributes[name].group, name)),
        metadata_of(attributes)[metadata_key(attributes[name].group, name)] == rendered_list(
            attributes[name].tag,
            attributes[name].values,
        ),
{
    assert(metadata_key(attributes[name].group, name).skip(4) =~= name);
}

/// A value in readable form.
pub fn render_value(tag: u8, value: &[u8]) -> (text: String)
    ensures
        text@ == rendered(tag, value@),
{
    let mut text = String::new();
    if (tag == TAG_INTEGER || tag == TAG_ENUM) && value.len() == 4 {
        push_signed_decimal(&mut text, read_signed(value[0], value[1], value[2], value[3]));
        assert(text@ =~= rendered(tag, value@));
        text
    } else if tag == TAG_BOOLEAN && value.len() == 1 {
        if value[0] != 0 {
            owned("true")
        } else {
            owned("false")
        }
    } else if tag == TAG_TEXT || tag == TAG_NAME || tag == TAG_KEYWORD || tag == TAG_URI || tag
        == TAG_CHARSET || tag == TAG_NATURAL_LANGUAGE || tag == TAG_MIME {
        from_utf8_lossy(value)
    } else {
        push_hex_bytes(&mut text, value);
        assert(text@ =~= rendered(tag, value@));
        text
    }
}

/// The values of an attribute in readable form.
fn render_values(attribute: &ParsedAttribute) -> (text: String)
    ensures
        text@ == rendered_list(attribute@.tag, attribute@.values),
{
    let mut text = String::new();
    let ghost values = attribute@.values;
    let mut i: usize = 0;
    assert(values.take(0) =~= Seq::<Seq<u8>>::empty());
    while i < attribute.values.len()
        invariant
            i <= attribute.values@.len(),
            values == value_bytes(attribute.values@),
            text@ == rendered_list(attribute.tag, values.take(i as int)),
        decreases attribute.values@.len() - i,
    {
        if i > 0 {
            text.append(", ");
        }
        text.append(render_value(attribute.tag, attribute.values[i].as_slice()).as_str());
        i = i + 1;
        proof {
            assert(values.take(i as int).drop_last() =~= values.take(i - 1));
            assert(text@ =~= rendered_list(attribute.tag, values.take(i as int)));
        }
    }
    assert(values.take(i as int) =~= values);
    text
}

/// The attributes of a request in readable form.
pub fn attributes_to_metadata(request: &ParsedIppRequest) -> (metadata: NameMap<String>)
    ensures
        metadata@ == metadata_of(request@.attributes),
{
    let mut out: NameMap<String> = NameMap::new();
    let ghost attributes = request@.attributes;
    let ghost names = request.attributes.names();
    let n = request.attributes.len();
    let mut i: usize = 0;
    while i < n
        invariant
            i <= n,
            n == names.len(),
            names == request.attributes.names(),
            attributes == request.attributes@,
            attributes.dom() == names.to_set(),
            forall|key: Seq<char>|
                #![trigger out@.dom().contains(key)]
                out@.dom().contains(key) <==> metadata_of(attributes).dom().contains(key)
                    && names.take(i as int).contains(key.skip(4)),
            forall|key: Seq<char>|
                #![trigger out@[key]]
                out@.dom().contains(key) ==> out@[key] == metadata_of(attributes)[key],
        decreases n - i,
    {
        let (name, attribute) = request.attributes.entry(i);
        let mut key = String::new();
        key.push('g');
        push_hex_byte(&mut key, attribute.group);
        key.push(':');
        key.append(name);
        let ghost added = metadata_key(attribute.group, name@);
        let ghost before = out@;
        proof {
            assert(key@ =~= added);
            metadata_has_attribute(attributes, name@);
            assert(added.skip(4) =~= name@);
        }
        out.insert(key, render_values(attribute));
        proof {
            let seen = names.take(i as int);
            let more = names.take(i + 1);
            assert(more =~= seen.push(name@));
            assert forall|k: Seq<char>|
                #![trigger out@.dom().contains(k)]
                out@.dom().contains(k) <==> metadata_of(attributes).dom().contains(k)
                    && more.contains(k.skip(4)) by {
                if more.contains(k.skip(4)) {
                    let at = choose|at: int| 0 <= at < more.len() && more[at] == k.skip(4);
                    if at < i {
                        assert(seen[at] == k.skip(4));
                    }
                }
                if seen.contains(k.skip(4)) {
                    let at = choose|at: int| 0 <= at < seen.len() && seen[at] == k.skip(4);
                    assert(more[at] == k.skip(4));
                }
                assert(more[i as int] == name@);
                assert(before.dom().contains(k) <==> metadata_of(attributes).dom().contains(k)
                    && seen.contains(k.skip(4)));
            }
        }
        i = i + 1;
    }
    proof {
        assert(names.take(i as int) =~= names);
        assert forall|key: Seq<char>|
            #![trigger out@.dom().contains(key)]
            #![trigger metadata_of(attributes).dom().contains(key)]
            out@.dom().contains(key) == metadata_of(attributes).dom().contains(key) by {
            if metadata_of(attributes).dom().contains(key) {
                assert(attributes.dom().contains(key.skip(4)));
                assert(names.to_set().contains(key.skip(4)));
            }
        }
        assert(out@ =~= metadata_of(attributes));
    }
    out
}

} // verus!
