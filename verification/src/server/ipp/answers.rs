//! What a client reads in an answer.

use super::encoder::{
    boolean_attr, number_attr, numbers_attr, operation_attrs, range_attr, resolutions_attr,
    string_attr, strings_attr,
};
use super::message::{
    encode_message, is_delimiter, Attr, Message, GROUP_JOB, GROUP_OPERATION, STATUS_OK, TAG_ENUM,
    TAG_INTEGER, TAG_KEYWORD, TAG_NAME, TAG_TEXT, TAG_URI,
};
use super::printer::printer_uri;
use super::request::{
    integer_of, parse_request, string_of, AttributeView, Attributes, RequestView,
};
use super::responses::{failure_message, job_message, job_uri, state_reason, success_message};
use super::round_trip::{
    attribute_round_trip, fits16, legible, legible_attr, legible_attrs, message_round_trip,
    named_once, no_attribute_round_trip, unnamed,
};
use crate::notation::decimal;
use crate::text::lossy_text_of_encoded;
use crate::wire::{be32_round_trip, bits_of, signed, signed_round_trip};
use vstd::prelude::*;
use vstd::utf8::encode_utf8;

verus! {

// Lengths -------------------------------------------------------------------

/// A character takes at most four bytes.
pub broadcast proof fn encoded_len(text: Seq<char>)
    ensures
        (#[trigger] encode_utf8(text)).len() <= 4 * text.len(),
    decreases text.len(),
{
    if text.len() > 0 {
        encoded_len(text.drop_first());
    }
}

/// A number of 32 bits has at most ten digits.
pub proof fn decimal_len(n: nat)
    requires
        n < 10_000_000_000,
    ensures
        1 <= decimal(n).len() <= 10,
{
    reveal_with_fuel(decimal, 11);
}

// Legible attributes --------------------------------------------------------

/// Whether `name` can be the name of an attribute whatever its characters are.
pub open spec fn short_name(name: Seq<char>) -> bool {
    0 < name.len() < 0x4000
}

/// An attribute with a short name and a short text can be read back.
pub broadcast proof fn legible_string(tag: u8, name: Seq<char>, value: Seq<char>)
    requires
        !is_delimiter(tag),
        short_name(name),
        fits16(encode_utf8(value).len()),
    ensures
        #[trigger] legible_attr(string_attr(tag, name, value)),
{
    encoded_len(name);
}

/// An attribute with a short name and numbers can be read back.
pub broadcast proof fn legible_number(tag: u8, name: Seq<char>, value: i32)
    requires
        !is_delimiter(tag),
        short_name(name),
    ensures
        #[trigger] legible_attr(number_attr(tag, name, value)),
{
    encoded_len(name);
}

/// An attribute with a short name and short texts can be read back.
pub broadcast proof fn legible_strings(tag: u8, name: Seq<char>, values: Seq<&str>)
    requires
        !is_delimiter(tag),
        short_name(name),
        values.len() > 0,
        forall|i: int| 0 <= i < values.len() ==> fits16(encode_utf8((#[trigger] values[i])@).len()),
    ensures
        #[trigger] legible_attr(strings_attr(tag, name, values)),
{
    encoded_len(name);
}

/// An attribute with a short name and numbers can be read back.
pub broadcast proof fn legible_numbers(tag: u8, name: Seq<char>, values: Seq<i32>)
    requires
        !is_delimiter(tag),
        short_name(name),
        values.len() > 0,
    ensures
        #[trigger] legible_attr(numbers_attr(tag, name, values)),
{
    encoded_len(name);
}

/// An attribute with a short name that is true or false can be read back.
pub broadcast proof fn legible_boolean(name: Seq<char>, value: bool)
    requires
        short_name(name),
    ensures
        #[trigger] legible_attr(boolean_attr(name, value)),
{
    encoded_len(name);
}

/// An attribute with a short name and a range can be read back.
pub broadcast proof fn legible_range(name: Seq<char>, min: i32, max: i32)
    requires
        short_name(name),
    ensures
        #[trigger] legible_attr(range_attr(name, min, max)),
{
    encoded_len(name);
}

/// An attribute with a short name and resolutions can be read back.
pub broadcast proof fn legible_resolutions(name: Seq<char>, values: Seq<(i32, i32, u8)>)
    requires
        short_name(name),
        values.len() > 0,
    ensures
        #[trigger] legible_attr(resolutions_attr(name, values)),
{
    encoded_len(name);
}

/// No attributes can be read back.
pub proof fn legible_none()
    ensures
        legible_attrs(Seq::empty()),
{
}

/// One more attribute can be read back.
pub broadcast proof fn legible_push(attrs: Seq<Attr>, attr: Attr)
    requires
        legible_attrs(attrs),
        legible_attr(attr),
    ensures
        #[trigger] legible_attrs(attrs.push(attr)),
{
    let all = attrs.push(attr);
    assert forall|i: int| 0 <= i < all.len() implies legible_attr(#[trigger] all[i]) by {
        if i < attrs.len() {
            assert(all[i] == attrs[i]);
        }
    }
}

// Attributes whose name no other one has ------------------------------------

/// Whether `attrs` holds `attr` and no other attribute of that name.
pub open spec fn holds_once(attrs: Seq<Attr>, attr: Attr) -> bool {
    exists|k: int|
        0 <= k < attrs.len() && #[trigger] attrs[k] == attr && forall|i: int|
            0 <= i < attrs.len() && i != k ==> (#[trigger] attrs[i]).name != attr.name
}

/// One more attribute with another name.
pub broadcast proof fn unnamed_push(attrs: Seq<Attr>, attr: Attr, name: Seq<char>)
    requires
        unnamed(attrs, name),
        attr.name != name,
    ensures
        #[trigger] unnamed(attrs.push(attr), name),
{
}

/// An attribute with a new name.
pub broadcast proof fn holds_once_new(attrs: Seq<Attr>, attr: Attr)
    requires
        unnamed(attrs, attr.name),
    ensures
        #[trigger] holds_once(attrs.push(attr), attr),
{
    assert(attrs.push(attr)[attrs.len() as int] == attr);
}

/// One more attribute with another name.
pub broadcast proof fn holds_once_push(attrs: Seq<Attr>, other: Attr, attr: Attr)
    requires
        holds_once(attrs, attr),
        other.name != attr.name,
    ensures
        #[trigger] holds_once(attrs.push(other), attr),
{
    let k = choose|k: int|
        0 <= k < attrs.len() && #[trigger] attrs[k] == attr && forall|i: int|
            0 <= i < attrs.len() && i != k ==> (#[trigger] attrs[i]).name != attr.name;
    let all = attrs.push(other);
    assert(all[k] == attr);
    assert forall|i: int| 0 <= i < all.len() && i != k implies (#[trigger] all[i]).name
        != attr.name by {
        if i < attrs.len() {
            assert(all[i] == attrs[i]);
        }
    }
}

/// Two runs of attributes that can be read back.
pub broadcast proof fn legible_run(a: Seq<Attr>, b: Seq<Attr>)
    requires
        legible_attrs(a),
        legible_attrs(b),
    ensures
        #[trigger] legible_attrs(a + b),
{
    assert forall|i: int| 0 <= i < (a + b).len() implies legible_attr(#[trigger] (a + b)[i]) by {
        if i < a.len() {
            assert((a + b)[i] == a[i]);
        } else {
            assert((a + b)[i] == b[i - a.len()]);
        }
    }
}

/// Two runs of attributes without a name.
pub broadcast proof fn unnamed_run(a: Seq<Attr>, b: Seq<Attr>, name: Seq<char>)
    requires
        unnamed(a, name),
        unnamed(b, name),
    ensures
        #[trigger] unnamed(a + b, name),
{
    assert forall|i: int| 0 <= i < (a + b).len() implies (#[trigger] (a + b)[i]).name != name by {
        if i < a.len() {
            assert((a + b)[i] == a[i]);
        } else {
            assert((a + b)[i] == b[i - a.len()]);
        }
    }
}

/// Two runs of attributes, the one with an attribute and the other without one
/// of that name.
pub broadcast proof fn holds_once_run(a: Seq<Attr>, b: Seq<Attr>, attr: Attr)
    requires
        holds_once(a, attr) && unnamed(b, attr.name) || unnamed(a, attr.name) && holds_once(
            b,
            attr,
        ),
    ensures
        #[trigger] holds_once(a + b, attr),
{
    let all = a + b;
    let k = if holds_once(a, attr) && unnamed(b, attr.name) {
        choose|k: int|
            0 <= k < a.len() && #[trigger] a[k] == attr && forall|i: int|
                0 <= i < a.len() && i != k ==> (#[trigger] a[i]).name != attr.name
    } else {
        let j = choose|k: int|
            0 <= k < b.len() && #[trigger] b[k] == attr && forall|i: int|
                0 <= i < b.len() && i != k ==> (#[trigger] b[i]).name != attr.name;
        j + a.len()
    };
    assert(all[k] == attr);
    assert forall|i: int| 0 <= i < all.len() && i != k implies (#[trigger] all[i]).name
        != attr.name by {
        if i < a.len() {
            assert(all[i] == a[i]);
        } else {
            assert(all[i] == b[i - a.len()]);
        }
    }
}

/// What is needed to see that attributes, given one by one or run by run, can be
/// read back, and which names stand among them.
pub broadcast group group_reading {
    encoded_len,
    legible_string,
    legible_strings,
    legible_number,
    legible_numbers,
    legible_boolean,
    legible_range,
    legible_resolutions,
    legible_push,
    legible_run,
    unnamed_push,
    unnamed_run,
    holds_once_new,
    holds_once_push,
    holds_once_run,
}

/// Of an answer with two groups are read the attributes of the second one whose
/// name no other attribute has.
pub proof fn second_group_read(m: Message, attr: Attr)
    requires
        legible(m),
        m.groups.len() == 2,
        unnamed(m.groups[0].attrs, attr.name),
        holds_once(m.groups[1].attrs, attr),
        attr.values.len() > 0,
    ensures
        ({
            &&& parse_request(encode_message(m)) matches Ok(request)
            &&& request.attributes.contains_key(attr.name)
            &&& request.attributes[attr.name] == (AttributeView {
                group: m.groups[1].tag,
                tag: attr.tag,
                values: attr.values,
            })
        }),
{
    let attrs = m.groups[1].attrs;
    let k = choose|k: int|
        0 <= k < attrs.len() && #[trigger] attrs[k] == attr && forall|i: int|
            0 <= i < attrs.len() && i != k ==> (#[trigger] attrs[i]).name != attr.name;
    assert(named_once(m.groups, 1, k));
    attribute_round_trip(m, Seq::empty(), 1, k);
    assert(encode_message(m) + Seq::empty() =~= encode_message(m));
}

/// Whether an attribute was given once, in a group and with a tag.
pub open spec fn is_given(attributes: Attributes, name: Seq<char>, group: u8, tag: u8) -> bool {
    &&& attributes.contains_key(name)
    &&& attributes[name].group == group
    &&& attributes[name].tag == tag
    &&& attributes[name].values.len() == 1
}

/// The text of an attribute that was written with one.
pub proof fn text_read(attributes: Attributes, tag: u8, name: Seq<char>, value: Seq<char>)
    requires
        attributes.contains_key(name),
        attributes[name].values == string_attr(tag, name, value).values,
    ensures
        string_of(attributes, name) == Some(value),
{
    lossy_text_of_encoded(value);
}

/// The number of an attribute that was written with one.
pub proof fn number_read(attributes: Attributes, tag: u8, name: Seq<char>, value: i32)
    requires
        attributes.contains_key(name),
        attributes[name].values == number_attr(tag, name, value).values,
    ensures
        integer_of(attributes, name) == Some(value),
{
    be32_round_trip(bits_of(value));
    signed_round_trip(value, 0);
}

/// The attributes that every answer begins with can be read back.
pub proof fn operation_attrs_legible()
    ensures
        legible_attrs(operation_attrs()),
{
    broadcast use group_reading;

    reveal_strlit("attributes-charset");
    reveal_strlit("utf-8");
    reveal_strlit("attributes-natural-language");
    reveal_strlit("en");
    encoded_len("utf-8"@);
    encoded_len("en"@);
    legible_none();
}

/// The address of the printer is short.
pub proof fn printer_uri_fits(ipp_port: u16)
    ensures
        fits16(encode_utf8(printer_uri(ipp_port)).len()),
{
    reveal_strlit("ipp://127.0.0.1:");
    reveal_strlit("/printers/virtual");
    decimal_len(ipp_port as nat);
    encoded_len(printer_uri(ipp_port));
}

// The laws ------------------------------------------------------------------

/// An answer about a job can be read back.
#[verifier::rlimit(40)]
pub proof fn job_answer_legible(
    request: RequestView,
    id: u32,
    name: Seq<char>,
    user: Seq<char>,
    state: i32,
    ipp_port: u16,
)
    requires
        fits16(encode_utf8(name).len()),
        fits16(encode_utf8(user).len()),
    ensures
        legible(job_message(request, id, name, user, state, ipp_port)),
{
    broadcast use group_reading;

    let m = job_message(request, id, name, user, state, ipp_port);
    let reason = state_reason(state);
    reveal_strlit("job-uri");
    reveal_strlit("job-id");
    reveal_strlit("job-name");
    reveal_strlit("job-originating-user-name");
    reveal_strlit("job-state");
    reveal_strlit("job-state-reasons");
    reveal_strlit("job-printer-uri");
    reveal_strlit("attributes-charset");
    reveal_strlit("attributes-natural-language");
    assert(fits16(encode_utf8(reason).len())) by {
        reveal_strlit("job-completed-successfully");
        reveal_strlit("job-canceled-by-user");
        reveal_strlit("none");
        encoded_len(reason);
    }
    assert(fits16(encode_utf8(job_uri(ipp_port, id)).len())) by {
        reveal_strlit("ipp://127.0.0.1:");
        reveal_strlit("/jobs/");
        decimal_len(ipp_port as nat);
        decimal_len(id as nat);
        encoded_len(job_uri(ipp_port, id));
    }
    printer_uri_fits(ipp_port);
    legible_none();
    assert(legible_attrs(m.groups[1].attrs));
    operation_attrs_legible();
    assert(legible(m));
}

/// What a client reads in an answer about a job: the number, the name, the user
/// and the state of the job, and the reason for the state.
pub proof fn job_answer_read(
    request: RequestView,
    id: u32,
    name: Seq<char>,
    user: Seq<char>,
    state: i32,
    ipp_port: u16,
)
    requires
        fits16(encode_utf8(name).len()),
        fits16(encode_utf8(user).len()),
    ensures
        ({
            let m = job_message(request, id, name, user, state, ipp_port);
            &&& parse_request(encode_message(m)) matches Ok(answer)
            &&& answer.version == request.version
            &&& answer.request_id == request.request_id
            &&& answer.operation == m.code
            &&& answer.document_offset == encode_message(m).len()
            &&& integer_of(answer.attributes, "job-id"@) == Some(signed(id))
            &&& integer_of(answer.attributes, "job-state"@) == Some(state)
            &&& string_of(answer.attributes, "job-name"@) == Some(name)
            &&& string_of(answer.attributes, "job-originating-user-name"@) == Some(user)
            &&& string_of(answer.attributes, "job-state-reasons"@) == Some(state_reason(state))
            &&& string_of(answer.attributes, "job-uri"@) == Some(job_uri(ipp_port, id))
            &&& string_of(answer.attributes, "job-printer-uri"@) == Some(printer_uri(ipp_port))
            &&& is_given(answer.attributes, "job-uri"@, GROUP_JOB, TAG_URI)
            &&& is_given(answer.attributes, "job-id"@, GROUP_JOB, TAG_INTEGER)
            &&& is_given(answer.attributes, "job-name"@, GROUP_JOB, TAG_NAME)
            &&& is_given(answer.attributes, "job-originating-user-name"@, GROUP_JOB, TAG_NAME)
            &&& is_given(answer.attributes, "job-state"@, GROUP_JOB, TAG_ENUM)
            &&& is_given(answer.attributes, "job-state-reasons"@, GROUP_JOB, TAG_KEYWORD)
            &&& is_given(answer.attributes, "job-printer-uri"@, GROUP_JOB, TAG_URI)
        }),
{
    broadcast use group_reading;

    let m = job_message(request, id, name, user, state, ipp_port);
    let reason = state_reason(state);
    reveal_strlit("job-uri");
    reveal_strlit("job-id");
    reveal_strlit("job-name");
    reveal_strlit("job-originating-user-name");
    reveal_strlit("job-state");
    reveal_strlit("job-state-reasons");
    reveal_strlit("job-printer-uri");
    reveal_strlit("attributes-charset");
    reveal_strlit("attributes-natural-language");
    assert("job-uri"@.len() == 7);
    assert("job-id"@.len() == 6);
    assert("job-name"@.len() == 8);
    assert("job-originating-user-name"@.len() == 25);
    assert("job-state"@.len() == 9);
    assert("job-state-reasons"@.len() == 17);
    assert("job-printer-uri"@.len() == 15);
    job_answer_legible(request, id, name, user, state, ipp_port);
    message_round_trip(m, Seq::empty());
    assert(encode_message(m) + Seq::empty() =~= encode_message(m));
    let a = string_attr(TAG_URI, "job-uri"@, job_uri(ipp_port, id));
    let b = number_attr(TAG_INTEGER, "job-id"@, signed(id));
    let c = string_attr(TAG_NAME, "job-name"@, name);
    let d = string_attr(TAG_NAME, "job-originating-user-name"@, user);
    let e = number_attr(TAG_ENUM, "job-state"@, state);
    let f = string_attr(TAG_KEYWORD, "job-state-reasons"@, reason);
    let g = string_attr(TAG_URI, "job-printer-uri"@, printer_uri(ipp_port));
    second_group_read(m, a);
    second_group_read(m, b);
    second_group_read(m, c);
    second_group_read(m, d);
    second_group_read(m, e);
    second_group_read(m, f);
    second_group_read(m, g);
    let read = parse_request(encode_message(m))->Ok_0.attributes;
    text_read(read, a.tag, a.name, job_uri(ipp_port, id));
    number_read(read, b.tag, b.name, signed(id));
    text_read(read, c.tag, c.name, name);
    text_read(read, d.tag, d.name, user);
    number_read(read, e.tag, e.name, state);
    text_read(read, f.tag, f.name, reason);
    text_read(read, g.tag, g.name, printer_uri(ipp_port));
}

/// What a client reads in an answer that says no more than that all is well.
pub proof fn success_answer_read(request: RequestView)
    ensures
        ({
            &&& parse_request(encode_message(success_message(request))) matches Ok(answer)
            &&& answer.version == request.version
            &&& answer.request_id == request.request_id
            &&& answer.operation == STATUS_OK
            &&& string_of(answer.attributes, "status-message"@) is None
        }),
{
    broadcast use group_reading;

    let m = success_message(request);
    operation_attrs_legible();
    assert(legible(m));
    reveal_strlit("attributes-charset");
    reveal_strlit("attributes-natural-language");
    reveal_strlit("status-message");
    assert("status-message"@.len() == 14);
    assert("attributes-charset"@.len() == 18);
    assert("attributes-natural-language"@.len() == 27);
    message_round_trip(m, Seq::empty());
    no_attribute_round_trip(m, Seq::empty(), "status-message"@);
    assert(encode_message(m) + Seq::empty() =~= encode_message(m));
}

/// A refusal can be read back.
pub proof fn failure_answer_legible(request: RequestView, status: u16, reason: Seq<char>)
    requires
        fits16(encode_utf8(reason).len()),
    ensures
        legible(failure_message(request, status, reason)),
{
    broadcast use group_reading;

    operation_attrs_legible();
    reveal_strlit("status-message");
    assert("status-message"@.len() == 14);
}

/// What a client reads in an answer to a request that is refused: the status and
/// the reason for it.
pub proof fn failure_answer_read(request: RequestView, status: u16, reason: Seq<char>)
    requires
        fits16(encode_utf8(reason).len()),
    ensures
        ({
            &&& parse_request(encode_message(failure_message(request, status, reason))) matches Ok(
                answer,
            )
            &&& answer.version == request.version
            &&& answer.request_id == request.request_id
            &&& answer.operation == status
            &&& string_of(answer.attributes, "status-message"@) == Some(reason)
            &&& is_given(answer.attributes, "status-message"@, GROUP_OPERATION, TAG_TEXT)
        }),
{
    broadcast use group_reading;

    let m = failure_message(request, status, reason);
    let attr = string_attr(TAG_TEXT, "status-message"@, reason);
    operation_attrs_legible();
    reveal_strlit("attributes-charset");
    reveal_strlit("attributes-natural-language");
    reveal_strlit("status-message");
    assert("status-message"@.len() == 14);
    assert("attributes-charset"@.len() == 18);
    assert("attributes-natural-language"@.len() == 27);
    assert(legible(m));
    assert(m.groups[0].attrs[2] == attr);
    assert(named_once(m.groups, 0, 2));
    message_round_trip(m, Seq::empty());
    attribute_round_trip(m, Seq::empty(), 0, 2);
    assert(encode_message(m) + Seq::empty() =~= encode_message(m));
    text_read(
        parse_request(encode_message(m))->Ok_0.attributes,
        TAG_TEXT,
        "status-message"@,
        reason,
    );
}

} // verus!
