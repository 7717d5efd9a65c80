//! How every answer opens.

use super::answers::{failure_answer_legible, job_answer_legible, operation_attrs_legible};
use super::encoder::operation_attrs;
use super::message::{
    encode_attrs, encode_groups, encode_message, encode_value, Attr, Group, Message,
};
use super::printer::printer_message;
use super::request::{parse_request, RequestView};
use super::responses::{failure_message, job_message, success_message};
use super::round_trip::{no_attribute_round_trip, unnamed};
use super::tracking::short_enough;
use super::wire_laws::{attribute_on_the_wire, groups_on_the_wire, message_on_the_wire};
use vstd::prelude::*;
use vstd::utf8::encode_utf8;

verus! {

/// How an answer opens behind its header: with the tag of the first group, the
/// character set and the language.
pub open spec fn opening() -> Seq<u8> {
    seq![1u8] + encode_value(0x47, encode_utf8("attributes-charset"@), encode_utf8("utf-8"@))
        + encode_value(0x48, encode_utf8("attributes-natural-language"@), encode_utf8("en"@))
}

/// Whether a message opens as it should.
pub open spec fn opens_well(m: Message) -> bool {
    let bytes = encode_message(m);
    let n = opening().len() as int;
    bytes.len() > 8 + n && bytes.subrange(8, 8 + n) == opening()
}

/// A message whose first group begins with the attributes for it opens as it
/// should.
proof fn first_group_opens(m: Message, more: Seq<Attr>)
    requires
        m.groups.len() > 0,
        m.groups[0].tag == 1,
        m.groups[0].attrs == operation_attrs() + more,
    ensures
        opens_well(m),
{
    let tag = m.groups[0].tag;
    let charset = Attr {
        tag: 0x47,
        name: "attributes-charset"@,
        values: seq![encode_utf8("utf-8"@)],
    };
    let language = Attr {
        tag: 0x48,
        name: "attributes-natural-language"@,
        values: seq![encode_utf8("en"@)],
    };
    let none = Seq::<Attr>::empty();
    assert(operation_attrs() =~= none.push(charset).push(language));
    attribute_on_the_wire(0x47, charset.name, Seq::empty(), charset.values[0]);
    attribute_on_the_wire(0x48, language.name, Seq::empty(), language.values[0]);
    groups_on_the_wire(none, charset, Seq::empty(), m.groups[0]);
    groups_on_the_wire(none.push(charset), language, Seq::empty(), m.groups[0]);
    assert(seq![tag] + encode_attrs(operation_attrs()) =~= opening());
    attrs_begin(operation_attrs(), more);
    groups_begin(m.groups);
    message_on_the_wire(m);
    let bytes = encode_message(m);
    let body = encode_groups(m.groups);
    let n = opening().len() as int;
    let first = seq![tag] + encode_attrs(m.groups[0].attrs);
    assert(first.take(n) =~= opening());
    assert(body.take(n) =~= first.take(n));
    assert(bytes.subrange(8, 8 + n) =~= body.take(n));
}

/// What attributes are written as begins with what the first of them are.
proof fn attrs_begin(a: Seq<Attr>, b: Seq<Attr>)
    ensures
        encode_attrs(a).len() <= encode_attrs(a + b).len(),
        encode_attrs(a + b).take(encode_attrs(a).len() as int) == encode_attrs(a),
    decreases b.len(),
{
    let n = encode_attrs(a).len() as int;
    if b.len() == 0 {
        assert(a + b =~= a);
        assert(encode_attrs(a).take(n) =~= encode_attrs(a));
    } else {
        let front = b.drop_last();
        attrs_begin(a, front);
        assert(a + b =~= (a + front).push(b.last()));
        groups_on_the_wire(a + front, b.last(), Seq::empty(), arbitrary());
        assert(encode_attrs(a + b).take(n) =~= encode_attrs(a + front).take(n));
    }
}

/// What groups are written as begins with what the first of them is.
proof fn groups_begin(groups: Seq<Group>)
    requires
        groups.len() > 0,
    ensures
        ({
            let first = seq![groups[0].tag] + encode_attrs(groups[0].attrs);
            &&& first.len() <= encode_groups(groups).len()
            &&& encode_groups(groups).take(first.len() as int) == first
        }),
    decreases groups.len(),
{
    let first = seq![groups[0].tag] + encode_attrs(groups[0].attrs);
    let front = groups.drop_last();
    assert(groups =~= front.push(groups.last()));
    groups_on_the_wire(Seq::empty(), arbitrary(), front, groups.last());
    if front.len() == 0 {
        groups_on_the_wire(Seq::empty(), arbitrary(), front, groups.last());
        assert(front =~= Seq::<Group>::empty());
        assert(encode_groups(groups) =~= first);
        assert(first.take(first.len() as int) =~= first);
    } else {
        groups_begin(front);
        assert(encode_groups(groups).take(first.len() as int) =~= encode_groups(front).take(
            first.len() as int,
        ));
    }
}

/// Whatever is answered, the answer opens with the character set and the
/// language.
pub proof fn answers_open_alike(
    request: RequestView,
    status: u16,
    reason: Seq<char>,
    id: u32,
    name: Seq<char>,
    user: Seq<char>,
    state: i32,
    ipp_port: u16,
)
    ensures
        opens_well(success_message(request)),
        opens_well(failure_message(request, status, reason)),
        opens_well(job_message(request, id, name, user, state, ipp_port)),
        opens_well(printer_message(request, ipp_port)),
{
    let none = Seq::<Attr>::empty();
    assert(operation_attrs() + none =~= operation_attrs());
    first_group_opens(success_message(request), none);
    let refusal = failure_message(request, status, reason);
    let last = refusal.groups[0].attrs.last();
    assert(refusal.groups[0].attrs =~= operation_attrs() + seq![last]);
    first_group_opens(refusal, seq![last]);
    first_group_opens(job_message(request, id, name, user, state, ipp_port), none);
    first_group_opens(printer_message(request, ipp_port), none);
}

/// Of an answer about a job nothing is read but the nine attributes that belong
/// in it.
pub proof fn job_answers_say_no_more(
    request: RequestView,
    id: u32,
    name: Seq<char>,
    user: Seq<char>,
    state: i32,
    ipp_port: u16,
    other: Seq<char>,
)
    requires
        short_enough(name, user),
        other != "attributes-charset"@,
        other != "attributes-natural-language"@,
        other != "job-uri"@,
        other != "job-id"@,
        other != "job-name"@,
        other != "job-originating-user-name"@,
        other != "job-state"@,
        other != "job-state-reasons"@,
        other != "job-printer-uri"@,
    ensures
        parse_request(
            encode_message(job_message(request, id, name, user, state, ipp_port)),
        ) matches Ok(answer) && !answer.attributes.contains_key(other),
{
    let m = job_message(request, id, name, user, state, ipp_port);
    let none = Seq::<u8>::empty();
    job_answer_legible(request, id, name, user, state, ipp_port);
    assert(unnamed(m.groups[0].attrs, other));
    assert(unnamed(m.groups[1].attrs, other));
    no_attribute_round_trip(m, none, other);
    assert(encode_message(m) + none =~= encode_message(m));
}

/// Of an answer that all is well nothing is read but the two attributes that it
/// opens with, and of a refusal only the reason besides.
pub proof fn plain_answers_say_no_more(
    request: RequestView,
    status: u16,
    reason: Seq<char>,
    other: Seq<char>,
)
    requires
        encode_utf8(reason).len() < 0x1_0000,
        other != "attributes-charset"@,
        other != "attributes-natural-language"@,
        other != "status-message"@,
    ensures
        parse_request(encode_message(success_message(request))) matches Ok(answer)
            && !answer.attributes.contains_key(other),
        parse_request(encode_message(failure_message(request, status, reason))) matches Ok(answer)
            && !answer.attributes.contains_key(other),
{
    let none = Seq::<u8>::empty();
    let well = success_message(request);
    let refusal = failure_message(request, status, reason);
    failure_answer_legible(request, status, reason);
    operation_attrs_legible();
    no_attribute_round_trip(well, none, other);
    no_attribute_round_trip(refusal, none, other);
    assert(encode_message(well) + none =~= encode_message(well));
    assert(encode_message(refusal) + none =~= encode_message(refusal));
}

} // verus!
