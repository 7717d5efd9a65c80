//! What holds of every request that is read.

use super::message::{is_delimiter, GROUP_END};
use super::request::{
    parse_request, read_attributes, read_value, reading_start, with_value, IppError, Reading,
    RequestView,
};
use crate::wire::value16;
use vstd::prelude::*;

verus! {

/// Reading a value does not look behind it.
proof fn value_ends(rest: Seq<u8>, last: Option<Seq<char>>, n: int, tail: Seq<u8>)
    requires
        read_value(rest, last) matches Ok((name, value, next)) && next == rest.skip(n) && next.len()
            == rest.len() - n,
        0 <= n <= rest.len(),
    ensures
        ({
            let (name, value, next) = read_value(rest, last)->Ok_0;
            read_value(rest.take(n) + tail, last) == Ok::<
                (Seq<char>, Seq<u8>, Seq<u8>),
                IppError,
            >((name, value, tail))
        }),
        forall|k: int| 0 < k < n ==> read_value(#[trigger] rest.take(k), last) is Err,
{
    let name_len = value16(rest[1], rest[2]) as int;
    let at = 3 + name_len;
    let value_len = value16(rest[at], rest[at + 1]) as int;
    assert(n == at + 2 + value_len) by {
        assert(rest.skip(at + 2 + value_len).len() == rest.len() - (at + 2 + value_len));
    }
    let again = rest.take(n) + tail;
    assert(again[1] == rest[1] && again[2] == rest[2]);
    assert(again[at] == rest[at] && again[at + 1] == rest[at + 1]);
    assert(again.subrange(3, 3 + name_len) =~= rest.subrange(3, 3 + name_len));
    assert(again.subrange(at + 2, n) =~= rest.subrange(at + 2, n));
    assert(again.skip(n) =~= tail);
    assert forall|k: int| 0 < k < n implies read_value(#[trigger] rest.take(k), last) is Err by {
        let short = rest.take(k);
        if 3 <= k {
            assert(short[1] == rest[1] && short[2] == rest[2]);
            if at + 2 <= k {
                assert(short[at] == rest[at] && short[at + 1] == rest[at + 1]);
            }
        }
    }
}

/// Reading attributes looks no further than the end tag.
proof fn attributes_end(rest: Seq<u8>, reading: Reading, tail: Seq<u8>)
    requires
        read_attributes(rest, reading) is Ok,
    ensures
        ({
            let (attributes, document) = read_attributes(rest, reading)->Ok_0;
            let n = rest.len() - document.len();
            &&& 0 < n <= rest.len()
            &&& document == rest.skip(n)
            &&& read_attributes(rest.take(n) + tail, reading) == Ok::<_, IppError>(
                (attributes, tail),
            )
            &&& forall|k: int|
                0 <= k < n ==> read_attributes(#[trigger] rest.take(k), reading) is Err
        }),
    decreases rest.len(),
{
    let (attributes, document) = read_attributes(rest, reading)->Ok_0;
    let n = rest.len() - document.len();
    if rest[0] == GROUP_END {
        assert(document == rest.skip(1));
        assert((rest.take(1) + tail).skip(1) =~= tail);
        assert((rest.take(1) + tail)[0] == GROUP_END);
    } else {
        // What one step takes off, and where it leads.
        let step = if is_delimiter(rest[0]) {
            1
        } else {
            rest.len() - read_value(rest, reading.last)->Ok_0.2.len()
        };
        let after = if is_delimiter(rest[0]) {
            Reading { group: rest[0], last: None, attributes: reading.attributes }
        } else {
            let (name, value, next) = read_value(rest, reading.last)->Ok_0;
            Reading {
                group: reading.group,
                last: Some(name),
                attributes: with_value(
                    reading.attributes,
                    reading.group,
                    rest[0],
                    name,
                    value,
                ),
            }
        };
        let next = rest.skip(step);
        assert(read_attributes(rest, reading) == read_attributes(next, after));
        attributes_end(next, after, tail);
        assert(next.skip(n - step) =~= rest.skip(n));
        let again = rest.take(n) + tail;
        assert(again[0] == rest[0]);
        let again_next = next.take(n - step) + tail;
        assert(again.skip(step) =~= again_next);
        if !is_delimiter(rest[0]) {
            value_ends(rest, reading.last, step, again_next);
            assert(again =~= rest.take(step) + again_next);
        }
        assert forall|k: int| 0 <= k < n implies read_attributes(
            #[trigger] rest.take(k),
            reading,
        ) is Err by {
            let short = rest.take(k);
            if k > 0 {
                assert(short[0] == rest[0]);
                if k < step {
                    assert(read_value(rest.take(k), reading.last) is Err);
                } else {
                    let short_next = next.take(k - step);
                    assert(short.skip(step) =~= short_next);
                    assert(read_attributes(next.take(k - step), after) is Err);
                    if !is_delimiter(rest[0]) {
                        value_ends(rest, reading.last, step, short_next);
                        assert(short =~= rest.take(step) + short_next);
                    }
                }
            }
        }
    }
}

/// What stands behind the end tag does not matter: a request reads the same with
/// any other document.
pub proof fn document_does_not_matter(body: Seq<u8>, document: Seq<u8>)
    requires
        parse_request(body) is Ok,
    ensures
        ({
            let request = parse_request(body)->Ok_0;
            &&& request.document_offset <= body.len()
            &&& parse_request(body.take(request.document_offset as int) + document) == Ok::<
                RequestView,
                IppError,
            >(request)
        }),
{
    let request = parse_request(body)->Ok_0;
    let rest = body.skip(8);
    attributes_end(rest, reading_start(), document);
    let n = request.document_offset - 8;
    let again = body.take(request.document_offset as int) + document;
    assert(again.skip(8) =~= rest.take(n) + document);
}

/// A request that is cut off before its end tag is refused.
pub proof fn truncated_request_is_refused(body: Seq<u8>, k: int)
    requires
        parse_request(body) is Ok,
        0 <= k < parse_request(body)->Ok_0.document_offset,
    ensures
        parse_request(body.take(k)) is Err,
{
    let rest = body.skip(8);
    attributes_end(rest, reading_start(), Seq::empty());
    if k >= 9 {
        assert(body.take(k).skip(8) =~= rest.take(k - 8));
        assert(read_attributes(rest.take(k - 8), reading_start()) is Err);
    }
}

} // verus!
