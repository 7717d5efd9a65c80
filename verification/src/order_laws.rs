//! The order of names and numbers, and what the parts of a description are.

use crate::clock::Moment;
use crate::name_map::{bytes_before, name_before};
use crate::storage::{no_metadata, sequence_after, JobMetadata};
use vstd::prelude::*;
use vstd::utf8::encode_utf8;

verus! {

/// The first byte in which two names differ decides which stands first.
pub proof fn first_difference_decides(a: Seq<char>, b: Seq<char>, i: int)
    requires
        0 <= i < encode_utf8(a).len(),
        i < encode_utf8(b).len(),
        encode_utf8(a).take(i) == encode_utf8(b).take(i),
        encode_utf8(a)[i] < encode_utf8(b)[i],
    ensures
        name_before(a, b),
        !name_before(b, a),
{
    differing_bytes(encode_utf8(a), encode_utf8(b), i);
}

/// The first difference decides the order of bytes.
proof fn differing_bytes(a: Seq<u8>, b: Seq<u8>, i: int)
    requires
        0 <= i < a.len(),
        i < b.len(),
        a.take(i) == b.take(i),
        a[i] < b[i],
    ensures
        bytes_before(a, b),
        !bytes_before(b, a),
    decreases i,
{
    if i > 0 {
        let (x, y) = (a.drop_first(), b.drop_first());
        assert(a[0] == a.take(i)[0]);
        assert(b[0] == b.take(i)[0]);
        assert(x.take(i - 1) =~= a.take(i).drop_first());
        assert(y.take(i - 1) =~= b.take(i).drop_first());
        differing_bytes(x, y, i - 1);
    }
}

/// A name stands before every longer one that begins with it.
pub proof fn shorter_names_go_first(a: Seq<char>, b: Seq<char>)
    requires
        encode_utf8(a).is_prefix_of(encode_utf8(b)),
        encode_utf8(a).len() < encode_utf8(b).len(),
    ensures
        name_before(a, b),
        !name_before(b, a),
{
    prefix_goes_first(encode_utf8(a), encode_utf8(b));
}

/// Bytes stand before more bytes that begin with them.
proof fn prefix_goes_first(a: Seq<u8>, b: Seq<u8>)
    requires
        a.is_prefix_of(b),
        a.len() < b.len(),
    ensures
        bytes_before(a, b),
        !bytes_before(b, a),
    decreases a.len(),
{
    if a.len() > 0 {
        assert(a[0] == b.subrange(0, a.len() as int)[0]);
        assert(a.drop_first() =~= b.drop_first().subrange(0, a.len() - 1));
        prefix_goes_first(a.drop_first(), b.drop_first());
    }
}

/// Numbers count up by one; after the largest comes zero.
pub proof fn numbers_follow_each_other(sequence: u64)
    ensures
        sequence < 0xffff_ffff_ffff_ffff ==> sequence_after(sequence) == sequence + 1,
        sequence == 0xffff_ffff_ffff_ffff ==> sequence_after(sequence) == 0,
{
}

/// Jobs may come in at any moment since 1970 that a date of chrono can hold, in any
/// time zone.
pub proof fn moments_are_valid(now: Moment)
    requires
        0 <= now.seconds <= 8_210_266_876_799,
        now.nanos < 1_000_000_000,
        -86_400 < now.offset < 86_400,
    ensures
        now.valid(),
{
}

/// Of a job of which nothing is known no part is there.
pub proof fn nothing_is_known_at_first()
    ensures
        no_metadata().protocol.len() == 0,
        no_metadata().received_at.len() == 0,
        no_metadata().source is None,
        no_metadata().queue is None,
        no_metadata().user is None,
        no_metadata().job_name is None,
        no_metadata().document_format is None,
        no_metadata().protocol_file_name is None,
        no_metadata().bytes == 0,
        no_metadata().raw_file_name is None,
        no_metadata().attributes == Map::<Seq<char>, Seq<char>>::empty(),
{
}

/// Each part of a description is what its field holds.
pub proof fn descriptions_are_read_by_field(metadata: JobMetadata)
    ensures
        metadata@.protocol == metadata.protocol@,
        metadata@.received_at == metadata.received_at@,
        metadata.source matches Some(text) ==> metadata@.source == Some(text@),
        metadata.source is None ==> metadata@.source is None,
        metadata.queue matches Some(text) ==> metadata@.queue == Some(text@),
        metadata.queue is None ==> metadata@.queue is None,
        metadata.user matches Some(text) ==> metadata@.user == Some(text@),
        metadata.user is None ==> metadata@.user is None,
        metadata.job_name matches Some(text) ==> metadata@.job_name == Some(text@),
        metadata.job_name is None ==> metadata@.job_name is None,
        metadata.document_format matches Some(text) ==> metadata@.document_format == Some(text@),
        metadata.document_format is None ==> metadata@.document_format is None,
        metadata.protocol_file_name matches Some(text) ==> metadata@.protocol_file_name == Some(
            text@,
        ),
        metadata.protocol_file_name is None ==> metadata@.protocol_file_name is None,
        metadata@.bytes == metadata.bytes,
        metadata.raw_file_name matches Some(text) ==> metadata@.raw_file_name == Some(text@),
        metadata.raw_file_name is None ==> metadata@.raw_file_name is None,
        metadata@.attributes == metadata.attributes@,
{
}

} // verus!
