//! What holds of the names of files.

use crate::clock::{plain_stamp, Moment};
use crate::notation::{
    all_digits, decimal, decimal_is_digits, decimal_round_trip, digits_value, zero_padded,
};
use crate::split::{trim_left, trim_right, trimmed, Fill};
use crate::storage::{
    extension, file_base, file_char, file_stamp, format_extension, is_file_char, sanitized,
    sequence_after, MetadataView, SavePlan, MAX_COMPONENT_CHARS,
};
use crate::text::{ascii_lower, ascii_lower_text, upper_text};
use vstd::prelude::*;

verus! {

/// Whether every character of a text belongs in a file name.
pub open spec fn all_file_chars(text: Seq<char>) -> bool {
    forall|i: int| 0 <= i < text.len() ==> is_file_char(#[trigger] text[i])
}

/// Whether a name is plain: it is not empty, does not begin with a full stop, and
/// has nothing in it but what belongs in a file name, and plus signs.
pub open spec fn is_plain_name(name: Seq<char>) -> bool {
    &&& name.len() > 0
    &&& name[0] != '.'
    &&& forall|i: int| 0 <= i < name.len() ==> is_file_char(#[trigger] name[i]) || name[i] == '+'
}

/// A plain name leads nowhere else: nothing in it separates the parts of a path
/// or ends a text, and it is neither the directory itself nor the one above.
pub proof fn plain_names_lead_nowhere(name: Seq<char>)
    requires
        is_plain_name(name),
    ensures
        !name.contains('/'),
        !name.contains('\\'),
        !name.contains(':'),
        !name.contains('\0'),
        name != seq!['.'],
        name != seq!['.', '.'],
{
    assert(seq!['.'][0] == '.');
    assert(seq!['.', '.'][0] == '.');
}

/// Trimming leaves a part of a text, which neither begins nor ends with what was
/// trimmed off.
pub proof fn trimming_leaves_a_part(s: Seq<char>, fill: Fill)
    ensures
        exists|from: int, to: int|
            0 <= from <= to <= s.len() && trimmed(s, fill) == #[trigger] s.subrange(from, to),
        trimmed(s, fill).len() > 0 ==> !fill.covers(trimmed(s, fill)[0]) && !fill.covers(
            trimmed(s, fill).last(),
        ),
{
    let from = left_part(s, fill);
    let left = trim_left(s, fill);
    let n = right_part(left, fill);
    assert(left.take(n) =~= s.subrange(from, from + n));
}

/// What is left of a text once its start has been trimmed.
proof fn left_part(s: Seq<char>, fill: Fill) -> (from: int)
    ensures
        0 <= from <= s.len(),
        trim_left(s, fill) == s.skip(from),
        trim_left(s, fill).len() > 0 ==> !fill.covers(trim_left(s, fill)[0]),
    decreases s.len(),
{
    if s.len() > 0 && fill.covers(s[0]) {
        let from = left_part(s.drop_first(), fill);
        assert(s.drop_first().skip(from) =~= s.skip(from + 1));
        from + 1
    } else {
        assert(s.skip(0) =~= s);
        0
    }
}

/// What is left of a text once its end has been trimmed.
proof fn right_part(s: Seq<char>, fill: Fill) -> (n: int)
    ensures
        0 <= n <= s.len(),
        trim_right(s, fill) == s.take(n),
        trim_right(s, fill).len() > 0 ==> !fill.covers(trim_right(s, fill).last()),
    decreases s.len(),
{
    if s.len() > 0 && fill.covers(s.last()) {
        let n = right_part(s.drop_last(), fill);
        assert(s.drop_last().take(n) =~= s.take(n));
        n
    } else {
        assert(s.take(s.len() as int) =~= s);
        s.len() as int
    }
}

/// A part of a file name is never empty, never too long, begins neither with an
/// underscore nor with a full stop, and has nothing in it that does not belong
/// in a file name.
pub proof fn components_are_safe(value: Seq<char>)
    ensures
        1 <= sanitized(value).len() <= MAX_COMPONENT_CHARS,
        all_file_chars(sanitized(value)),
        !Fill::Mark.covers(sanitized(value)[0]),
{
    let mapped = value.map_values(|c: char| file_char(c));
    let kept = trimmed(mapped, Fill::Mark);
    trimming_leaves_a_part(mapped, Fill::Mark);
    let (from, to) = choose|from: int, to: int|
        0 <= from <= to <= mapped.len() && kept == #[trigger] mapped.subrange(from, to);
    assert forall|i: int| 0 <= i < kept.len() implies is_file_char(#[trigger] kept[i]) by {
        assert(kept[i] == file_char(value[from + i]));
    }
    reveal_strlit("print-job");
    assert("print-job"@ =~= seq!['p', 'r', 'i', 'n', 't', '-', 'j', 'o', 'b']);
}

/// A value that is fit for a file name is left as it is.
pub proof fn fit_components_stay(value: Seq<char>)
    requires
        1 <= value.len() <= MAX_COMPONENT_CHARS,
        all_file_chars(value),
        !Fill::Mark.covers(value[0]),
        !Fill::Mark.covers(value.last()),
    ensures
        sanitized(value) == value,
{
    assert(value.map_values(|c: char| file_char(c)) =~= value);
}

/// Cleaning a part of a file name twice changes nothing more, unless what is too
/// long was cut right behind an underscore or a full stop.
pub proof fn cleaning_twice_changes_nothing(value: Seq<char>)
    requires
        !Fill::Mark.covers(sanitized(value).last()),
    ensures
        sanitized(sanitized(value)) == sanitized(value),
{
    components_are_safe(value);
    fit_components_stay(sanitized(value));
}

/// A number with zeros in front is all digits, and they write the number.
pub proof fn zero_padded_round_trip(n: nat, width: nat)
    ensures
        zero_padded(n, width).len() > 0,
        all_digits(zero_padded(n, width)),
        digits_value(zero_padded(n, width)) == n,
{
    decimal_is_digits(n);
    decimal_round_trip(n);
    if decimal(n).len() < width {
        let zeros = Seq::new((width - decimal(n).len()) as nat, |i: int| '0');
        zeros_in_front(zeros, decimal(n));
    }
}

/// Zeros in front of digits do not count.
proof fn zeros_in_front(zeros: Seq<char>, digits: Seq<char>)
    requires
        forall|i: int| 0 <= i < zeros.len() ==> #[trigger] zeros[i] == '0',
    ensures
        digits_value(zeros + digits) == digits_value(digits),
    decreases zeros.len() + digits.len(),
{
    let all = zeros + digits;
    if digits.len() > 0 {
        assert(all.drop_last() =~= zeros + digits.drop_last());
        zeros_in_front(zeros, digits.drop_last());
    } else if zeros.len() > 0 {
        assert(all.drop_last() =~= zeros.drop_last() + digits);
        zeros_in_front(zeros.drop_last(), digits);
    }
}

/// Jobs with different numbers have different file names, whatever follows: the
/// names of two jobs do not fall together while the names of their protocols are
/// equally long.
pub proof fn numbers_tell_files_apart(
    stamp1: Seq<char>,
    now1: Moment,
    protocol1: Seq<char>,
    sequence1: u64,
    name1: Option<Seq<char>>,
    end1: Seq<char>,
    stamp2: Seq<char>,
    now2: Moment,
    protocol2: Seq<char>,
    sequence2: u64,
    name2: Option<Seq<char>>,
    end2: Seq<char>,
)
    requires
        sequence1 != sequence2,
        plain_stamp(stamp1, now1),
        plain_stamp(stamp2, now2),
        sanitized(upper_text(protocol1)).len() == sanitized(upper_text(protocol2)).len(),
    ensures
        file_base(stamp1, protocol1, sequence1, name1) + end1 != file_base(
            stamp2,
            protocol2,
            sequence2,
            name2,
        ) + end2,
{
    let a = file_base(stamp1, protocol1, sequence1, name1) + end1;
    let b = file_base(stamp2, protocol2, sequence2, name2) + end2;
    let za = zero_padded(sequence1 as nat, 6);
    let zb = zero_padded(sequence2 as nat, 6);
    reveal_strlit("_");
    assert("_"@.len() == 1 && "_"@[0] == '_');
    let start = (stamp1.len() + sanitized(upper_text(protocol1)).len()) as int + 2;
    zero_padded_round_trip(sequence1 as nat, 6);
    zero_padded_round_trip(sequence2 as nat, 6);
    if a == b {
        let date1 = stamp1.len() - 11;
        let date2 = stamp2.len() - 11;
        assert(a[date1] == stamp1[date1] && b[date2] == stamp2[date2]);
        if date1 < date2 {
            assert(b[date1] == stamp2[date1]);
        } else if date2 < date1 {
            assert(a[date2] == stamp1[date2]);
        }
        assert(a.subrange(start, start + za.len()) =~= za);
        assert(b.subrange(start, start + zb.len()) =~= zb);
        assert(a[start + za.len()] == '_');
        assert(b[start + zb.len()] == '_');
        if za.len() < zb.len() {
            assert(zb[za.len() as int] == b[start + za.len()]);
        } else if zb.len() < za.len() {
            assert(za[zb.len() as int] == a[start + zb.len()]);
        }
    }
}

/// The extension does not depend on the letter case of the document format.
pub proof fn extension_ignores_case(data: Seq<u8>, format: Seq<char>)
    ensures
        extension(data, Some(ascii_lower_text(format))) == extension(data, Some(format)),
{
    let lower = ascii_lower_text(format);
    assert forall|i: int| 0 <= i < lower.len() implies ascii_lower(lower[i]) == #[trigger] lower[i] by {
        let c = format[i];
        assert(lower[i] == ascii_lower(c));
    }
    assert(ascii_lower_text(lower) =~= lower);
}

/// A document format that is known decides the extension, whatever the data;
/// where there is none, or an unknown one, the data decides.
pub proof fn format_goes_before_data(data: Seq<u8>, other: Seq<u8>, format: Seq<char>)
    ensures
        format_extension(ascii_lower_text(format)) is Some ==> extension(data, Some(format))
            == extension(other, Some(format)),
        format_extension(ascii_lower_text(format)) is None ==> extension(data, Some(format))
            == extension(data, None),
{
}

/// An extension has two or three characters, all fit for a file name: the data
/// and its description never share a file.
pub proof fn extensions_are_short(data: Seq<u8>, format: Option<Seq<char>>)
    ensures
        2 <= extension(data, format).len() <= 3,
        all_file_chars(extension(data, format)),
{
    reveal_strlit("pdf");
    reveal_strlit("ps");
    reveal_strlit("pcl");
    reveal_strlit("pwg");
    reveal_strlit("urf");
    reveal_strlit("jpg");
    reveal_strlit("png");
    reveal_strlit("txt");
    reveal_strlit("prn");
    assert("pdf"@ =~= seq!['p', 'd', 'f']);
    assert("ps"@ =~= seq!['p', 's']);
    assert("pcl"@ =~= seq!['p', 'c', 'l']);
    assert("pwg"@ =~= seq!['p', 'w', 'g']);
    assert("urf"@ =~= seq!['u', 'r', 'f']);
    assert("jpg"@ =~= seq!['j', 'p', 'g']);
    assert("png"@ =~= seq!['p', 'n', 'g']);
    assert("txt"@ =~= seq!['t', 'x', 't']);
    assert("prn"@ =~= seq!['p', 'r', 'n']);
}

/// The file names of a job are plain, and they are two.
pub proof fn file_names_are_safe(
    stamp: Seq<char>,
    now: Moment,
    protocol: Seq<char>,
    sequence: u64,
    name: Option<Seq<char>>,
    data: Seq<u8>,
    format: Option<Seq<char>>,
)
    requires
        plain_stamp(stamp, now),
    ensures
        ({
            let base = file_base(stamp, protocol, sequence, name);
            let raw_file = base + "."@ + extension(data, format);
            let metadata_file = base + ".json"@;
            &&& is_plain_name(raw_file)
            &&& is_plain_name(metadata_file)
            &&& raw_file != metadata_file
        }),
{
    let base = file_base(stamp, protocol, sequence, name);
    let own = match name {
        Some(name) => name,
        None => "print-job"@,
    };
    reveal_strlit("_");
    reveal_strlit(".");
    reveal_strlit(".json");
    assert("_"@ =~= seq!['_']);
    assert("."@ =~= seq!['.']);
    assert(".json"@ =~= seq!['.', 'j', 's', 'o', 'n']);
    components_are_safe(upper_text(protocol));
    components_are_safe(own);
    zero_padded_round_trip(sequence as nat, 6);
    extensions_are_short(data, format);
    let p1 = stamp + "_"@;
    let p2 = p1 + sanitized(upper_text(protocol));
    let p3 = p2 + "_"@;
    let p4 = p3 + zero_padded(sequence as nat, 6);
    let p5 = p4 + "_"@;
    assert(is_plain_name(stamp));
    assert(is_plain_name(p1));
    assert(is_plain_name(p2));
    assert(is_plain_name(p3));
    assert(is_plain_name(p4));
    assert(is_plain_name(p5));
    assert(is_plain_name(base));
    assert(is_plain_name(base + "."@));
}

/// Whatever a job is called and whenever it comes, its two files lie right in the
/// directory that they are put in, and the description is not written over the
/// data.
pub proof fn planned_files_are_safe(
    plan: SavePlan,
    data: Seq<u8>,
    metadata: MetadataView,
    sequence: u64,
    now: Moment,
)
    requires
        plan.fits(data, metadata, sequence, now),
    ensures
        plan.is_safe(),
{
    file_names_are_safe(
        file_stamp(now),
        now,
        metadata.protocol,
        sequence,
        metadata.job_name,
        data,
        metadata.document_format,
    );
}

/// The four files of two jobs with different numbers never fall together, whenever
/// the jobs come, while the names of their protocols are equally long.
pub proof fn plans_do_not_collide(
    plan1: SavePlan,
    data1: Seq<u8>,
    metadata1: MetadataView,
    sequence1: u64,
    now1: Moment,
    plan2: SavePlan,
    data2: Seq<u8>,
    metadata2: MetadataView,
    sequence2: u64,
    now2: Moment,
)
    requires
        plan1.fits(data1, metadata1, sequence1, now1),
        plan2.fits(data2, metadata2, sequence2, now2),
        sanitized(upper_text(metadata1.protocol)).len() == sanitized(
            upper_text(metadata2.protocol),
        ).len(),
        sequence1 != sequence2,
    ensures
        plan1.raw_file_name@ != plan1.metadata_file_name@,
        plan1.raw_file_name@ != plan2.raw_file_name@,
        plan1.raw_file_name@ != plan2.metadata_file_name@,
        plan1.metadata_file_name@ != plan2.raw_file_name@,
        plan1.metadata_file_name@ != plan2.metadata_file_name@,
        plan2.raw_file_name@ != plan2.metadata_file_name@,
{
    planned_files_are_safe(plan1, data1, metadata1, sequence1, now1);
    planned_files_are_safe(plan2, data2, metadata2, sequence2, now2);
    let base1 = file_base(file_stamp(now1), metadata1.protocol, sequence1, metadata1.job_name);
    let base2 = file_base(file_stamp(now2), metadata2.protocol, sequence2, metadata2.job_name);
    let raw1 = "."@ + extension(data1, metadata1.document_format);
    let raw2 = "."@ + extension(data2, metadata2.document_format);
    assert(base1 + "."@ + extension(data1, metadata1.document_format) =~= base1 + raw1);
    assert(base2 + "."@ + extension(data2, metadata2.document_format) =~= base2 + raw2);
    assert forall|end1: Seq<char>, end2: Seq<char>| #[trigger] (base1 + end1) != #[trigger] (base2
        + end2) by {
        numbers_tell_files_apart(
            file_stamp(now1),
            now1,
            metadata1.protocol,
            sequence1,
            metadata1.job_name,
            end1,
            file_stamp(now2),
            now2,
            metadata2.protocol,
            sequence2,
            metadata2.job_name,
            end2,
        );
    }
}

/// The number that a storage gives out after so many more jobs.
pub open spec fn sequence_after_jobs(sequence: u64, jobs: nat) -> u64
    decreases jobs,
{
    if jobs == 0 {
        sequence
    } else {
        sequence_after(sequence_after_jobs(sequence, (jobs - 1) as nat))
    }
}

/// Numbers count up, and start over after 2^64 jobs.
proof fn numbers_count_up(sequence: u64, jobs: nat)
    requires
        jobs < 0x1_0000_0000_0000_0000,
    ensures
        sequence_after_jobs(sequence, jobs) == if sequence + jobs <= u64::MAX {
            sequence + jobs
        } else {
            sequence + jobs - 0x1_0000_0000_0000_0000
        },
    decreases jobs,
{
    if jobs > 0 {
        numbers_count_up(sequence, (jobs - 1) as nat);
    }
}

/// A storage never gives two jobs a file in common, not even within one
/// millisecond and under one name, while the names of their protocols are equally
/// long and the numbers have not run out in between.
pub proof fn later_jobs_do_not_collide(
    plan1: SavePlan,
    data1: Seq<u8>,
    metadata1: MetadataView,
    sequence: u64,
    now1: Moment,
    jobs: nat,
    plan2: SavePlan,
    data2: Seq<u8>,
    metadata2: MetadataView,
    now2: Moment,
)
    requires
        0 < jobs < 0x1_0000_0000_0000_0000,
        plan1.fits(data1, metadata1, sequence, now1),
        plan2.fits(data2, metadata2, sequence_after_jobs(sequence, jobs), now2),
        sanitized(upper_text(metadata1.protocol)).len() == sanitized(
            upper_text(metadata2.protocol),
        ).len(),
    ensures
        plan1.raw_file_name@ != plan1.metadata_file_name@,
        plan1.raw_file_name@ != plan2.raw_file_name@,
        plan1.raw_file_name@ != plan2.metadata_file_name@,
        plan1.metadata_file_name@ != plan2.raw_file_name@,
        plan1.metadata_file_name@ != plan2.metadata_file_name@,
        plan2.raw_file_name@ != plan2.metadata_file_name@,
{
    numbers_count_up(sequence, jobs);
    plans_do_not_collide(
        plan1,
        data1,
        metadata1,
        sequence,
        now1,
        plan2,
        data2,
        metadata2,
        sequence_after_jobs(sequence, jobs),
        now2,
    );
}

} // verus!
