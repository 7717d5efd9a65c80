//! Where print jobs are kept: the names of their files and the description
//! that is kept beside the data.

use crate::clock::{local_now, plain_stamp, rfc3339, rfc3339_text, stamp, stamp_text, Moment};
use crate::name_map::NameMap;
use crate::notation::{push_zero_padded, zero_padded};
use crate::split::{trim_range, trimmed, Fill};
use crate::storage_laws::{file_names_are_safe, is_plain_name};
use crate::text::{
    ascii_lower_text, chars_of, is_letter_or_digit, option_text, owned, owned_option, same_text, starts_with,
    text_of, to_ascii_lowercase, to_uppercase, upper_text,
};
use std::path::PathBuf;
use vstd::prelude::*;
use vstd::string::StringExecFns;

verus! {

/// A path of the file system, which this library only hands on.
#[verifier::external_type_specification]
#[verifier::external_body]
pub struct ExPathBuf(PathBuf);

/// What is known of a print job.
#[derive(Debug)]
pub struct JobMetadata {
    pub protocol: String,
    pub received_at: String,
    pub source: Option<String>,
    pub queue: Option<String>,
    pub user: Option<String>,
    pub job_name: Option<String>,
    pub document_format: Option<String>,
    pub protocol_file_name: Option<String>,
    pub bytes: usize,
    pub raw_file_name: Option<String>,
    pub attributes: NameMap<String>,
}

/// What a [`JobMetadata`] holds.
pub struct MetadataView {
    pub protocol: Seq<char>,
    pub received_at: Seq<char>,
    pub source: Option<Seq<char>>,
    pub queue: Option<Seq<char>>,
    pub user: Option<Seq<char>>,
    pub job_name: Option<Seq<char>>,
    pub document_format: Option<Seq<char>>,
    pub protocol_file_name: Option<Seq<char>>,
    pub bytes: nat,
    pub raw_file_name: Option<Seq<char>>,
    pub attributes: Map<Seq<char>, Seq<char>>,
}

impl View for JobMetadata {
    type V = MetadataView;

    open spec fn view(&self) -> MetadataView {
        MetadataView {
            protocol: self.protocol@,
            received_at: self.received_at@,
            source: option_text(self.source),
            queue: option_text(self.queue),
            user: option_text(self.user),
            job_name: option_text(self.job_name),
            document_format: option_text(self.document_format),
            protocol_file_name: option_text(self.protocol_file_name),
            bytes: self.bytes as nat,
            raw_file_name: option_text(self.raw_file_name),
            attributes: self.attributes@,
        }
    }
}

/// A job of which nothing is known.
pub open spec fn no_metadata() -> MetadataView {
    MetadataView {
        protocol: Seq::empty(),
        received_at: Seq::empty(),
        source: None,
        queue: None,
        user: None,
        job_name: None,
        document_format: None,
        protocol_file_name: None,
        bytes: 0,
        raw_file_name: None,
        attributes: Map::empty(),
    }
}

impl Default for JobMetadata {
    fn default() -> (metadata: Self)
        ensures
            metadata@ == no_metadata(),
    {
        JobMetadata {
            protocol: String::new(),
            received_at: String::new(),
            source: None,
            queue: None,
            user: None,
            job_name: None,
            document_format: None,
            protocol_file_name: None,
            bytes: 0,
            raw_file_name: None,
            attributes: NameMap::new(),
        }
    }
}

impl Clone for JobMetadata {
    fn clone(&self) -> (copy: Self)
        ensures
            copy@ == self@,
    {
        JobMetadata {
            protocol: self.protocol.clone(),
            received_at: self.received_at.clone(),
            source: owned_option(&self.source),
            queue: owned_option(&self.queue),
            user: owned_option(&self.user),
            job_name: owned_option(&self.job_name),
            document_format: owned_option(&self.document_format),
            protocol_file_name: owned_option(&self.protocol_file_name),
            bytes: self.bytes,
            raw_file_name: owned_option(&self.raw_file_name),
            attributes: self.attributes.clone(),
        }
    }
}

/// A job that has been saved.
#[derive(Debug)]
pub struct SavedJob {
    pub raw_path: PathBuf,
    pub metadata_path: PathBuf,
    pub bytes: usize,
}

/// What has to be written for a job: the data under one name, and the
/// description under another.
#[derive(Debug)]
pub struct SavePlan {
    pub raw_file_name: String,
    pub metadata_file_name: String,
    pub metadata: JobMetadata,
}

// File names ----------------------------------------------------------------

/// Whether `c` is left as it is in a file name.
pub open spec fn is_file_char(c: char) -> bool {
    is_letter_or_digit(c) || c == '-' || c == '_' || c == '.'
}

/// `c` as it stands in a file name.
pub open spec fn file_char(c: char) -> char {
    if is_file_char(c) {
        c
    } else {
        '_'
    }
}

/// The longest part that a job's own words make up in a file name.
pub const MAX_COMPONENT_CHARS: usize = 80;

/// `value` as a part of a file name: every character that does not belong in
/// one is an underscore, the ends are freed of underscores and full stops, what
/// is too long is cut off, and where nothing is left a fixed name stands in.
pub open spec fn sanitized(value: Seq<char>) -> Seq<char> {
    let kept = trimmed(value.map_values(|c: char| file_char(c)), Fill::Mark);
    if kept.len() == 0 {
        "print-job"@
    } else if kept.len() > MAX_COMPONENT_CHARS {
        kept.take(MAX_COMPONENT_CHARS as int)
    } else {
        kept
    }
}

/// `value` as a part of a file name.
pub fn sanitize_component(value: &str) -> (component: String)
    ensures
        component@ == sanitized(value@),
{
    let chars = chars_of(value);
    let mut out: Vec<char> = Vec::new();
    let mut i: usize = 0;
    while i < chars.len()
        invariant
            i <= chars@.len(),
            chars@ == value@,
            out@ == chars@.take(i as int).map_values(|c: char| file_char(c)),
        decreases chars@.len() - i,
    {
        let c = chars[i];
        if c.is_alphanumeric() || c == '-' || c == '_' || c == '.' {
            out.push(c);
        } else {
            out.push('_');
        }
        i = i + 1;
        assert(out@ =~= chars@.take(i as int).map_values(|c: char| file_char(c)));
    }
    assert(chars@.take(i as int) =~= value@);
    assert(out@.subrange(0, out@.len() as int) =~= out@);
    let (start, end) = trim_range(out.as_slice(), 0, Fill::Mark);
    let ghost kept = out@.subrange(start as int, end as int);
    if start == end {
        owned("print-job")
    } else if end - start > MAX_COMPONENT_CHARS {
        assert(kept.take(MAX_COMPONENT_CHARS as int) =~= out@.subrange(
            start as int,
            start + MAX_COMPONENT_CHARS,
        ));
        text_of(out.as_slice(), start, start + MAX_COMPONENT_CHARS)
    } else {
        text_of(out.as_slice(), start, end)
    }
}

/// The extension that goes with a document format, the format being written in
/// small letters.
pub open spec fn format_extension(format: Seq<char>) -> Option<Seq<char>> {
    if format == "application/pdf"@ {
        Some("pdf"@)
    } else if format == "application/postscript"@ {
        Some("ps"@)
    } else if format == "application/vnd.hp-pcl"@ || format == "application/pcl"@ {
        Some("pcl"@)
    } else if format == "image/pwg-raster"@ {
        Some("pwg"@)
    } else if format == "image/urf"@ {
        Some("urf"@)
    } else if format == "image/jpeg"@ {
        Some("jpg"@)
    } else if format == "image/png"@ {
        Some("png"@)
    } else if format == "text/plain"@ {
        Some("txt"@)
    } else {
        None
    }
}

/// The extension that goes with the first bytes of the data.
pub open spec fn magic_extension(data: Seq<u8>) -> Seq<char> {
    // %PDF-
    if [0x25u8, 0x50, 0x44, 0x46, 0x2d]@.is_prefix_of(data) {
        "pdf"@
    // %!PS
    } else if [0x25u8, 0x21, 0x50, 0x53]@.is_prefix_of(data) {
        "ps"@
    } else if [0xffu8, 0xd8, 0xff]@.is_prefix_of(data) {
        "jpg"@
    // \x89PNG\r\n\x1a\n
    } else if [0x89u8, 0x50, 0x4e, 0x47, 0x0d, 0x0a, 0x1a, 0x0a]@.is_prefix_of(data) {
        "png"@
    // RaS2, RaS3
    } else if [0x52u8, 0x61, 0x53, 0x32]@.is_prefix_of(data) || [
        0x52u8,
        0x61,
        0x53,
        0x33,
    ]@.is_prefix_of(data) {
        "pwg"@
    // UNIRAST
    } else if [0x55u8, 0x4e, 0x49, 0x52, 0x41, 0x53, 0x54]@.is_prefix_of(data) {
        "urf"@
    // \x1b%-12345X
    } else if [0x1bu8, 0x25, 0x2d, 0x31, 0x32, 0x33, 0x34, 0x35, 0x58]@.is_prefix_of(data) {
        "pcl"@
    } else {
        "prn"@
    }
}

/// The extension of the file that holds `data`: that of the document format,
/// whatever its letter case, where the format is known; else that of the first
/// bytes.
pub open spec fn extension(data: Seq<u8>, document_format: Option<Seq<char>>) -> Seq<char> {
    match document_format {
        Some(format) => match format_extension(ascii_lower_text(format)) {
            Some(found) => found,
            None => magic_extension(data),
        },
        None => magic_extension(data),
    }
}

/// The extension of the file that holds `data`.
pub fn detect_extension(data: &[u8], document_format: Option<&str>) -> (found: &'static str)
    ensures
        found@ == extension(
            data@,
            match document_format {
                Some(format) => Some(format@),
                None => None,
            },
        ),
{
    if let Some(format) = document_format {
        let lower = to_ascii_lowercase(format);
        let lower = lower.as_str();
        if same_text(lower, "application/pdf") {
            return "pdf";
        } else if same_text(lower, "application/postscript") {
            return "ps";
        } else if same_text(lower, "application/vnd.hp-pcl") || same_text(
            lower,
            "application/pcl",
        ) {
            return "pcl";
        } else if same_text(lower, "image/pwg-raster") {
            return "pwg";
        } else if same_text(lower, "image/urf") {
            return "urf";
        } else if same_text(lower, "image/jpeg") {
            return "jpg";
        } else if same_text(lower, "image/png") {
            return "png";
        } else if same_text(lower, "text/plain") {
            return "txt";
        }
    }
    if starts_with(data, &[0x25u8, 0x50, 0x44, 0x46, 0x2d]) {
        "pdf"
    } else if starts_with(data, &[0x25u8, 0x21, 0x50, 0x53]) {
        "ps"
    } else if starts_with(data, &[0xffu8, 0xd8, 0xff]) {
        "jpg"
    } else if starts_with(data, &[0x89u8, 0x50, 0x4e, 0x47, 0x0d, 0x0a, 0x1a, 0x0a]) {
        "png"
    } else if starts_with(data, &[0x52u8, 0x61, 0x53, 0x32]) || starts_with(
        data,
        &[0x52u8, 0x61, 0x53, 0x33],
    ) {
        "pwg"
    } else if starts_with(data, &[0x55u8, 0x4e, 0x49, 0x52, 0x41, 0x53, 0x54]) {
        "urf"
    } else if starts_with(data, &[0x1bu8, 0x25, 0x2d, 0x31, 0x32, 0x33, 0x34, 0x35, 0x58]) {
        "pcl"
    } else {
        "prn"
    }
}

/// What the names of both files of a job begin with.
pub open spec fn file_base(
    stamp: Seq<char>,
    protocol: Seq<char>,
    sequence: u64,
    job_name: Option<Seq<char>>,
) -> Seq<char> {
    let name = match job_name {
        Some(name) => name,
        None => "print-job"@,
    };
    stamp + "_"@ + sanitized(upper_text(protocol)) + "_"@ + zero_padded(sequence as nat, 6) + "_"@
        + sanitized(name)
}

/// What the names of both files of a job begin with.
pub fn file_base_text(
    stamp: &str,
    protocol: &str,
    sequence: u64,
    job_name: &Option<String>,
) -> (base: String)
    ensures
        base@ == file_base(stamp@, protocol@, sequence, option_text(*job_name)),
{
    let mut base = owned(stamp);
    base.append("_");
    base.append(sanitize_component(to_uppercase(protocol).as_str()).as_str());
    base.append("_");
    push_zero_padded(&mut base, sequence, 6);
    base.append("_");
    match job_name {
        Some(name) => base.append(sanitize_component(name.as_str()).as_str()),
        None => base.append(sanitize_component("print-job").as_str()),
    }
    base
}

/// The description of a job as it is kept.
pub open spec fn kept_metadata(
    metadata: MetadataView,
    received_at: Seq<char>,
    bytes: nat,
    raw_file_name: Seq<char>,
) -> MetadataView {
    MetadataView { received_at, bytes, raw_file_name: Some(raw_file_name), ..metadata }
}

/// How the moment of a job is written in its file names.
pub const STAMP_FORMAT: &'static str = "%Y%m%d_%H%M%S_%3f";

/// A moment as it stands in file names.
pub open spec fn file_stamp(now: Moment) -> Seq<char> {
    stamp_text(now.seconds, now.nanos, now.offset, STAMP_FORMAT@)
}

impl SavePlan {
    /// Whether this is the plan for a job with this data and description, that
    /// came in at `now` and got the number `sequence`.
    pub open spec fn fits(
        self,
        data: Seq<u8>,
        metadata: MetadataView,
        sequence: u64,
        now: Moment,
    ) -> bool {
        let base = file_base(file_stamp(now), metadata.protocol, sequence, metadata.job_name);
        &&& plain_stamp(file_stamp(now), now)
        &&& self.raw_file_name@ == base + "."@ + extension(data, metadata.document_format)
        &&& self.metadata_file_name@ == base + ".json"@
        &&& self.metadata@ == kept_metadata(
            metadata,
            rfc3339_text(now.seconds, now.nanos, now.offset),
            data.len(),
            self.raw_file_name@,
        )
    }

    /// The job, once its two files have been written to these paths.
    pub fn saved(&self, raw_path: PathBuf, metadata_path: PathBuf) -> (job: SavedJob)
        ensures
            job == (SavedJob { raw_path, metadata_path, bytes: self.metadata.bytes }),
    {
        SavedJob { raw_path, metadata_path, bytes: self.metadata.bytes }
    }

    /// Whether the two file names are different, and each names a file right in
    /// the directory that it is put in.
    pub open spec fn is_safe(self) -> bool {
        &&& is_plain_name(self.raw_file_name@)
        &&& is_plain_name(self.metadata_file_name@)
        &&& self.raw_file_name@ != self.metadata_file_name@
    }
}

/// The place where jobs are kept.
#[derive(Debug)]
pub struct JobStorage {
    output_dir: PathBuf,
    sequence: u64,
}

/// The number that follows `sequence`: numbers start over when they run out.
pub open spec fn sequence_after(sequence: u64) -> u64 {
    if sequence == u64::MAX {
        0
    } else {
        (sequence + 1) as u64
    }
}

impl JobStorage {
    /// The directory that the files go to.
    pub closed spec fn dir(&self) -> PathBuf {
        self.output_dir
    }

    /// The number that the next job gets.
    pub closed spec fn next_sequence(&self) -> u64 {
        self.sequence
    }

    /// Storage in a directory. The first job gets the number one.
    pub fn new(output_dir: PathBuf) -> (storage: Self)
        ensures
            storage.dir() == output_dir,
            storage.next_sequence() == 1,
    {
        JobStorage { output_dir, sequence: 1 }
    }

    /// The directory that the files go to.
    pub fn output_dir(&self) -> (dir: &PathBuf)
        ensures
            *dir == self.dir(),
    {
        &self.output_dir
    }

    /// Takes the next number, and decides what has to be written for a job that
    /// came in at `now`.
    pub fn plan_save(&mut self, data: &[u8], metadata: JobMetadata, now: &Moment) -> (plan: SavePlan)
        requires
            now.valid(),
        ensures
            plan.fits(data@, metadata@, old(self).next_sequence(), *now),
            plan.is_safe(),
            final(self).dir() == old(self).dir(),
            final(self).next_sequence() == sequence_after(old(self).next_sequence()),
    {
        let sequence = self.sequence;
        self.sequence = sequence.wrapping_add(1);
        let stamp = stamp(now, STAMP_FORMAT);
        let base = file_base_text(
            stamp.as_str(),
            metadata.protocol.as_str(),
            sequence,
            &metadata.job_name,
        );
        proof {
            file_names_are_safe(
                stamp@,
                *now,
                metadata@.protocol,
                sequence,
                metadata@.job_name,
                data@,
                metadata@.document_format,
            );
        }
        let format = match &metadata.document_format {
            Some(format) => Some(format.as_str()),
            None => None,
        };
        let extension = detect_extension(data, format);
        let mut raw_file_name = base.clone();
        raw_file_name.append(".");
        raw_file_name.append(extension);
        let mut metadata_file_name = base;
        metadata_file_name.append(".json");
        let mut kept = metadata;
        kept.received_at = rfc3339(now);
        kept.bytes = data.len();
        kept.raw_file_name = Some(raw_file_name.clone());
        SavePlan { raw_file_name, metadata_file_name, metadata: kept }
    }

    /// Takes the next number, and decides what has to be written for a job that
    /// comes in now.
    pub fn save_bytes(&mut self, data: &[u8], metadata: JobMetadata) -> (plan: SavePlan)
        ensures
            exists|now: Moment|
                now.valid() && #[trigger] plan.fits(
                    data@,
                    metadata@,
                    old(self).next_sequence(),
                    now,
                ),
            plan.is_safe(),
            final(self).dir() == old(self).dir(),
            final(self).next_sequence() == sequence_after(old(self).next_sequence()),
    {
        let now = local_now();
        self.plan_save(data, metadata, &now)
    }
}

} // verus!
