//! What is done at each step of a connection, and what a job is told by.

use super::control::{control_of, ControlView};
use super::control_laws::{is_tight, trimming_frees_a_text};
use super::error::LprError;
use super::header::{before_space, header_of, line_body};
use super::header_law::{header_line, header_round_trip, line_round_trip};
use super::jobs::{control_attributes, lpr_job_name, lpr_jobs};
use super::laws::{
    acks, conversation, data_files, file_bytes, files_bytes, job_received, jobs_are_what_was_sent,
    last_control_file, sent_name, taken, Ending, SentFile,
};
use super::session::{stepped, DataFileView, EventView, LprNext, SessionView, StageView};
use crate::notation::{decimal, decimal_is_digits, number_up_to, NumberFault};
use crate::notation_laws::numbers_are_read;
use crate::split::{find_char, find_char_place};
use vstd::prelude::*;
use vstd::utf8::encode_utf8;

verus! {

// Steps ---------------------------------------------------------------------

/// At the byte of a command: two asks for a job, three and four for the state of
/// the queue, one and five are read and ignored. Any other ends the connection
/// with an error that names the byte. Nothing is sent back, and nothing that was
/// received changes.
pub proof fn commands_are_told_apart(session: SessionView, code: u8, fault: NumberFault)
    requires
        session.stage is Command,
    ensures
        ({
            let (after, output, next) = stepped(session, EventView::Code(code), fault);
            &&& output.len() == 0
            &&& after.queue == session.queue && after.control == session.control && after.files
                == session.files
            &&& code == 2 <==> after.stage is QueueLine
            &&& code == 3 || code == 4 <==> after.stage is StatusLine
            &&& code == 1 || code == 5 <==> after.stage is IgnoredLine
            &&& 1 <= code <= 5 ==> next == LprNext::ReadLine
            &&& code == 0 || code > 5 ==> next == LprNext::Fail(LprError::UnsupportedCommand(code))
        }),
{
}

/// At the byte of a subcommand: one calls the job off, two and three bring a
/// control file and a data file. Any other ends the connection with an error that
/// names the byte. Nothing is sent back, and nothing that was received changes.
pub proof fn subcommands_are_told_apart(session: SessionView, code: u8, fault: NumberFault)
    requires
        session.stage is Subcommand,
    ensures
        ({
            let (after, output, next) = stepped(session, EventView::Code(code), fault);
            &&& output.len() == 0
            &&& after.queue == session.queue && after.control == session.control && after.files
                == session.files
            &&& code == 1 <==> after.stage is IgnoredLine
            &&& code == 2 <==> after.stage == (StageView::Header { control: true })
            &&& code == 3 <==> after.stage == (StageView::Header { control: false })
            &&& 1 <= code <= 3 ==> next == LprNext::ReadLine
            &&& code == 0 || code > 3 ==> next == LprNext::Fail(
                LprError::UnsupportedSubcommand(code),
            )
        }),
{
}

/// Whoever asks for the state of the queue is told that there are no jobs, and
/// nothing else happens; what is ignored is not answered. A connection that ends
/// before a line is given up.
pub proof fn lines_are_answered(session: SessionView, line: Seq<u8>, fault: NumberFault)
    requires
        session.stage is StatusLine || session.stage is IgnoredLine,
    ensures
        ({
            let (after, output, next) = stepped(session, EventView::Line(line), fault);
            &&& after.files == session.files
            &&& line.len() == 0 ==> output.len() == 0 && next == LprNext::Fail(LprError::EndOfLine)
            &&& line.len() > 0 ==> next == LprNext::Done
            &&& line.len() > 0 && session.stage is IgnoredLine ==> output.len() == 0
            &&& line.len() > 0 && session.stage is StatusLine ==> output == encode_utf8(
                "Virtual Print Sink: no queued jobs\n"@,
            )
        }),
{
}

/// A header whose file is taken is answered with a zero byte, and so many bytes
/// are read as it says; one that is not taken ends the connection with an error
/// that tells why, and with the length where it is too large.
pub proof fn headers_are_answered(
    session: SessionView,
    control: bool,
    count: usize,
    name: Seq<char>,
    fault: NumberFault,
)
    requires
        session.stage == (StageView::Header { control }),
        !name.contains('\n'),
        name.len() > 0 ==> name.last() != '\r',
        is_tight(name),
    ensures
        ({
            let line = encode_utf8(decimal(count as nat) + seq![' '] + name).push(10);
            let (after, output, next) = stepped(session, EventView::Line(line), fault);
            &&& after.queue == session.queue && after.control == session.control && after.files
                == session.files
            &&& if count > 0x1000_0000 {
                output == seq![1u8] && next == LprNext::Fail(
                    if control {
                        LprError::ControlTooLarge(count)
                    } else {
                        LprError::DataTooLarge(count)
                    },
                )
            } else if count == 0 && !control {
                output == seq![1u8] && next == LprNext::Fail(LprError::EmptyData)
            } else {
                &&& output == seq![0u8]
                &&& next == LprNext::ReadData(count)
                &&& after.stage == (StageView::Body { control, count, name })
            }
        }),
{
    let text = decimal(count as nat) + seq![' '] + name;
    assert(text =~= header_line(count, name));
    header_round_trip(count, name, fault);
    let none = Seq::<char>::empty();
    trimming_frees_a_text(none, name, none);
    assert(none + name + none =~= name);
}

/// A file that was read in full is there as it came: a data file behind those
/// before it, a control file in the place of one before it. It is answered with a
/// zero byte.
pub proof fn files_are_entered(
    session: SessionView,
    control: bool,
    count: usize,
    name: Seq<char>,
    data: Seq<u8>,
    fault: NumberFault,
)
    requires
        session.stage == (StageView::Body { control, count, name }),
        data.len() == count,
    ensures
        ({
            let (read, nothing, then) = stepped(session, EventView::Data(data), fault);
            let (after, output, next) = stepped(read, EventView::Terminator(0), fault);
            &&& nothing.len() == 0
            &&& then == LprNext::ReadTerminator
            &&& output == seq![0u8]
            &&& next == LprNext::ReadCode
            &&& after.stage is Subcommand
            &&& after.queue == session.queue
            &&& control ==> after.files == session.files && after.control == Some(control_of(data))
            &&& !control ==> {
                &&& after.control == session.control
                &&& after.files.len() == session.files.len() + 1
                &&& after.files.drop_last() == session.files
                &&& after.files.last().data == data
                &&& after.files.last().protocol_name == name
            }
        }),
{
    let after = stepped(
        stepped(session, EventView::Data(data), fault).0,
        EventView::Terminator(0),
        fault,
    ).0;
    if !control {
        assert(after.files.drop_last() =~= session.files);
    }
}

// Lines ---------------------------------------------------------------------

/// A line ends with a line feed, with a carriage return before it or not; the
/// line is what stands before.
pub proof fn endings_are_cut_off(line: Seq<u8>)
    requires
        line.len() > 0 ==> line.last() != 10 && line.last() != 13,
    ensures
        line_body(line) == line,
        line_body(line + seq![10u8]) == line,
        line_body(line + seq![13u8, 10u8]) == line,
        line_body(line + seq![13u8]) == line,
        line_body(line + seq![10u8, 10u8]) == line + seq![10u8],
        line_body(line + seq![13u8, 13u8, 10u8]) == line + seq![13u8],
{
    assert((line + seq![10u8]).drop_last() =~= line);
    assert((line + seq![13u8, 10u8]).drop_last() =~= line + seq![13u8]);
    assert((line + seq![13u8]).drop_last() =~= line);
    assert((line + seq![10u8, 10u8]).drop_last() =~= line + seq![10u8]);
    assert((line + seq![13u8, 13u8, 10u8]).drop_last() =~= line + seq![13u8, 13u8]);
    assert((line + seq![13u8, 13u8]).drop_last() =~= line + seq![13u8]);
}

/// A header is a length, a space and a name. Without a length it is refused for
/// that, and with one but without a space for the name that is missing.
pub proof fn incomplete_headers_are_refused(count: usize, word: Seq<char>, fault: NumberFault)
    requires
        !word.contains(' '),
        number_up_to(word, usize::MAX as nat) is None,
    ensures
        header_of(decimal(count as nat), fault) == Err::<(usize, Seq<char>), LprError>(
            LprError::MissingName,
        ),
        header_of(word, fault) == Err::<(usize, Seq<char>), LprError>(
            LprError::InvalidLength(fault),
        ),
        forall|name: Seq<char>| #[trigger]
            header_of(word + seq![' '] + name, fault) == Err::<(usize, Seq<char>), LprError>(
                LprError::InvalidLength(fault),
            ),
{
    let digits = decimal(count as nat);
    decimal_is_digits(count as nat);
    numbers_are_read(count as nat, usize::MAX as nat);
    find_char_place(digits, ' ', 0);
    if find_char(digits, ' ', 0) < digits.len() {
        assert('0' <= digits[find_char(digits, ' ', 0)]);
    }
    assert(before_space(digits) =~= digits);
    find_char_place(word, ' ', 0);
    if find_char(word, ' ', 0) < word.len() {
        assert(word.contains(word[find_char(word, ' ', 0)]));
    }
    assert(before_space(word) =~= word);
    assert forall|name: Seq<char>| #[trigger]
        header_of(word + seq![' '] + name, fault) == Err::<(usize, Seq<char>), LprError>(
            LprError::InvalidLength(fault),
        ) by {
        let line = word + seq![' '] + name;
        find_char_place(line, ' ', 0);
        let place = find_char(line, ' ', 0);
        assert(line[word.len() as int] == ' ');
        if place < word.len() {
            assert(line[place] == word[place]);
            assert(word.contains(word[place]));
        }
        assert(before_space(line) =~= word);
    }
}

// Jobs ----------------------------------------------------------------------

/// A job is called by the name that its control file gives it, else by the name of
/// the file that was printed, else by its place among the jobs, from one on.
pub proof fn jobs_have_names(control: ControlView, index: nat)
    ensures
        control.job_name matches Some(name) ==> lpr_job_name(control, index) == name,
        control.job_name is None ==> (control.source_name matches Some(name) ==> lpr_job_name(
            control,
            index,
        ) == name),
        control.job_name is None && control.source_name is None ==> lpr_job_name(control, index)
            == seq!['l', 'p', 'r', '-', 'j', 'o', 'b', '-'] + decimal((index + 1) as nat),
{
    reveal_strlit("lpr-job-");
    assert("lpr-job-"@ =~= seq!['l', 'p', 'r', '-', 'j', 'o', 'b', '-']);
}

/// Of a control file are kept its text, where it has any, and the host, where it
/// names one, and nothing else.
pub proof fn control_files_are_kept(control: ControlView, key: Seq<char>)
    ensures
        ({
            let kept = control_attributes(control);
            &&& kept.contains_key("lpr-control-file"@) <==> control.raw.len() > 0
            &&& control.raw.len() > 0 ==> kept["lpr-control-file"@] == control.raw
            &&& kept.contains_key("originating-host"@) <==> control.host is Some
            &&& control.host matches Some(host) ==> kept["originating-host"@] == host
            &&& kept.contains_key(key) ==> key == "lpr-control-file"@ || key
                == "originating-host"@
        }),
{
    reveal_strlit("lpr-control-file");
    reveal_strlit("originating-host");
    assert("lpr-control-file"@[0] != "originating-host"@[0]);
}

/// Without a control file nothing is known of a job but what the connection
/// shows.
pub proof fn nothing_is_made_up(session: SessionView, i: int, peer: Seq<char>)
    requires
        session.control is None,
        0 <= i < session.files.len(),
    ensures
        ({
            let job = lpr_jobs(session, peer)[i];
            &&& job.data == session.files[i].data
            &&& job.metadata.protocol == "LPR"@
            &&& job.metadata.source == Some(peer)
            &&& job.metadata.queue == Some(session.queue)
            &&& job.metadata.protocol_file_name == Some(session.files[i].protocol_name)
            &&& job.metadata.job_name == Some("lpr-job-"@ + decimal((i + 1) as nat))
            &&& job.metadata.user is None
            &&& job.metadata.document_format is None
            &&& job.metadata.raw_file_name is None
            &&& job.metadata.received_at.len() == 0
            &&& job.metadata.bytes == 0
            &&& job.metadata.attributes == Map::<Seq<char>, Seq<char>>::empty()
        }),
{
}

// A whole print ------------------------------------------------------------

/// Whether `text` can stand in a line by itself.
pub open spec fn fits_in_a_line(text: Seq<char>) -> bool {
    &&& !text.contains('\n')
    &&& text.len() > 0 ==> text.last() != '\r'
    &&& is_tight(text)
}

/// A file on the wire: its code, its length in decimal, a space and its name, a
/// line feed, its bytes, and a zero byte.
pub open spec fn on_the_wire(code: u8, name: Seq<char>, data: Seq<u8>) -> Seq<u8> {
    seq![code] + encode_utf8(decimal(data.len()) + seq![' '] + name) + seq![10u8] + data
        + seq![0u8]
}

/// Whoever sends the name of a queue, a control file and a data file is answered
/// with five zero bytes, and one job is saved: the bytes of the data file, under
/// the queue and the name that were sent, for the user that the control file
/// names.
pub proof fn printed_file_arrives(
    queue: Seq<char>,
    control_name: Seq<char>,
    control: Seq<u8>,
    name: Seq<char>,
    data: Seq<u8>,
    peer: Seq<char>,
    fault: NumberFault,
)
    requires
        !queue.contains('\n'),
        queue.len() > 0 ==> queue.last() != '\r',
        fits_in_a_line(control_name),
        fits_in_a_line(name),
        control.len() <= 0x1000_0000,
        0 < data.len() <= 0x1000_0000,
    ensures
        ({
            let input = seq![2u8] + encode_utf8(queue) + seq![10u8] + on_the_wire(
                2,
                control_name,
                control,
            ) + on_the_wire(3, name, data);
            let end = conversation(input, fault);
            let jobs = lpr_jobs(end.session, peer);
            let said = control_of(control);
            &&& end.output == seq![0u8, 0u8, 0u8, 0u8, 0u8]
            &&& end.ending == Ending::Ended(LprNext::Save)
            &&& jobs.len() == 1
            &&& jobs[0].data == data
            &&& jobs[0].metadata.protocol == "LPR"@
            &&& jobs[0].metadata.source == Some(peer)
            &&& jobs[0].metadata.queue == Some(queue)
            &&& jobs[0].metadata.user == said.user
            &&& jobs[0].metadata.job_name == Some(lpr_job_name(said, 0))
            &&& jobs[0].metadata.protocol_file_name == Some(name)
            &&& jobs[0].metadata.document_format is None
            &&& jobs[0].metadata.attributes == control_attributes(said)
        }),
{
    let none = Seq::<char>::empty();
    let clen = control.len() as usize;
    let dlen = data.len() as usize;
    let first = SentFile {
        control: true,
        header: encode_utf8(header_line(clen, control_name)),
        data: control,
    };
    let second = SentFile { control: false, header: encode_utf8(header_line(dlen, name)), data };
    let files = seq![first, second];
    assert(decimal(control.len()) + seq![' '] + control_name =~= header_line(clen, control_name));
    assert(decimal(data.len()) + seq![' '] + name =~= header_line(dlen, name));
    line_round_trip(queue);
    header_round_trip(clen, control_name, fault);
    header_round_trip(dlen, name, fault);
    trimming_frees_a_text(none, control_name, none);
    trimming_frees_a_text(none, name, none);
    assert(none + control_name + none =~= control_name);
    assert(none + name + none =~= name);
    assert(taken(files[0], fault) && taken(files[1], fault));
    let front = files.drop_last();
    assert(front =~= seq![first]);
    let empty = front.drop_last();
    assert(empty =~= Seq::<SentFile>::empty());
    assert(files_bytes(empty) == Seq::<u8>::empty());
    assert(files_bytes(front) =~= file_bytes(first));
    assert(files_bytes(files) =~= file_bytes(first) + file_bytes(second));
    let line = encode_utf8(queue);
    let input = seq![2u8] + line + seq![10u8] + on_the_wire(2, control_name, control)
        + on_the_wire(3, name, data);
    assert(input =~= seq![2u8] + line.push(10) + files_bytes(files));
    assert(last_control_file(front) == Some(control));
    assert(data_files(empty, fault) == Seq::<DataFileView>::empty());
    assert(data_files(front, fault) == Seq::<DataFileView>::empty());
    assert(data_files(files, fault).len() == 1);
    assert(data_files(files, fault)[0].protocol_name == sent_name(second, fault));
    job_received(line, files, fault);
    jobs_are_what_was_sent(line, files, peer, fault);
    assert(acks(5) =~= seq![0u8, 0u8, 0u8, 0u8, 0u8]);
    let end = conversation(input, fault);
    let jobs = lpr_jobs(end.session, peer);
    assert(jobs[0].data == data);
}

} // verus!
