//! What holds of a whole connection.

use super::control::{control_of, no_control};
use super::header::{header_of, line_body};
use super::jobs::{control_attributes, lpr_job_name, lpr_jobs};
use super::session::{
    at, due, session_start, stepped, with_file, DataFileView, EventView, LprNext, SessionView,
    StageView, ACK, NACK,
};
use crate::notation::NumberFault;
use crate::storage::{no_metadata, MetadataView};
use crate::text::lossy_text;
use vstd::prelude::*;

verus! {

// What is due ---------------------------------------------------------------

/// Whether `next` asks for what is due at a stage.
pub open spec fn asks_for(next: LprNext, stage: StageView) -> bool {
    match stage {
        StageView::Command | StageView::Subcommand => next is ReadCode,
        StageView::QueueLine | StageView::StatusLine | StageView::IgnoredLine
        | StageView::Header { .. } => next is ReadLine,
        StageView::Body { count, .. } => next == LprNext::ReadData(count),
        StageView::Terminator { .. } => next is ReadTerminator,
        StageView::Over => next is Done || next is Fail || next is Save,
    }
}

/// Whatever comes, what has to be done next is to read what is due then, or the
/// connection is over.
pub proof fn steps_ask_for_what_is_due(session: SessionView, event: EventView, fault: NumberFault)
    requires
        due(session.stage, event),
    ensures
        asks_for(stepped(session, event, fault).2, stepped(session, event, fault).0.stage),
{
}

/// Whatever can come at a stage may come: any byte where a command or a subcommand
/// is due, or the end; any line where a line is; as many bytes as the header said;
/// and any byte behind a file.
pub proof fn anything_may_come(
    byte: u8,
    line: Seq<u8>,
    data: Seq<u8>,
    control: bool,
    name: Seq<char>,
)
    ensures
        due(StageView::Command, EventView::Code(byte)),
        due(StageView::Command, EventView::End),
        due(StageView::Subcommand, EventView::Code(byte)),
        due(StageView::Subcommand, EventView::End),
        due(StageView::QueueLine, EventView::Line(line)),
        due(StageView::StatusLine, EventView::Line(line)),
        due(StageView::IgnoredLine, EventView::Line(line)),
        due(StageView::Header { control }, EventView::Line(line)),
        data.len() <= usize::MAX ==> due(
            StageView::Body { control, count: data.len() as usize, name },
            EventView::Data(data),
        ),
        due(StageView::Terminator { control, name, data }, EventView::Terminator(byte)),
{
}

/// Every answer is one byte, or none; but for the state of the queue.
pub proof fn answers_are_short(session: SessionView, event: EventView, fault: NumberFault)
    requires
        due(session.stage, event),
        !(session.stage is StatusLine),
    ensures
        ({
            let output = stepped(session, event, fault).1;
            output == Seq::<u8>::empty() || output == seq![0u8] || output == seq![1u8]
        }),
{
}

/// A connection that was refused with a byte is given up.
pub proof fn refusal_ends_connection(session: SessionView, event: EventView, fault: NumberFault)
    requires
        due(session.stage, event),
        !(session.stage is StatusLine),
    ensures
        stepped(session, event, fault).1 == seq![1u8] ==> stepped(session, event, fault).2 is Fail,
{
    assert(seq![ACK][0] != seq![NACK][0]);
    assert(seq![1u8][0] == NACK);
}

/// Files stay as they were received: a step adds a file at the end, or leaves
/// them alone.
pub proof fn files_stay(session: SessionView, event: EventView, fault: NumberFault)
    requires
        due(session.stage, event),
    ensures
        ({
            let files = stepped(session, event, fault).0.files;
            files == session.files || files.len() == session.files.len() + 1 && files.drop_last()
                == session.files
        }),
{
    let files = stepped(session, event, fault).0.files;
    if files.len() == session.files.len() + 1 {
        assert(files.drop_last() =~= session.files);
    }
}

/// Only the end of a connection, where a subcommand was due, saves anything.
pub proof fn only_the_end_saves(session: SessionView, event: EventView, fault: NumberFault)
    requires
        due(session.stage, event),
    ensures
        stepped(session, event, fault).2 is Save <==> session.stage is Subcommand && event is End,
{
}

// A whole connection --------------------------------------------------------

/// How a connection ended.
pub enum Ending {
    /// As it should, or with an error.
    Ended(LprNext),
    /// In the middle of a file.
    BrokenOff,
}

/// What is sent back over a connection in all, how it ended, and what had been
/// received by then.
pub struct Outcome {
    pub output: Seq<u8>,
    pub ending: Ending,
    pub session: SessionView,
}

/// The length of the line at the start of `input`, with its ending.
pub open spec fn line_len(input: Seq<u8>) -> nat
    decreases input.len(),
{
    if input.len() == 0 {
        0
    } else if input[0] == 10 {
        1
    } else {
        1 + line_len(input.drop_first())
    }
}

/// A line is not longer than all there is.
proof fn line_len_bound(input: Seq<u8>)
    ensures
        line_len(input) <= input.len(),
        input.len() > 0 ==> line_len(input) > 0,
    decreases input.len(),
{
    if input.len() > 0 && input[0] != 10 {
        line_len_bound(input.drop_first());
    }
}

/// A line without a line feed in it, and one behind it, is a line.
proof fn line_len_of(line: Seq<u8>, tail: Seq<u8>)
    requires
        !line.contains(10),
    ensures
        line_len(line.push(10) + tail) == line.len() + 1,
    decreases line.len(),
{
    let input = line.push(10) + tail;
    if line.len() == 0 {
        assert(input[0] == 10);
    } else {
        assert(line.contains(line[0]));
        let rest = line.drop_first();
        assert forall|x: u8| rest.contains(x) implies line.contains(x) by {
            let i = choose|i: int| 0 <= i < rest.len() && rest[i] == x;
            assert(line[i + 1] == x);
        }
        assert(!rest.contains(10));
        line_len_of(rest, tail);
        assert(input.drop_first() =~= rest.push(10) + tail);
        assert(input[0] == line[0]);
    }
}

/// What becomes of a connection over which `input` comes, when `output` has
/// been sent back already and `next` has to be done.
#[verifier::opaque]
pub open spec fn outcome(
    session: SessionView,
    next: LprNext,
    input: Seq<u8>,
    output: Seq<u8>,
    fault: NumberFault,
) -> Outcome
    decreases input.len(), (if next is ReadData { 1int } else { 0 }),
    via outcome_decreases
{
    match next {
        LprNext::ReadCode => if input.len() == 0 {
            let (after, sent, end) = stepped(session, EventView::End, fault);
            Outcome { output: output + sent, ending: Ending::Ended(end), session: after }
        } else {
            let (after, sent, then) = stepped(session, EventView::Code(input[0]), fault);
            outcome(after, then, input.skip(1), output + sent, fault)
        },
        LprNext::ReadLine => {
            let n = line_len(input) as int;
            let (after, sent, then) = stepped(session, EventView::Line(input.take(n)), fault);
            if n == 0 {
                Outcome { output: output + sent, ending: Ending::Ended(then), session: after }
            } else {
                outcome(after, then, input.skip(n), output + sent, fault)
            }
        },
        LprNext::ReadData(count) => if input.len() < count {
            Outcome { output, ending: Ending::BrokenOff, session }
        } else {
            let data = input.take(count as int);
            let (after, sent, then) = stepped(session, EventView::Data(data), fault);
            outcome(after, then, input.skip(count as int), output + sent, fault)
        },
        LprNext::ReadTerminator => if input.len() == 0 {
            Outcome { output, ending: Ending::BrokenOff, session }
        } else {
            let (after, sent, then) = stepped(session, EventView::Terminator(input[0]), fault);
            outcome(after, then, input.skip(1), output + sent, fault)
        },
        _ => Outcome { output, ending: Ending::Ended(next), session },
    }
}

#[via_fn]
proof fn outcome_decreases(
    session: SessionView,
    next: LprNext,
    input: Seq<u8>,
    output: Seq<u8>,
    fault: NumberFault,
) {
    line_len_bound(input);
}

/// The byte of a command or a subcommand comes.
proof fn code_comes(session: SessionView, input: Seq<u8>, output: Seq<u8>, fault: NumberFault)
    requires
        input.len() > 0,
    ensures
        ({
            let (after, sent, then) = stepped(session, EventView::Code(input[0]), fault);
            outcome(session, LprNext::ReadCode, input, output, fault) == outcome(
                after,
                then,
                input.skip(1),
                output + sent,
                fault,
            )
        }),
{
    reveal(outcome);
}

/// A line comes.
proof fn line_comes(
    session: SessionView,
    line: Seq<u8>,
    rest: Seq<u8>,
    output: Seq<u8>,
    fault: NumberFault,
)
    requires
        !line.contains(10),
    ensures
        ({
            let (after, sent, then) = stepped(session, EventView::Line(line.push(10)), fault);
            outcome(session, LprNext::ReadLine, line.push(10) + rest, output, fault) == outcome(
                after,
                then,
                rest,
                output + sent,
                fault,
            )
        }),
{
    reveal(outcome);
    let input = line.push(10) + rest;
    let n = line.len() as int + 1;
    line_len_of(line, rest);
    assert(input.take(n) =~= line.push(10));
    assert(input.skip(n) =~= rest);
}

/// The bytes of a file come.
proof fn data_comes(
    session: SessionView,
    data: Seq<u8>,
    rest: Seq<u8>,
    output: Seq<u8>,
    fault: NumberFault,
)
    requires
        data.len() <= usize::MAX,
    ensures
        ({
            let (after, sent, then) = stepped(session, EventView::Data(data), fault);
            outcome(
                session,
                LprNext::ReadData(data.len() as usize),
                data + rest,
                output,
                fault,
            ) == outcome(after, then, rest, output + sent, fault)
        }),
{
    reveal(outcome);
    let input = data + rest;
    assert(input.take(data.len() as int) =~= data);
    assert(input.skip(data.len() as int) =~= rest);
}

/// The byte behind a file comes.
proof fn terminator_comes(session: SessionView, input: Seq<u8>, output: Seq<u8>, fault: NumberFault)
    requires
        input.len() > 0,
    ensures
        ({
            let (after, sent, then) = stepped(session, EventView::Terminator(input[0]), fault);
            outcome(session, LprNext::ReadTerminator, input, output, fault) == outcome(
                after,
                then,
                input.skip(1),
                output + sent,
                fault,
            )
        }),
{
    reveal(outcome);
}

/// What becomes of a connection over which `input` comes.
pub open spec fn conversation(input: Seq<u8>, fault: NumberFault) -> Outcome {
    outcome(session_start(), LprNext::ReadCode, input, Seq::empty(), fault)
}

/// A file as it is sent: whether it is a control file, its header without the
/// line feed, and its bytes.
pub struct SentFile {
    pub control: bool,
    pub header: Seq<u8>,
    pub data: Seq<u8>,
}

/// The text of a header.
pub open spec fn header_text(header: Seq<u8>) -> Seq<char> {
    lossy_text(line_body(header.push(10)))
}

/// Whether a file is taken: its header gives its length, which is not above the
/// limit and, for data, not zero.
pub open spec fn taken(file: SentFile, fault: NumberFault) -> bool {
    &&& !file.header.contains(10)
    &&& header_of(header_text(file.header), fault) matches Ok((count, name))
    &&& count == file.data.len()
    &&& count <= 256 * 1024 * 1024
    &&& file.control || count > 0
}

/// The name in the header of a file.
pub open spec fn sent_name(file: SentFile, fault: NumberFault) -> Seq<char> {
    match header_of(header_text(file.header), fault) {
        Ok((count, name)) => name,
        Err(error) => Seq::empty(),
    }
}

/// A file on the wire.
pub open spec fn file_bytes(file: SentFile) -> Seq<u8> {
    seq![if file.control { 2u8 } else { 3u8 }] + file.header + seq![10u8] + file.data + seq![0u8]
}

/// Files on the wire.
pub open spec fn files_bytes(files: Seq<SentFile>) -> Seq<u8>
    decreases files.len(),
{
    if files.len() == 0 {
        Seq::empty()
    } else {
        files_bytes(files.drop_last()) + file_bytes(files.last())
    }
}

/// `session` with files.
pub open spec fn with_files(
    session: SessionView,
    files: Seq<SentFile>,
    fault: NumberFault,
) -> SessionView
    decreases files.len(),
{
    if files.len() == 0 {
        session
    } else {
        let last = files.last();
        with_file(
            with_files(session, files.drop_last(), fault),
            last.control,
            sent_name(last, fault),
            last.data,
        )
    }
}

/// So many bytes that say that all is well.
pub open spec fn acks(n: nat) -> Seq<u8> {
    Seq::new(n, |i: int| 0u8)
}

/// A file that is taken is answered twice, and is there afterwards.
proof fn file_received(
    session: SessionView,
    file: SentFile,
    tail: Seq<u8>,
    output: Seq<u8>,
    fault: NumberFault,
)
    requires
        session.stage is Subcommand,
        taken(file, fault),
    ensures
        outcome(session, LprNext::ReadCode, file_bytes(file) + tail, output, fault) == outcome(
            with_file(session, file.control, sent_name(file, fault), file.data),
            LprNext::ReadCode,
            tail,
            output + acks(2),
            fault,
        ),
{
    let none = Seq::<u8>::empty();
    let input = file_bytes(file) + tail;
    let name = sent_name(file, fault);
    let count = file.data.len() as usize;
    let after_data = seq![0u8] + tail;
    let after_line = file.data + after_data;
    let after_code = file.header.push(10) + after_line;
    assert(input.skip(1) =~= after_code);
    assert(after_data.skip(1) =~= tail);
    assert(output + none =~= output);
    assert(output + seq![ACK] + none =~= output + seq![ACK]);
    assert(output + seq![ACK] + seq![ACK] =~= output + acks(2));

    code_comes(session, input, output, fault);
    let s1 = at(session, StageView::Header { control: file.control });
    line_comes(s1, file.header, after_line, output, fault);
    let s2 = at(session, StageView::Body { control: file.control, count, name });
    assert(stepped(s1, EventView::Line(file.header.push(10)), fault) == (
        s2,
        seq![ACK],
        LprNext::ReadData(count),
    ));
    data_comes(s2, file.data, after_data, output + seq![ACK], fault);
    let s3 = at(session, StageView::Terminator { control: file.control, name, data: file.data });
    terminator_comes(s3, after_data, output + seq![ACK], fault);
    assert(with_file(s3, file.control, name, file.data) == with_file(
        session,
        file.control,
        name,
        file.data,
    ));
}

/// Files that are taken are answered twice each, and are there afterwards.
proof fn files_received(
    session: SessionView,
    files: Seq<SentFile>,
    tail: Seq<u8>,
    output: Seq<u8>,
    fault: NumberFault,
)
    requires
        session.stage is Subcommand,
        forall|i: int| 0 <= i < files.len() ==> taken(#[trigger] files[i], fault),
    ensures
        with_files(session, files, fault).stage is Subcommand,
        outcome(session, LprNext::ReadCode, files_bytes(files) + tail, output, fault) == outcome(
            with_files(session, files, fault),
            LprNext::ReadCode,
            tail,
            output + acks(2 * files.len()),
            fault,
        ),
    decreases files.len(),
{
    if files.len() == 0 {
        assert(files_bytes(files) + tail =~= tail);
        assert(output + acks(0) =~= output);
    } else {
        let front = files.drop_last();
        let last = files.last();
        assert forall|i: int| 0 <= i < front.len() implies taken(#[trigger] front[i], fault) by {
            assert(front[i] == files[i]);
        }
        assert(files_bytes(files) + tail =~= files_bytes(front) + (file_bytes(last) + tail));
        files_received(session, front, file_bytes(last) + tail, output, fault);
        assert(taken(files[files.len() - 1], fault));
        file_received(
            with_files(session, front, fault),
            last,
            tail,
            output + acks(2 * front.len()),
            fault,
        );
        assert(output + acks(2 * front.len()) + acks(2) =~= output + acks(2 * files.len()));
    }
}

/// The session once the queue is known.
pub open spec fn queue_known(queue: Seq<char>) -> SessionView {
    SessionView { stage: StageView::Subcommand, queue, ..session_start() }
}

/// A connection that brings a job: the command and the queue are answered once,
/// every file is answered twice, and at the end all that was sent is to be
/// saved.
pub proof fn job_received(queue: Seq<u8>, files: Seq<SentFile>, fault: NumberFault)
    requires
        !queue.contains(10),
        forall|i: int| 0 <= i < files.len() ==> taken(#[trigger] files[i], fault),
    ensures
        conversation(seq![2u8] + queue.push(10) + files_bytes(files), fault) == (Outcome {
            output: acks(1 + 2 * files.len()),
            ending: Ending::Ended(LprNext::Save),
            session: at(
                with_files(queue_known(header_text(queue)), files, fault),
                StageView::Over,
            ),
        }),
{
    let none = Seq::<u8>::empty();
    let rest = files_bytes(files) + none;
    let input = seq![2u8] + queue.push(10) + files_bytes(files);
    let sent = acks(1 + 2 * files.len());
    assert(input.skip(1) =~= queue.push(10) + rest);
    assert(none + none =~= none);
    assert(none + seq![ACK] =~= acks(1));
    assert(acks(1) + acks(2 * files.len()) =~= sent);
    assert(sent + none =~= sent);

    code_comes(session_start(), input, none, fault);
    line_comes(at(session_start(), StageView::QueueLine), queue, rest, none, fault);
    let known = queue_known(header_text(queue));
    files_received(known, files, none, acks(1), fault);
    reveal(outcome);
}

/// A job that is called off after any number of files is not saved: the
/// connection ends without an error.
pub proof fn job_called_off(
    queue: Seq<u8>,
    files: Seq<SentFile>,
    line: Seq<u8>,
    tail: Seq<u8>,
    fault: NumberFault,
)
    requires
        !queue.contains(10),
        !line.contains(10),
        forall|i: int| 0 <= i < files.len() ==> taken(#[trigger] files[i], fault),
    ensures
        ({
            let input = seq![2u8] + queue.push(10) + files_bytes(files) + seq![1u8] + line.push(10)
                + tail;
            &&& conversation(input, fault).ending == Ending::Ended(LprNext::Done)
            &&& conversation(input, fault).output == acks(1 + 2 * files.len())
        }),
{
    let none = Seq::<u8>::empty();
    let off = seq![1u8] + line.push(10) + tail;
    let rest = files_bytes(files) + off;
    let input = seq![2u8] + queue.push(10) + files_bytes(files) + seq![1u8] + line.push(10) + tail;
    let sent = acks(1 + 2 * files.len());
    assert(input.skip(1) =~= queue.push(10) + rest);
    assert(off.skip(1) =~= line.push(10) + tail);
    assert(none + none =~= none);
    assert(none + seq![ACK] =~= acks(1));
    assert(acks(1) + acks(2 * files.len()) =~= sent);
    assert(sent + none =~= sent);

    code_comes(session_start(), input, none, fault);
    line_comes(at(session_start(), StageView::QueueLine), queue, rest, none, fault);
    let known = queue_known(header_text(queue));
    files_received(known, files, off, acks(1), fault);
    let held = with_files(known, files, fault);
    code_comes(held, off, sent, fault);
    line_comes(at(held, StageView::IgnoredLine), line, tail, sent, fault);
    reveal(outcome);
}

// What is saved -------------------------------------------------------------

/// The data files among files.
pub open spec fn data_files(files: Seq<SentFile>, fault: NumberFault) -> Seq<DataFileView>
    decreases files.len(),
{
    if files.len() == 0 {
        Seq::empty()
    } else if files.last().control {
        data_files(files.drop_last(), fault)
    } else {
        data_files(files.drop_last(), fault).push(
            DataFileView {
                protocol_name: sent_name(files.last(), fault),
                data: files.last().data,
            },
        )
    }
}

/// The last control file among files.
pub open spec fn last_control_file(files: Seq<SentFile>) -> Option<Seq<u8>>
    decreases files.len(),
{
    if files.len() == 0 {
        None
    } else if files.last().control {
        Some(files.last().data)
    } else {
        last_control_file(files.drop_last())
    }
}

/// What a connection holds once files have come.
proof fn files_held(queue: Seq<char>, files: Seq<SentFile>, fault: NumberFault)
    ensures
        ({
            let session = with_files(queue_known(queue), files, fault);
            &&& session.queue == queue
            &&& session.files == data_files(files, fault)
            &&& session.control == (match last_control_file(files) {
                Some(data) => Some(control_of(data)),
                None => None,
            })
        }),
    decreases files.len(),
{
    if files.len() > 0 {
        files_held(queue, files.drop_last(), fault);
    }
}

/// Of a connection that brings a job, every data file makes a job, in order,
/// with its bytes as they were sent, and with a description that holds its name,
/// the queue, the other side and what the last control file says, and nothing
/// else.
pub proof fn jobs_are_what_was_sent(
    queue: Seq<u8>,
    files: Seq<SentFile>,
    peer: Seq<char>,
    fault: NumberFault,
)
    requires
        !queue.contains(10),
        forall|i: int| 0 <= i < files.len() ==> taken(#[trigger] files[i], fault),
    ensures
        ({
            let end = conversation(seq![2u8] + queue.push(10) + files_bytes(files), fault);
            let jobs = lpr_jobs(end.session, peer);
            let sent = data_files(files, fault);
            let control = match last_control_file(files) {
                Some(data) => control_of(data),
                None => no_control(),
            };
            &&& jobs.len() == sent.len()
            &&& forall|i: int|
                0 <= i < jobs.len() ==> {
                    &&& (#[trigger] jobs[i]).data == sent[i].data
                    &&& jobs[i].metadata == (MetadataView {
                        protocol: "LPR"@,
                        source: Some(peer),
                        queue: Some(header_text(queue)),
                        user: control.user,
                        job_name: Some(lpr_job_name(control, i as nat)),
                        protocol_file_name: Some(sent[i].protocol_name),
                        attributes: control_attributes(control),
                        ..no_metadata()
                    })
                }
        }),
{
    job_received(queue, files, fault);
    files_held(header_text(queue), files, fault);
}

// Refusals ------------------------------------------------------------------

/// A data file of no length and a file above the limit are refused with a byte,
/// and the connection is given up.
pub proof fn unfit_length_is_refused(
    session: SessionView,
    control: bool,
    line: Seq<u8>,
    fault: NumberFault,
)
    requires
        session.stage == (StageView::Header { control }),
        line.len() > 0,
        header_of(lossy_text(line_body(line)), fault) matches Ok((count, name)) && (count
            > 256 * 1024 * 1024 || !control && count == 0),
    ensures
        stepped(session, EventView::Line(line), fault).1 == seq![1u8],
        stepped(session, EventView::Line(line), fault).2 is Fail,
{
}

/// A file that does not end with a zero byte is refused with a byte, and none of
/// it is kept.
pub proof fn bad_terminator_is_refused(session: SessionView, byte: u8, fault: NumberFault)
    requires
        session.stage is Terminator,
        byte != 0,
    ensures
        stepped(session, EventView::Terminator(byte), fault).1 == seq![1u8],
        stepped(session, EventView::Terminator(byte), fault).2 is Fail,
        stepped(session, EventView::Terminator(byte), fault).0.files == session.files,
        stepped(session, EventView::Terminator(byte), fault).0.control == session.control,
{
}

} // verus!
