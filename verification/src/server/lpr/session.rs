//! A connection: what is read next, what is sent back, and what becomes of what
//! was read.

use super::control::{control_of, no_control, ControlView, LprControlInfo};
use super::error::LprError;
use super::header::{
    before_space, blames, header_of, header_view, line_body, parse_file_header, read_line,
    some_fault,
};
use crate::notation::NumberFault;
use crate::text::{lossy_text, owned};
use crate::wire::push_bytes;
use vstd::prelude::*;
use vstd::utf8::encode_utf8;

verus! {

/// The largest file that is taken: 256 MiB.
pub const MAX_JOB_BYTES: usize = 268_435_456;

/// The byte that says that all is well.
pub const ACK: u8 = 0;

/// The byte that says that something is wrong.
pub const NACK: u8 = 1;

/// A data file that has been received.
#[derive(Debug)]
pub struct PendingDataFile {
    pub protocol_name: String,
    pub data: Vec<u8>,
}

/// What a [`PendingDataFile`] holds.
pub struct DataFileView {
    pub protocol_name: Seq<char>,
    pub data: Seq<u8>,
}

impl View for PendingDataFile {
    type V = DataFileView;

    open spec fn view(&self) -> DataFileView {
        DataFileView { protocol_name: self.protocol_name@, data: self.data@ }
    }
}

/// Where a connection stands: what has been read, and so what has to come next.
#[derive(Debug)]
pub enum LprStage {
    /// Nothing yet: the command.
    Command,
    /// The command to receive a job: the queue.
    QueueLine,
    /// A command that asks for the state of the queue: the rest of it.
    StatusLine,
    /// A command that is ignored, or that calls the job off: the rest of it.
    IgnoredLine,
    /// The queue, and some files: a subcommand.
    Subcommand,
    /// The subcommand for a file: its header.
    Header { control: bool },
    /// The header of a file: its bytes.
    Body { control: bool, count: usize, name: String },
    /// The bytes of a file: the byte behind them.
    Terminator { control: bool, name: String, data: Vec<u8> },
    /// All that there was.
    Over,
}

/// What an [`LprStage`] holds.
pub enum StageView {
    Command,
    QueueLine,
    StatusLine,
    IgnoredLine,
    Subcommand,
    Header { control: bool },
    Body { control: bool, count: usize, name: Seq<char> },
    Terminator { control: bool, name: Seq<char>, data: Seq<u8> },
    Over,
}

impl View for LprStage {
    type V = StageView;

    open spec fn view(&self) -> StageView {
        match self {
            LprStage::Command => StageView::Command,
            LprStage::QueueLine => StageView::QueueLine,
            LprStage::StatusLine => StageView::StatusLine,
            LprStage::IgnoredLine => StageView::IgnoredLine,
            LprStage::Subcommand => StageView::Subcommand,
            LprStage::Header { control } => StageView::Header { control: *control },
            LprStage::Body { control, count, name } => StageView::Body {
                control: *control,
                count: *count,
                name: name@,
            },
            LprStage::Terminator { control, name, data } => StageView::Terminator {
                control: *control,
                name: name@,
                data: data@,
            },
            LprStage::Over => StageView::Over,
        }
    }
}

/// What came from the connection.
#[derive(Debug)]
pub enum LprEvent {
    /// The byte of a command or a subcommand.
    Code(u8),
    /// The end of the connection, where a command or a subcommand was due.
    End,
    /// A line with its ending; no bytes where the connection has ended.
    Line(Vec<u8>),
    /// The bytes of a file.
    Data(Vec<u8>),
    /// The byte behind a file.
    Terminator(u8),
}

/// What an [`LprEvent`] holds.
pub enum EventView {
    Code(u8),
    End,
    Line(Seq<u8>),
    Data(Seq<u8>),
    Terminator(u8),
}

impl View for LprEvent {
    type V = EventView;

    open spec fn view(&self) -> EventView {
        match self {
            LprEvent::Code(code) => EventView::Code(*code),
            LprEvent::End => EventView::End,
            LprEvent::Line(bytes) => EventView::Line(bytes@),
            LprEvent::Data(bytes) => EventView::Data(bytes@),
            LprEvent::Terminator(byte) => EventView::Terminator(*byte),
        }
    }
}

/// What has to be done next.
#[derive(Clone, Copy, Debug, PartialEq, Eq, Structural)]
pub enum LprNext {
    /// Read the byte of a command or a subcommand.
    ReadCode,
    /// Read a line.
    ReadLine,
    /// Read so many bytes.
    ReadData(usize),
    /// Read the byte behind a file.
    ReadTerminator,
    /// Nothing more.
    Done,
    /// Give the connection up.
    Fail(LprError),
    /// Save the files that were received.
    Save,
}

/// Whether `event` is what has to come at a stage.
pub open spec fn due(stage: StageView, event: EventView) -> bool {
    match stage {
        StageView::Command | StageView::Subcommand => event is Code || event is End,
        StageView::QueueLine | StageView::StatusLine | StageView::IgnoredLine
        | StageView::Header { .. } => event is Line,
        StageView::Body { count, .. } => event matches EventView::Data(bytes) && bytes.len()
            == count,
        StageView::Terminator { .. } => event is Terminator,
        StageView::Over => false,
    }
}

/// A connection over which jobs come.
#[derive(Debug)]
pub struct LprSession {
    stage: LprStage,
    queue: String,
    control: Option<LprControlInfo>,
    files: Vec<PendingDataFile>,
}

/// What an [`LprSession`] holds.
pub struct SessionView {
    pub stage: StageView,
    pub queue: Seq<char>,
    pub control: Option<ControlView>,
    pub files: Seq<DataFileView>,
}

/// What the data files of a connection hold.
pub open spec fn file_views(files: Seq<PendingDataFile>) -> Seq<DataFileView> {
    files.map_values(|file: PendingDataFile| file@)
}

impl View for LprSession {
    type V = SessionView;

    closed spec fn view(&self) -> SessionView {
        SessionView {
            stage: self.stage@,
            queue: self.queue@,
            control: match self.control {
                Some(info) => Some(info@),
                None => None,
            },
            files: file_views(self.files@),
        }
    }
}

/// What the last control file says, where there was one.
pub open spec fn last_control(session: SessionView) -> ControlView {
    match session.control {
        Some(control) => control,
        None => no_control(),
    }
}

/// A connection of which nothing has been read.
pub open spec fn session_start() -> SessionView {
    SessionView {
        stage: StageView::Command,
        queue: Seq::empty(),
        control: None,
        files: Seq::empty(),
    }
}

/// `session` at another stage.
pub open spec fn at(session: SessionView, stage: StageView) -> SessionView {
    SessionView { stage, ..session }
}

/// A connection that is given up.
pub open spec fn failed(session: SessionView, output: Seq<u8>, error: LprError) -> (
    SessionView,
    Seq<u8>,
    LprNext,
) {
    (at(session, StageView::Over), output, LprNext::Fail(error))
}

/// `session` with one more file: a data file is added, a control file takes the
/// place of one before it.
pub open spec fn with_file(
    session: SessionView,
    control: bool,
    name: Seq<char>,
    data: Seq<u8>,
) -> SessionView {
    if control {
        SessionView {
            stage: StageView::Subcommand,
            control: Some(control_of(data)),
            ..session
        }
    } else {
        SessionView {
            stage: StageView::Subcommand,
            files: session.files.push(DataFileView { protocol_name: name, data }),
            ..session
        }
    }
}

/// What becomes of a connection at the byte of a command.
pub open spec fn after_command(session: SessionView, code: u8) -> (
    SessionView,
    Seq<u8>,
    LprNext,
) {
    if code == 2 {
        (at(session, StageView::QueueLine), Seq::empty(), LprNext::ReadLine)
    } else if code == 3 || code == 4 {
        (at(session, StageView::StatusLine), Seq::empty(), LprNext::ReadLine)
    } else if code == 1 || code == 5 {
        (at(session, StageView::IgnoredLine), Seq::empty(), LprNext::ReadLine)
    } else {
        failed(session, Seq::empty(), LprError::UnsupportedCommand(code))
    }
}

/// What becomes of a connection at the byte of a subcommand.
pub open spec fn after_subcommand(session: SessionView, code: u8) -> (
    SessionView,
    Seq<u8>,
    LprNext,
) {
    if code == 1 {
        (at(session, StageView::IgnoredLine), Seq::empty(), LprNext::ReadLine)
    } else if code == 2 || code == 3 {
        (at(session, StageView::Header { control: code == 2 }), Seq::empty(), LprNext::ReadLine)
    } else {
        failed(session, Seq::empty(), LprError::UnsupportedSubcommand(code))
    }
}

/// What becomes of a connection at the header of a file.
pub open spec fn after_header(
    session: SessionView,
    control: bool,
    line: Seq<char>,
    fault: NumberFault,
) -> (SessionView, Seq<u8>, LprNext) {
    match header_of(line, fault) {
        Err(error) => failed(session, Seq::empty(), error),
        Ok((count, name)) => if !control && count == 0 {
            failed(session, seq![NACK], LprError::EmptyData)
        } else if count > MAX_JOB_BYTES {
            failed(
                session,
                seq![NACK],
                if control {
                    LprError::ControlTooLarge(count)
                } else {
                    LprError::DataTooLarge(count)
                },
            )
        } else {
            (
                at(session, StageView::Body { control, count, name }),
                seq![ACK],
                LprNext::ReadData(count),
            )
        },
    }
}

/// What is said of the queue to those who ask.
pub open spec fn status_text() -> Seq<char> {
    "Virtual Print Sink: no queued jobs\n"@
}

/// What becomes of a connection, what is sent back, and what has to be done
/// next. Where the length of a file cannot be read, `fault` is why.
pub open spec fn stepped(session: SessionView, event: EventView, fault: NumberFault) -> (
    SessionView,
    Seq<u8>,
    LprNext,
) {
    match (session.stage, event) {
        (StageView::Command, EventView::Code(code)) => after_command(session, code),
        (StageView::Command, EventView::End) => {
            (at(session, StageView::Over), Seq::empty(), LprNext::Done)
        },
        (StageView::Subcommand, EventView::Code(code)) => after_subcommand(session, code),
        (StageView::Subcommand, EventView::End) => {
            (at(session, StageView::Over), Seq::empty(), LprNext::Save)
        },
        (_, EventView::Line(bytes)) => if bytes.len() == 0 {
            failed(session, Seq::empty(), LprError::EndOfLine)
        } else {
            let line = lossy_text(line_body(bytes));
            match session.stage {
                StageView::QueueLine => (
                    SessionView { stage: StageView::Subcommand, queue: line, ..session },
                    seq![ACK],
                    LprNext::ReadCode,
                ),
                StageView::StatusLine => (
                    at(session, StageView::Over),
                    encode_utf8(status_text()),
                    LprNext::Done,
                ),
                StageView::Header { control } => after_header(session, control, line, fault),
                _ => (at(session, StageView::Over), Seq::empty(), LprNext::Done),
            }
        },
        (StageView::Body { control, name, .. }, EventView::Data(data)) => (
            at(session, StageView::Terminator { control, name, data }),
            Seq::empty(),
            LprNext::ReadTerminator,
        ),
        (StageView::Terminator { control, name, data }, EventView::Terminator(byte)) => if byte
            == 0 {
            (with_file(session, control, name, data), seq![ACK], LprNext::ReadCode)
        } else {
            failed(
                session,
                seq![NACK],
                if control {
                    LprError::ControlTerminator
                } else {
                    LprError::DataTerminator
                },
            )
        },
        _ => (session, Seq::empty(), LprNext::Done),
    }
}

/// The text by which the length of a file is given, where a header is due.
pub open spec fn length_text(event: EventView) -> Seq<char> {
    match event {
        EventView::Line(bytes) => before_space(lossy_text(line_body(bytes))),
        _ => Seq::empty(),
    }
}

/// What is sent back, and what has to be done then.
#[derive(Debug)]
pub struct LprStep {
    pub output: Vec<u8>,
    pub next: LprNext,
}

/// One byte.
fn one(byte: u8) -> (bytes: Vec<u8>)
    ensures
        bytes@ == seq![byte],
{
    let mut bytes: Vec<u8> = Vec::new();
    bytes.push(byte);
    assert(bytes@ =~= seq![byte]);
    bytes
}

impl LprSession {
    /// A new connection. The byte of a command is due.
    pub fn new() -> (session: Self)
        ensures
            session@ == session_start(),
    {
        let session = LprSession {
            stage: LprStage::Command,
            queue: String::new(),
            control: None,
            files: Vec::new(),
        };
        assert(session@.files =~= Seq::empty());
        session
    }

    /// Takes note of the byte of a command.
    fn take_command(&mut self, code: u8) -> (next: LprNext)
        requires
            old(self)@.stage is Over,
        ensures
            (final(self)@, Seq::<u8>::empty(), next) == after_command(old(self)@, code),
    {
        if code == 2 {
            self.stage = LprStage::QueueLine;
            LprNext::ReadLine
        } else if code == 3 || code == 4 {
            self.stage = LprStage::StatusLine;
            LprNext::ReadLine
        } else if code == 1 || code == 5 {
            self.stage = LprStage::IgnoredLine;
            LprNext::ReadLine
        } else {
            LprNext::Fail(LprError::UnsupportedCommand(code))
        }
    }

    /// Takes note of the byte of a subcommand.
    fn take_subcommand(&mut self, code: u8) -> (next: LprNext)
        requires
            old(self)@.stage is Over,
        ensures
            (final(self)@, Seq::<u8>::empty(), next) == after_subcommand(old(self)@, code),
    {
        if code == 1 {
            self.stage = LprStage::IgnoredLine;
            LprNext::ReadLine
        } else if code == 2 || code == 3 {
            self.stage = LprStage::Header { control: code == 2 };
            LprNext::ReadLine
        } else {
            LprNext::Fail(LprError::UnsupportedSubcommand(code))
        }
    }

    /// Takes note of the header of a file.
    fn take_header(&mut self, control: bool, line: &str) -> (answer: (Vec<u8>, LprNext))
        requires
            old(self)@.stage is Over,
        ensures
            exists|fault: NumberFault|
                blames(fault, before_space(line@)) && (final(self)@, answer.0@, answer.1)
                    == #[trigger] after_header(old(self)@, control, line@, fault),
    {
        let ghost before = self@;
        let header = parse_file_header(line);
        let ghost fault = choose|fault: NumberFault|
            blames(fault, before_space(line@)) && header_view(header) == #[trigger] header_of(
                line@,
                fault,
            );
        let answer = match header {
            Err(error) => {
                let none: Vec<u8> = Vec::new();
                (none, LprNext::Fail(error))
            },
            Ok((count, name)) => {
                if !control && count == 0 {
                    (one(NACK), LprNext::Fail(LprError::EmptyData))
                } else if count > MAX_JOB_BYTES {
                    if control {
                        (one(NACK), LprNext::Fail(LprError::ControlTooLarge(count)))
                    } else {
                        (one(NACK), LprNext::Fail(LprError::DataTooLarge(count)))
                    }
                } else {
                    self.stage = LprStage::Body { control, count, name };
                    (one(ACK), LprNext::ReadData(count))
                }
            },
        };
        assert(after_header(before, control, line@, fault) == (self@, answer.0@, answer.1));
        answer
    }

    /// Takes note of a file.
    fn take_file(&mut self, control: bool, name: String, data: Vec<u8>)
        ensures
            final(self)@ == with_file(old(self)@, control, name@, data@),
    {
        let ghost files = self.files@;
        self.stage = LprStage::Subcommand;
        if control {
            self.control = Some(LprControlInfo::parse(data.as_slice()));
        } else {
            let file = PendingDataFile { protocol_name: name, data };
            let ghost held = file@;
            self.files.push(file);
            assert(file_views(self.files@) =~= file_views(files).push(held));
        }
    }

    /// Takes note of what came.
    pub fn step(&mut self, event: LprEvent) -> (step: LprStep)
        requires
            due(old(self)@.stage, event@),
        ensures
            exists|fault: NumberFault|
                blames(fault, length_text(event@)) && (final(self)@, step.output@, step.next)
                    == #[trigger] stepped(old(self)@, event@, fault),
    {
        let ghost before = self@;
        let ghost seen = event@;
        let ghost plain = some_fault(length_text(seen));
        let mut stage = LprStage::Over;
        std::mem::swap(&mut stage, &mut self.stage);
        let mut output: Vec<u8> = Vec::new();
        let next = match event {
            LprEvent::Code(code) => match stage {
                LprStage::Command => self.take_command(code),
                _ => self.take_subcommand(code),
            },
            LprEvent::End => match stage {
                LprStage::Command => LprNext::Done,
                _ => LprNext::Save,
            },
            LprEvent::Line(bytes) => match read_line(bytes.as_slice()) {
                Err(error) => LprNext::Fail(error),
                Ok(line) => match stage {
                    LprStage::QueueLine => {
                        self.queue = line;
                        self.stage = LprStage::Subcommand;
                        output = one(ACK);
                        LprNext::ReadCode
                    },
                    LprStage::StatusLine => {
                        let text = owned("Virtual Print Sink: no queued jobs\n");
                        push_bytes(&mut output, text.as_str().as_bytes());
                        LprNext::Done
                    },
                    LprStage::Header { control } => {
                        let (answer, next) = self.take_header(control, line.as_str());
                        output = answer;
                        proof {
                            let fault = choose|fault: NumberFault|
                                blames(fault, before_space(line@)) && (self@, output@, next)
                                    == #[trigger] after_header(
                                    at(before, StageView::Over),
                                    control,
                                    line@,
                                    fault,
                                );
                            assert(stepped(before, seen, fault) == (self@, output@, next));
                            assert(blames(fault, length_text(seen)));
                        }
                        return LprStep { output, next };
                    },
                    _ => LprNext::Done,
                },
            },
            LprEvent::Data(data) => match stage {
                LprStage::Body { control, count: _, name } => {
                    self.stage = LprStage::Terminator { control, name, data };
                    LprNext::ReadTerminator
                },
                _ => LprNext::Done,
            },
            LprEvent::Terminator(byte) => match stage {
                LprStage::Terminator { control, name, data } => {
                    if byte == 0 {
                        output = one(ACK);
                        self.take_file(control, name, data);
                        LprNext::ReadCode
                    } else {
                        output = one(NACK);
                        if control {
                            LprNext::Fail(LprError::ControlTerminator)
                        } else {
                            LprNext::Fail(LprError::DataTerminator)
                        }
                    }
                },
                _ => LprNext::Done,
            },
        };
        assert(stepped(before, seen, plain) == (self@, output@, next));
        assert(blames(plain, length_text(seen)));
        LprStep { output, next }
    }

    /// What was received: the queue, the last control file and the data files.
    pub fn into_parts(self) -> (parts: (String, LprControlInfo, Vec<PendingDataFile>))
        ensures
            parts.0@ == self@.queue,
            parts.1@ == last_control(self@),
            file_views(parts.2@) == self@.files,
    {
        let control = match self.control {
            Some(control) => control,
            None => LprControlInfo::default(),
        };
        (self.queue, control, self.files)
    }
}

} // verus!
