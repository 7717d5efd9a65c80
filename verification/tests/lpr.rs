//! Connections over LPR.

use virtual_print_sink::notation::NumberFault;
use virtual_print_sink::server::lpr::control::LprControlInfo;
use virtual_print_sink::server::lpr::error::LprError;
use virtual_print_sink::server::lpr::header::{parse_file_header, read_line};
use virtual_print_sink::server::lpr::session::{
    LprEvent, LprNext, LprSession, LprStep, MAX_JOB_BYTES,
};

/// Reads `input` as a connection would, and tells what was sent back and how it
/// ended. Nothing ends in the middle of a file here.
fn converse(input: &[u8]) -> (Vec<u8>, LprNext, LprSession) {
    let mut session = LprSession::new();
    let mut output = Vec::new();
    let mut next = LprNext::ReadCode;
    let mut at = 0;
    loop {
        let event = match next {
            LprNext::ReadCode => match input.get(at) {
                Some(code) => {
                    at += 1;
                    LprEvent::Code(*code)
                }
                None => LprEvent::End,
            },
            LprNext::ReadLine => {
                let rest = &input[at..];
                let n = rest
                    .iter()
                    .position(|b| *b == b'\n')
                    .map_or(rest.len(), |i| i + 1);
                at += n;
                LprEvent::Line(rest[..n].to_vec())
            }
            LprNext::ReadData(n) => {
                at += n;
                LprEvent::Data(input[at - n..at].to_vec())
            }
            LprNext::ReadTerminator => {
                at += 1;
                LprEvent::Terminator(input[at - 1])
            }
            _ => return (output, next, session),
        };
        let LprStep { output: sent, next: then } = session.step(event);
        output.extend_from_slice(&sent);
        next = then;
    }
}

#[test]
fn parses_control_file() {
    let info = LprControlInfo::parse(b"Hhost\nPuser\nJReport\nNreport.pdf\n");
    assert_eq!(info.host.as_deref(), Some("host"));
    assert_eq!(info.user.as_deref(), Some("user"));
    assert_eq!(info.job_name.as_deref(), Some("Report"));
}

#[test]
fn parses_file_header() {
    let (count, name) = parse_file_header("123 dfA001host").unwrap();
    assert_eq!(count, 123);
    assert_eq!(name, "dfA001host");
}

#[test]
fn control_file_lines() {
    let info = LprControlInfo::parse(b"H first\r\nHsecond \n\nXother\nN\tname\xff\nP");
    assert_eq!(info.host.as_deref(), Some("second"));
    assert_eq!(info.user.as_deref(), Some(""));
    assert_eq!(info.job_name, None);
    assert_eq!(info.source_name.as_deref(), Some("name\u{fffd}"));
    assert_eq!(info.raw, "H first\r\nHsecond \n\nXother\nN\tname\u{fffd}\nP");
    let none = LprControlInfo::default();
    assert_eq!(none.host, None);
    assert_eq!(none.raw, "");
}

#[test]
fn file_headers() {
    assert_eq!(parse_file_header("7  a b "), Ok((7, "a b".to_string())));
    assert_eq!(parse_file_header("+7 x"), Ok((7, "x".to_string())));
    assert_eq!(parse_file_header("007 "), Ok((7, String::new())));
    assert_eq!(parse_file_header("7"), Err(LprError::MissingName));
    assert_eq!(
        parse_file_header(""),
        Err(LprError::InvalidLength(NumberFault::Empty))
    );
    assert_eq!(
        parse_file_header(" 7 x"),
        Err(LprError::InvalidLength(NumberFault::Empty))
    );
    assert_eq!(
        parse_file_header("-7 x"),
        Err(LprError::InvalidLength(NumberFault::InvalidDigit))
    );
    assert_eq!(
        parse_file_header("99999999x x"),
        Err(LprError::InvalidLength(NumberFault::InvalidDigit))
    );
    assert_eq!(
        parse_file_header("+ x"),
        Err(LprError::InvalidLength(NumberFault::InvalidDigit))
    );
    assert_eq!(
        parse_file_header("99999999999999999999999 x"),
        Err(LprError::InvalidLength(NumberFault::TooLarge))
    );
}

#[test]
fn lines_lose_their_ending() {
    assert_eq!(read_line(b"abc\n"), Ok("abc".to_string()));
    assert_eq!(read_line(b"abc\r\n"), Ok("abc".to_string()));
    assert_eq!(read_line(b"abc\r\r\n"), Ok("abc\r".to_string()));
    assert_eq!(read_line(b"abc"), Ok("abc".to_string()));
    assert_eq!(read_line(b"\n"), Ok(String::new()));
    assert_eq!(read_line(b"a\xff\n"), Ok("a\u{fffd}".to_string()));
    assert_eq!(read_line(b""), Err(LprError::EndOfLine));
}

#[test]
fn a_job_is_received() {
    let (output, next, session) = converse(
        b"\x02virtual\n\x0218 cfA001host\nHhost\nPme\nJLetter\n\0\x034 dfA001host\n%!PS\0\x031 dfB001host\nx\0",
    );
    assert_eq!(output, vec![0, 0, 0, 0, 0, 0, 0]);
    assert_eq!(next, LprNext::Save);
    let jobs = session.into_jobs("127.0.0.1:4711");
    assert_eq!(jobs.len(), 2);
    assert_eq!(jobs[0].data, b"%!PS");
    assert_eq!(jobs[1].data, b"x");
    let first = &jobs[0].metadata;
    assert_eq!(first.protocol, "LPR");
    assert_eq!(first.source.as_deref(), Some("127.0.0.1:4711"));
    assert_eq!(first.queue.as_deref(), Some("virtual"));
    assert_eq!(first.user.as_deref(), Some("me"));
    assert_eq!(first.job_name.as_deref(), Some("Letter"));
    assert_eq!(first.protocol_file_name.as_deref(), Some("dfA001host"));
    assert_eq!(first.document_format, None);
    assert_eq!(first.attributes.len(), 2);
    assert_eq!(
        first.attributes.get("lpr-control-file").map(|v| v.as_str()),
        Some("Hhost\nPme\nJLetter\n")
    );
    assert_eq!(
        first.attributes.get("originating-host").map(|v| v.as_str()),
        Some("host")
    );
    assert_eq!(jobs[1].metadata.protocol_file_name.as_deref(), Some("dfB001host"));
}

#[test]
fn jobs_without_a_control_file_are_numbered() {
    let (_, next, session) = converse(b"\x02q\n\x031 a\nx\0\x031 b\ny\0");
    assert_eq!(next, LprNext::Save);
    let jobs = session.into_jobs("peer");
    assert_eq!(jobs[0].metadata.job_name.as_deref(), Some("lpr-job-1"));
    assert_eq!(jobs[1].metadata.job_name.as_deref(), Some("lpr-job-2"));
    assert_eq!(jobs[0].metadata.user, None);
    assert_eq!(jobs[0].metadata.attributes.len(), 0);
}

#[test]
fn the_last_control_file_counts_and_may_be_empty() {
    let (output, _, session) = converse(b"\x02q\n\x025 c\nNsrc\n\0\x031 a\nx\0");
    assert_eq!(output, vec![0, 0, 0, 0, 0]);
    assert_eq!(
        session.into_jobs("peer")[0].metadata.job_name.as_deref(),
        Some("src")
    );
    let (output, next, session) = converse(b"\x02q\n\x025 c\nNsrc\n\0\x031 a\nx\0\x020 c\n\0");
    assert_eq!(output, vec![0, 0, 0, 0, 0, 0, 0]);
    assert_eq!(next, LprNext::Save);
    assert_eq!(
        session.into_jobs("peer")[0].metadata.job_name.as_deref(),
        Some("lpr-job-1")
    );
}

#[test]
fn other_commands() {
    assert_eq!(converse(b"").1, LprNext::Done);
    for command in [3u8, 4] {
        let (output, next, _) = converse(&[command, b'q', b'\n']);
        assert_eq!(output, b"Virtual Print Sink: no queued jobs\n");
        assert_eq!(next, LprNext::Done);
    }
    for command in [1u8, 5] {
        let (output, next, _) = converse(&[command, b'q', b'\n']);
        assert_eq!(output, b"");
        assert_eq!(next, LprNext::Done);
    }
    assert_eq!(
        converse(&[0x1f]).1,
        LprNext::Fail(LprError::UnsupportedCommand(0x1f))
    );
    assert_eq!(converse(&[2]).1, LprNext::Fail(LprError::EndOfLine));
    assert_eq!(converse(&[3]).1, LprNext::Fail(LprError::EndOfLine));
    assert_eq!(converse(&[5]).1, LprNext::Fail(LprError::EndOfLine));
}

#[test]
fn a_job_that_is_called_off_is_not_saved() {
    let (output, next, _) = converse(b"\x02q\n\x031 a\nx\0\x01\nrest");
    assert_eq!(output, vec![0, 0, 0]);
    assert_eq!(next, LprNext::Done);
}

#[test]
fn unfit_files_are_refused() {
    let fails = |input: &[u8]| {
        let (output, next, _) = converse(input);
        (output, next)
    };
    assert_eq!(
        fails(b"\x02q\n\x030 a\n"),
        (vec![0, 1], LprNext::Fail(LprError::EmptyData))
    );
    assert_eq!(
        fails(b"\x02q\n\x03268435457 a\n"),
        (vec![0, 1], LprNext::Fail(LprError::DataTooLarge(MAX_JOB_BYTES + 1)))
    );
    assert_eq!(
        fails(b"\x02q\n\x02268435457 a\n"),
        (vec![0, 1], LprNext::Fail(LprError::ControlTooLarge(MAX_JOB_BYTES + 1)))
    );
    assert_eq!(
        fails(b"\x02q\n\x031 a\nx\x07"),
        (vec![0, 0, 1], LprNext::Fail(LprError::DataTerminator))
    );
    assert_eq!(
        fails(b"\x02q\n\x021 a\nx\x07"),
        (vec![0, 0, 1], LprNext::Fail(LprError::ControlTerminator))
    );
    assert_eq!(
        fails(b"\x02q\n\x03x a\n"),
        (
            vec![0],
            LprNext::Fail(LprError::InvalidLength(NumberFault::InvalidDigit))
        )
    );
    assert_eq!(
        fails(b"\x02q\n\x099"),
        (vec![0], LprNext::Fail(LprError::UnsupportedSubcommand(9)))
    );
    let (_, next, _) = {
        let mut session = LprSession::new();
        session.step(LprEvent::Code(2));
        session.step(LprEvent::Line(b"q\n".to_vec()));
        session.step(LprEvent::Code(3));
        let step = session.step(LprEvent::Line(b"268435456 a\n".to_vec()));
        (step.output, step.next, session)
    };
    assert_eq!(next, LprNext::ReadData(MAX_JOB_BYTES));
}

#[test]
fn errors_in_words() {
    assert_eq!(
        LprError::EndOfLine.message(),
        "unexpected EOF while reading LPR line"
    );
    assert_eq!(
        LprError::UnsupportedCommand(0x0f).message(),
        "unsupported LPR command: 0x0f"
    );
    assert_eq!(
        LprError::UnsupportedSubcommand(0xab).message(),
        "unsupported LPR receive-job subcommand: 0xab"
    );
    assert_eq!(
        LprError::InvalidLength(NumberFault::InvalidDigit).message(),
        "invalid LPR file length: invalid digit found in string"
    );
    assert_eq!(
        LprError::InvalidLength(NumberFault::Empty).message(),
        "invalid LPR file length: cannot parse integer from empty string"
    );
    assert_eq!(
        LprError::InvalidLength(NumberFault::TooLarge).message(),
        "invalid LPR file length: number too large to fit in target type"
    );
    assert_eq!(LprError::MissingName.message(), "missing LPR file name");
    assert_eq!(
        LprError::ControlTooLarge(300_000_000).message(),
        "LPR control file exceeds limit: 300000000 bytes"
    );
    assert_eq!(
        LprError::DataTooLarge(300_000_000).message(),
        "LPR print data exceeds limit: 300000000 bytes"
    );
    assert_eq!(
        LprError::EmptyData.message(),
        "zero-length/streaming LPR data files are not supported by this MVP"
    );
    assert_eq!(
        LprError::ControlTerminator.message(),
        "invalid LPR control-file terminator"
    );
    assert_eq!(
        LprError::DataTerminator.message(),
        "invalid LPR data-file terminator"
    );
}
