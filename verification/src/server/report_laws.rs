//! What the servers say in words, and where they listen.

use super::config::{endpoints, port_of, running, IPP_PORT, LPR_PORT, LPR_PORT_WINDOWS};
use super::controller::ServerError;
use super::event::job_saved;
use super::ipp::request::IppError;
use super::lpr::error::LprError;
use crate::notation::{decimal, number_up_to, NumberFault};
use crate::notation_laws::{hex_digits_count_by_sixteen, hex_worth, numbers_are_read};
use vstd::prelude::*;

verus! {

// Ports ---------------------------------------------------------------------

/// Where nothing else is asked for, the servers listen on ports 515 or 1515, and
/// 8631.
pub proof fn ports_are_known()
    ensures
        LPR_PORT_WINDOWS == 515,
        LPR_PORT == 1515,
        IPP_PORT == 8631,
{
}

/// A number that is asked for is the port, with a plus sign in front or not; one
/// that no port has leaves the default.
pub proof fn ports_are_read(n: nat, default: u16)
    ensures
        ({
            let port = if n <= 65_535 {
                n
            } else {
                default as nat
            };
            &&& port_of(Some(decimal(n)), default) == port
            &&& port_of(Some(seq!['+'] + decimal(n)), default) == port
            &&& port_of(None, default) == default
        }),
{
    numbers_are_read(n, 65_535);
}

/// What is no number leaves the default.
pub proof fn other_ports_are_ignored(text: Seq<char>, default: u16)
    requires
        number_up_to(text, 65_535) is None,
    ensures
        port_of(Some(text), default) == default,
{
}

// Texts ---------------------------------------------------------------------

/// Both printers are told by their addresses, each with its port: first that of
/// LPR, then that of IPP.
pub proof fn endpoints_name_the_ports(lpr_port: u16, ipp_port: u16)
    ensures
        ({
            let text = endpoints(lpr_port, ipp_port);
            let first = "LPR: lpd://127.0.0.1:"@ + decimal(lpr_port as nat) + "/virtual"@;
            let second = "IPP: ipp://127.0.0.1:"@ + decimal(ipp_port as nat)
                + "/printers/virtual"@;
            &&& text.len() == first.len() + 9 + second.len()
            &&& text.take(first.len() as int) == first
            &&& text.skip(first.len() as int + 9) == second
        }),
{
    reveal_strlit("/virtual    |    IPP: ipp://127.0.0.1:");
    reveal_strlit("/virtual");
    reveal_strlit("IPP: ipp://127.0.0.1:");
    let text = endpoints(lpr_port, ipp_port);
    let middle = "/virtual    |    IPP: ipp://127.0.0.1:"@;
    let first = "LPR: lpd://127.0.0.1:"@ + decimal(lpr_port as nat) + "/virtual"@;
    let second = "IPP: ipp://127.0.0.1:"@ + decimal(ipp_port as nat) + "/printers/virtual"@;
    assert(middle.len() == 38);
    assert(middle.take(8) =~= "/virtual"@);
    assert(middle.skip(17) =~= "IPP: ipp://127.0.0.1:"@);
    assert(middle =~= "/virtual"@ + middle.subrange(8, 17) + "IPP: ipp://127.0.0.1:"@);
    assert(text =~= first + middle.subrange(8, 17) + second);
    assert(text.take(first.len() as int) =~= first);
    assert(text.skip(first.len() as int + 9) =~= second);
}

/// While the servers run, both ports are shown, each behind its protocol and the
/// local host, that of LPR first.
pub proof fn running_names_the_ports(lpr_port: u16, ipp_port: u16)
    ensures
        ({
            let text = running(lpr_port, ipp_port);
            let lpr = decimal(lpr_port as nat);
            let ipp = decimal(ipp_port as nat);
            let n = lpr.len() as int;
            &&& text.len() == 20 + n + 17 + ipp.len()
            &&& text.subrange(6, 20) == "LPR 127.0.0.1:"@
            &&& text.subrange(20, 20 + n) == lpr
            &&& text.subrange(23 + n, 37 + n) == "IPP 127.0.0.1:"@
            &&& text.skip(37 + n) == ipp
        }),
{
    reveal_strlit("稼働中 - LPR 127.0.0.1:");
    reveal_strlit(" / IPP 127.0.0.1:");
    reveal_strlit("LPR 127.0.0.1:");
    reveal_strlit("IPP 127.0.0.1:");
    let text = running(lpr_port, ipp_port);
    let lpr = decimal(lpr_port as nat);
    let ipp = decimal(ipp_port as nat);
    let n = lpr.len() as int;
    assert("稼働中 - LPR 127.0.0.1:"@.len() == 20);
    assert(" / IPP 127.0.0.1:"@.len() == 17);
    assert(text.subrange(6, 20) =~= "LPR 127.0.0.1:"@);
    assert(text.subrange(20, 20 + n) =~= lpr);
    assert(text.subrange(23 + n, 37 + n) =~= "IPP 127.0.0.1:"@);
    assert(text.skip(37 + n) =~= ipp);
}

/// Of a saved job are shown the protocol in brackets, the path behind them, and
/// the number of bytes in parentheses at the end.
pub proof fn saved_jobs_are_shown(protocol: Seq<char>, path: Seq<char>, bytes: nat)
    ensures
        ({
            let text = job_saved(protocol, path, bytes);
            let digits = decimal(bytes);
            let p = protocol.len() as int;
            let q = path.len() as int;
            let d = digits.len() as int;
            &&& text.len() == 1 + p + 2 + q + 2 + d + 7
            &&& text[0] == '['
            &&& text.subrange(1, 1 + p) == protocol
            &&& text.subrange(1 + p, 3 + p) == seq![']', ' ']
            &&& text.subrange(3 + p, 3 + p + q) == path
            &&& text.subrange(3 + p + q, 5 + p + q) == seq![' ', '(']
            &&& text.subrange(5 + p + q, 5 + p + q + d) == digits
            &&& text.skip(5 + p + q + d) == seq![' ', 'b', 'y', 't', 'e', 's', ')']
        }),
{
    reveal_strlit("[");
    reveal_strlit("] ");
    reveal_strlit(" (");
    reveal_strlit(" bytes)");
    assert("["@ =~= seq!['[']);
    assert("] "@ =~= seq![']', ' ']);
    assert(" ("@ =~= seq![' ', '(']);
    assert(" bytes)"@ =~= seq![' ', 'b', 'y', 't', 'e', 's', ')']);
    let text = job_saved(protocol, path, bytes);
    let digits = decimal(bytes);
    let p = protocol.len() as int;
    let q = path.len() as int;
    let d = digits.len() as int;
    assert(text.subrange(1, 1 + p) =~= protocol);
    assert(text.subrange(1 + p, 3 + p) =~= seq![']', ' ']);
    assert(text.subrange(3 + p, 3 + p + q) =~= path);
    assert(text.subrange(3 + p + q, 5 + p + q) =~= seq![' ', '(']);
    assert(text.subrange(5 + p + q, 5 + p + q + d) =~= digits);
    assert(text.skip(5 + p + q + d) =~= seq![' ', 'b', 'y', 't', 'e', 's', ')']);
}

// Errors --------------------------------------------------------------------

/// An error about a command or a subcommand ends with its byte in hexadecimal.
pub proof fn errors_name_the_byte(code: u8)
    ensures
        ({
            let command = LprError::UnsupportedCommand(code).words();
            let subcommand = LprError::UnsupportedSubcommand(code).words();
            let (m, n) = (command.len() as int, subcommand.len() as int);
            &&& m == 29
            &&& command.take(27) == "unsupported LPR command: 0x"@
            &&& 16 * hex_worth(command[m - 2]) + hex_worth(command[m - 1]) == code
            &&& n == 44
            &&& subcommand.take(42) == "unsupported LPR receive-job subcommand: 0x"@
            &&& 16 * hex_worth(subcommand[n - 2]) + hex_worth(subcommand[n - 1]) == code
        }),
{
    reveal_strlit("unsupported LPR command: 0x");
    reveal_strlit("unsupported LPR receive-job subcommand: 0x");
    hex_digits_count_by_sixteen(code);
    let command = LprError::UnsupportedCommand(code).words();
    let subcommand = LprError::UnsupportedSubcommand(code).words();
    assert("unsupported LPR command: 0x"@.len() == 27);
    assert("unsupported LPR receive-job subcommand: 0x"@.len() == 42);
    assert(command.take(27) =~= "unsupported LPR command: 0x"@);
    assert(subcommand.take(42) =~= "unsupported LPR receive-job subcommand: 0x"@);
}

/// An error about a file that is too large tells how large it was to be.
pub proof fn errors_name_the_length(count: usize)
    ensures
        ({
            let control = LprError::ControlTooLarge(count).words();
            let data = LprError::DataTooLarge(count).words();
            let digits = decimal(count as nat);
            let d = digits.len() as int;
            &&& control.take(32) == "LPR control file exceeds limit: "@
            &&& control.subrange(32, 32 + d) == digits
            &&& control.skip(32 + d) == " bytes"@
            &&& data.take(30) == "LPR print data exceeds limit: "@
            &&& data.subrange(30, 30 + d) == digits
            &&& data.skip(30 + d) == " bytes"@
        }),
{
    reveal_strlit("LPR control file exceeds limit: ");
    reveal_strlit("LPR print data exceeds limit: ");
    reveal_strlit(" bytes");
    let control = LprError::ControlTooLarge(count).words();
    let data = LprError::DataTooLarge(count).words();
    let digits = decimal(count as nat);
    let d = digits.len() as int;
    assert("LPR control file exceeds limit: "@.len() == 32);
    assert("LPR print data exceeds limit: "@.len() == 30);
    assert(control.take(32) =~= "LPR control file exceeds limit: "@);
    assert(control.subrange(32, 32 + d) =~= digits);
    assert(control.skip(32 + d) =~= " bytes"@);
    assert(data.take(30) =~= "LPR print data exceeds limit: "@);
    assert(data.subrange(30, 30 + d) =~= digits);
    assert(data.skip(30 + d) =~= " bytes"@);
}

/// An error about a length tells the fault of the number behind a colon.
pub proof fn errors_name_the_fault(fault: NumberFault)
    ensures
        ({
            let text = LprError::InvalidLength(fault).words();
            &&& text.take(25) == "invalid LPR file length: "@
            &&& fault is Empty ==> text.skip(25) == "cannot parse integer from empty string"@
            &&& fault is InvalidDigit ==> text.skip(25) == "invalid digit found in string"@
            &&& fault is TooLarge ==> text.skip(25) == "number too large to fit in target type"@
        }),
{
    reveal_strlit("invalid LPR file length: ");
    let text = LprError::InvalidLength(fault).words();
    assert("invalid LPR file length: "@.len() == 25);
    assert(text.take(25) =~= "invalid LPR file length: "@);
    assert(text.skip(25) =~= fault.words());
}

/// The other errors of a connection are told in fixed words.
pub proof fn connection_errors_are_told(error: LprError)
    ensures
        error is EndOfLine ==> error.words() == "unexpected EOF while reading LPR line"@,
        error is MissingName ==> error.words() == "missing LPR file name"@,
        error is EmptyData ==> error.words()
            == "zero-length/streaming LPR data files are not supported by this MVP"@,
        error is ControlTerminator ==> error.words() == "invalid LPR control-file terminator"@,
        error is DataTerminator ==> error.words() == "invalid LPR data-file terminator"@,
{
}

/// The errors of a request are told in fixed words.
pub proof fn request_errors_are_told(error: IppError)
    ensures
        error is TooShort ==> error.words() == "IPP request is too short"@,
        error is UnexpectedEnd ==> error.words() == "unexpected end of IPP message"@,
        error is InvalidNameLength ==> error.words() == "invalid IPP attribute name length"@,
        error is NoPredecessor ==> error.words()
            == "IPP attribute with empty name has no predecessor"@,
        error is InvalidValueLength ==> error.words() == "invalid IPP attribute value length"@,
        error is EndTagMissing ==> error.words() == "IPP end-of-attributes tag was not found"@,
        error is SendDocumentWithoutJobId ==> error.words() == "Send-Document requires job-id"@,
        error is GetJobAttributesWithoutJobId ==> error.words()
            == "Get-Job-Attributes requires job-id"@,
{
}

/// Why the servers were not started is told as it was heard; that it took too
/// long is said in front.
pub proof fn start_errors_are_told(error: ServerError)
    ensures
        error is AlreadyRunning ==> error.words() == "server is already running"@,
        error matches ServerError::StartFailed(message) ==> error.words() == message@,
        error matches ServerError::StartTimedOut(message) ==> {
            &&& error.words().take(24) == "server start timed out: "@
            &&& error.words().skip(24) == message@
        },
{
    reveal_strlit("server start timed out: ");
    assert("server start timed out: "@.len() == 24);
    if let ServerError::StartTimedOut(message) = error {
        assert(error.words().take(24) =~= "server start timed out: "@);
        assert(error.words().skip(24) =~= message@);
    }
}

} // verus!
