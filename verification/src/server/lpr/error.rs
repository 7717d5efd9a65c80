//! Why a connection is given up.

use crate::notation::{decimal, hex_byte, push_decimal, push_hex_byte, NumberFault};
use crate::text::owned;
use vstd::prelude::*;
use vstd::string::StringExecFns;

verus! {

/// Why a connection was given up.
#[derive(Clone, Copy, Debug, PartialEq, Eq, Structural)]
pub enum LprError {
    /// The connection ended where a line was due.
    EndOfLine,
    /// A command that is not known.
    UnsupportedCommand(u8),
    /// A subcommand that is not known.
    UnsupportedSubcommand(u8),
    /// The length of a file cannot be read.
    InvalidLength(NumberFault),
    /// A file has no name.
    MissingName,
    /// A control file is too large.
    ControlTooLarge(usize),
    /// A data file of unknown length.
    EmptyData,
    /// A data file is too large.
    DataTooLarge(usize),
    /// A control file does not end as it should.
    ControlTerminator,
    /// A data file does not end as it should.
    DataTerminator,
}

impl LprError {
    /// The error in words.
    pub open spec fn words(self) -> Seq<char> {
        match self {
            LprError::EndOfLine => "unexpected EOF while reading LPR line"@,
            LprError::UnsupportedCommand(code) => "unsupported LPR command: 0x"@ + hex_byte(code),
            LprError::UnsupportedSubcommand(code) => {
                "unsupported LPR receive-job subcommand: 0x"@ + hex_byte(code)
            },
            LprError::InvalidLength(fault) => "invalid LPR file length: "@ + fault.words(),
            LprError::MissingName => "missing LPR file name"@,
            LprError::ControlTooLarge(count) => {
                "LPR control file exceeds limit: "@ + decimal(count as nat) + " bytes"@
            },
            LprError::EmptyData => {
                "zero-length/streaming LPR data files are not supported by this MVP"@
            },
            LprError::DataTooLarge(count) => {
                "LPR print data exceeds limit: "@ + decimal(count as nat) + " bytes"@
            },
            LprError::ControlTerminator => "invalid LPR control-file terminator"@,
            LprError::DataTerminator => "invalid LPR data-file terminator"@,
        }
    }

    /// The error in words.
    pub fn message(self) -> (text: String)
        ensures
            text@ == self.words(),
    {
        match self {
            LprError::EndOfLine => owned("unexpected EOF while reading LPR line"),
            LprError::UnsupportedCommand(code) => {
                let mut text = owned("unsupported LPR command: 0x");
                push_hex_byte(&mut text, code);
                text
            },
            LprError::UnsupportedSubcommand(code) => {
                let mut text = owned("unsupported LPR receive-job subcommand: 0x");
                push_hex_byte(&mut text, code);
                text
            },
            LprError::InvalidLength(fault) => {
                let mut text = owned("invalid LPR file length: ");
                text.append(fault.message());
                text
            },
            LprError::MissingName => owned("missing LPR file name"),
            LprError::ControlTooLarge(count) => {
                let mut text = owned("LPR control file exceeds limit: ");
                push_decimal(&mut text, count as u64);
                text.append(" bytes");
                text
            },
            LprError::EmptyData => owned(
                "zero-length/streaming LPR data files are not supported by this MVP",
            ),
            LprError::DataTooLarge(count) => {
                let mut text = owned("LPR print data exceeds limit: ");
                push_decimal(&mut text, count as u64);
                text.append(" bytes");
                text
            },
            LprError::ControlTerminator => owned("invalid LPR control-file terminator"),
            LprError::DataTerminator => owned("invalid LPR data-file terminator"),
        }
    }
}

} // verus!
