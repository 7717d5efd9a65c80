//! Where the servers listen.

use crate::notation::{
    decimal, decimal_is_digits, decimal_round_trip, number_up_to, parse_u16, push_decimal,
};
use crate::text::owned;
use std::path::PathBuf;
use vstd::prelude::*;
use vstd::string::StringExecFns;

verus! {

/// Where the LPR server listens on Windows.
pub const LPR_PORT_WINDOWS: u16 = 515;

/// Where the LPR server listens elsewhere, where smaller ports are privileged.
pub const LPR_PORT: u16 = 1515;

/// Where the IPP server listens.
pub const IPP_PORT: u16 = 8631;

/// How the servers are run: where jobs are kept, and the ports of the local
/// host on which the servers listen.
#[derive(Debug)]
pub struct ServerConfig {
    pub output_dir: PathBuf,
    pub lpr_port: u16,
    pub ipp_port: u16,
}

/// The port that a variable of the environment asks for: the number in it,
/// where it writes one that a port can have, else `default`.
pub open spec fn port_of(value: Option<Seq<char>>, default: u16) -> u16 {
    match value {
        Some(text) => match number_up_to(text, u16::MAX as nat) {
            Some(port) => port as u16,
            None => default,
        },
        None => default,
    }
}

/// The characters of an optional text.
pub open spec fn text_in(value: Option<&str>) -> Option<Seq<char>> {
    match value {
        Some(text) => Some(text@),
        None => None,
    }
}

/// The port that a variable of the environment asks for.
pub fn env_port(value: Option<&str>, default: u16) -> (port: u16)
    ensures
        port == port_of(text_in(value), default),
{
    match value {
        Some(text) => match parse_u16(text) {
            Some(port) => port,
            None => default,
        },
        None => default,
    }
}

/// A port in writing is read back.
pub proof fn port_round_trip(port: u16, default: u16)
    ensures
        port_of(Some(decimal(port as nat)), default) == port,
{
    decimal_is_digits(port as nat);
    decimal_round_trip(port as nat);
    assert('0' <= decimal(port as nat)[0]);
}

/// The addresses under which the printers are reached.
pub open spec fn endpoints(lpr_port: u16, ipp_port: u16) -> Seq<char> {
    "LPR: lpd://127.0.0.1:"@ + decimal(lpr_port as nat)
        + "/virtual    |    IPP: ipp://127.0.0.1:"@ + decimal(ipp_port as nat)
        + "/printers/virtual"@
}

/// What is shown while the servers run.
pub open spec fn running(lpr_port: u16, ipp_port: u16) -> Seq<char> {
    "稼働中 - LPR 127.0.0.1:"@ + decimal(lpr_port as nat) + " / IPP 127.0.0.1:"@ + decimal(
        ipp_port as nat,
    )
}

impl ServerConfig {
    /// The configuration for a platform, Windows or another one, and for what
    /// the environment holds for the two ports.
    pub fn default_for_platform(
        output_dir: PathBuf,
        windows: bool,
        lpr_value: Option<&str>,
        ipp_value: Option<&str>,
    ) -> (config: Self)
        ensures
            config.output_dir == output_dir,
            config.lpr_port == port_of(
                text_in(lpr_value),
                if windows {
                    LPR_PORT_WINDOWS
                } else {
                    LPR_PORT
                },
            ),
            config.ipp_port == port_of(text_in(ipp_value), IPP_PORT),
    {
        let lpr_default = if windows {
            LPR_PORT_WINDOWS
        } else {
            LPR_PORT
        };
        ServerConfig {
            output_dir,
            lpr_port: env_port(lpr_value, lpr_default),
            ipp_port: env_port(ipp_value, IPP_PORT),
        }
    }

    /// The addresses under which the printers are reached.
    pub fn endpoint_summary(&self) -> (text: String)
        ensures
            text@ == endpoints(self.lpr_port, self.ipp_port),
    {
        let mut text = owned("LPR: lpd://127.0.0.1:");
        push_decimal(&mut text, self.lpr_port as u64);
        text.append("/virtual    |    IPP: ipp://127.0.0.1:");
        push_decimal(&mut text, self.ipp_port as u64);
        text.append("/printers/virtual");
        text
    }

    /// What is shown while the servers run.
    pub fn running_text(&self) -> (text: String)
        ensures
            text@ == running(self.lpr_port, self.ipp_port),
    {
        let mut text = owned("稼働中 - LPR 127.0.0.1:");
        push_decimal(&mut text, self.lpr_port as u64);
        text.append(" / IPP 127.0.0.1:");
        push_decimal(&mut text, self.ipp_port as u64);
        text
    }
}

} // verus!
