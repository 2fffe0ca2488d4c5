//! Rotor wire protocols described as data: command templates with `{az}` /
//! `{el}` tokens, a response pattern, and serial transport hints.
use vstd::prelude::*;
use crate::text::owned;

verus! {

/// Rotor operation a command template can be produced for.
#[derive(Debug, Clone, Copy, PartialEq, Eq, Structural)]
pub enum Operation {
    SetPosition,
    QueryPosition,
    Stop,
}

/// Serial parity.
#[derive(Debug, Clone, Copy, PartialEq, Eq, Structural)]
pub enum Parity {
    /// No parity bit.
    NoParity,
    Even,
    Odd,
}

/// Serial stop bits.
#[derive(Debug, Clone, Copy, PartialEq, Eq, Structural)]
pub enum StopBits {
    One,
    Two,
}

/// Serial transport parameters of a protocol.
#[derive(Debug, Clone, PartialEq, Eq)]
pub struct TransportHints {
    pub baud: u32,
    pub data_bits: u8,
    pub parity: Parity,
    pub stop_bits: StopBits,
    /// Line ending appended/expected on the wire (`"\r"` or `"\n"`).
    pub line_ending: String,
}

impl TransportHints {
    /// The common 9600 baud, 8 data bits, no parity, one stop bit setting.
    pub fn default_9600_8n1(line_ending: &str) -> (h: Self)
        ensures
            h.baud == 9600,
            h.data_bits == 8,
            h.parity == Parity::NoParity,
            h.stop_bits == StopBits::One,
            h.line_ending@ == line_ending@,
    {
        TransportHints {
            baud: 9600,
            data_bits: 8,
            parity: Parity::NoParity,
            stop_bits: StopBits::One,
            line_ending: owned(line_ending),
        }
    }
}

/// The four templates of a data-driven rotor protocol. Templates use `{az}` /
/// `{el}` tokens with an optional printf-style spec (`{az|%03.0f}`); the
/// response pattern is the inverse template that parses a position readout.
#[derive(Debug, Clone, PartialEq, Eq)]
pub struct ProtocolTemplates {
    /// Commands an absolute position move.
    pub set_template: String,
    /// Requests the current position.
    pub query_template: String,
    /// Stops motion.
    pub stop_template: String,
    /// Parses a position readout into az/el.
    pub response_pattern: String,
}

/// The template an operation is encoded with.
pub open spec fn template_of(t: ProtocolTemplates, op: Operation) -> String {
    match op {
        Operation::SetPosition => t.set_template,
        Operation::QueryPosition => t.query_template,
        Operation::Stop => t.stop_template,
    }
}

impl ProtocolTemplates {
    /// The template an operation is encoded with.
    pub fn template_for(&self, op: Operation) -> (t: &String)
        ensures
            *t == template_of(*self, op),
    {
        match op {
            Operation::SetPosition => &self.set_template,
            Operation::QueryPosition => &self.query_template,
            Operation::Stop => &self.stop_template,
        }
    }

    /// Yaesu GS-232A: set `Waaa eee\r`, readout `+0aaa+0eee`.
    pub fn gs232a() -> (t: Self)
        ensures
            t.set_template@ == "W{az|%03.0f} {el|%03.0f}\r"@,
            t.query_template@ == "C2\r"@,
            t.stop_template@ == "S\r"@,
            t.response_pattern@ == "{az|%+04.0f}{el|%+04.0f}"@,
    {
        ProtocolTemplates {
            set_template: owned("W{az|%03.0f} {el|%03.0f}\r"),
            query_template: owned("C2\r"),
            stop_template: owned("S\r"),
            response_pattern: owned("{az|%+04.0f}{el|%+04.0f}"),
        }
    }

    /// Yaesu GS-232B: same set command, readout `AZ=aaa EL=eee`.
    pub fn gs232b() -> (t: Self)
        ensures
            t.set_template@ == "W{az|%03.0f} {el|%03.0f}\r"@,
            t.query_template@ == "C2\r"@,
            t.stop_template@ == "S\r"@,
            t.response_pattern@ == "AZ={az|%03.0f} EL={el|%03.0f}"@,
    {
        ProtocolTemplates {
            set_template: owned("W{az|%03.0f} {el|%03.0f}\r"),
            query_template: owned("C2\r"),
            stop_template: owned("S\r"),
            response_pattern: owned("AZ={az|%03.0f} EL={el|%03.0f}"),
        }
    }

    /// EasyComm II: set `AZaaa.a ELeee.e\n`, readout of the same shape.
    pub fn easycomm2() -> (t: Self)
        ensures
            t.set_template@ == "AZ{az|%.1f} EL{el|%.1f}\n"@,
            t.query_template@ == "AZ EL\n"@,
            t.stop_template@ == "SA SE\n"@,
            t.response_pattern@ == "AZ{az|%.1f} EL{el|%.1f}"@,
    {
        ProtocolTemplates {
            set_template: owned("AZ{az|%.1f} EL{el|%.1f}\n"),
            query_template: owned("AZ EL\n"),
            stop_template: owned("SA SE\n"),
            response_pattern: owned("AZ{az|%.1f} EL{el|%.1f}"),
        }
    }
}

} // verus!
