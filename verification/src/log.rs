//! Severity levels of log lines, and how each is labelled.

use vstd::prelude::*;

verus! {

/// The severity of a log line.
#[derive(Clone, Copy, Debug, PartialEq, Eq, Structural)]
pub enum LogLevel {
    Stack,
    Debug,
    Verbose,
    Info,
    Warn,
    Error,
    Off,
}

/// The colour in which a level's label is shown. Every label is bold.
#[derive(Clone, Copy, Debug, PartialEq, Eq, Structural)]
pub enum LabelColor {
    Plain,
    Green,
    Yellow,
    Red,
}

impl LogLevel {
    /// The label of the level: five characters, or none for `Off`.
    pub open spec fn spec_label(self) -> Seq<char> {
        match self {
            LogLevel::Stack => "STACK"@,
            LogLevel::Debug => "DEBUG"@,
            LogLevel::Verbose => "VERBO"@,
            LogLevel::Info => " INFO"@,
            LogLevel::Warn => " WARN"@,
            LogLevel::Error => "ERROR"@,
            LogLevel::Off => ""@,
        }
    }

    /// The colour of the level's label: green for `Debug`, yellow for
    /// `Warn`, red for `Error`, none for the others.
    pub open spec fn spec_color(self) -> LabelColor {
        match self {
            LogLevel::Debug => LabelColor::Green,
            LogLevel::Warn => LabelColor::Yellow,
            LogLevel::Error => LabelColor::Red,
            _ => LabelColor::Plain,
        }
    }

    /// The label that a line of this level is marked with.
    pub fn label(&self) -> (label: &'static str)
        ensures
            label@ == self.spec_label(),
    {
        match self {
            LogLevel::Stack => "STACK",
            LogLevel::Debug => "DEBUG",
            LogLevel::Verbose => "VERBO",
            LogLevel::Info => " INFO",
            LogLevel::Warn => " WARN",
            LogLevel::Error => "ERROR",
            LogLevel::Off => "",
        }
    }

    /// The colour in which the label is shown.
    pub fn color(&self) -> (color: LabelColor)
        ensures
            color == self.spec_color(),
    {
        match self {
            LogLevel::Debug => LabelColor::Green,
            LogLevel::Warn => LabelColor::Yellow,
            LogLevel::Error => LabelColor::Red,
            _ => LabelColor::Plain,
        }
    }
}

} // verus!
