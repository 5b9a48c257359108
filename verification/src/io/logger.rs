//! Log levels: their names, colours, numeric codes and which messages
//! pass a level filter.

use vstd::prelude::*;

verus! {

/// The severity of a log message, least severe first.
#[derive(Debug, Clone, Copy, PartialEq, Eq, Structural)]
pub enum LogLevel {
    Debug,
    Info,
    Warn,
    Error,
}

/// The numeric code of a level: 0 for `Debug` up to 3 for `Error`.
pub open spec fn spec_level_code(l: LogLevel) -> u8 {
    match l {
        LogLevel::Debug => 0,
        LogLevel::Info => 1,
        LogLevel::Warn => 2,
        LogLevel::Error => 3,
    }
}

impl LogLevel {
    /// The level's name as printed in front of a message.
    pub fn as_str(&self) -> (r: &'static str)
        ensures
            r@ == (match *self {
                LogLevel::Debug => "DEBUG"@,
                LogLevel::Info => "INFO"@,
                LogLevel::Warn => "WARN"@,
                LogLevel::Error => "ERROR"@,
            }),
    {
        match self {
            LogLevel::Debug => "DEBUG",
            LogLevel::Info => "INFO",
            LogLevel::Warn => "WARN",
            LogLevel::Error => "ERROR",
        }
    }

    /// The ARGB colour messages of the level are printed in.
    pub fn color(&self) -> (r: u32)
        ensures
            r == (match *self {
                LogLevel::Debug => 0xFF888888u32,
                LogLevel::Info => 0xFFFFFFFFu32,
                LogLevel::Warn => 0xFFFFAA00u32,
                LogLevel::Error => 0xFFFF0000u32,
            }),
    {
        match self {
            LogLevel::Debug => 0xFF888888,
            LogLevel::Info => 0xFFFFFFFF,
            LogLevel::Warn => 0xFFFFAA00,
            LogLevel::Error => 0xFFFF0000,
        }
    }

    /// The level's numeric code.
    pub fn code(&self) -> (r: u8)
        ensures
            r == spec_level_code(*self),
    {
        match self {
            LogLevel::Debug => 0,
            LogLevel::Info => 1,
            LogLevel::Warn => 2,
            LogLevel::Error => 3,
        }
    }
}

/// The level a stored code stands for; an unknown code reads as `Info`.
pub fn level_from_code(code: u8) -> (r: LogLevel)
    ensures
        code <= 3 ==> spec_level_code(r) == code,
        code > 3 ==> r == LogLevel::Info,
{
    match code {
        0 => LogLevel::Debug,
        1 => LogLevel::Info,
        2 => LogLevel::Warn,
        3 => LogLevel::Error,
        _ => LogLevel::Info,
    }
}

/// Whether a message of `level` passes the filter set to `threshold`: it
/// does when it is at least as severe.
pub fn should_log(level: LogLevel, threshold: LogLevel) -> (r: bool)
    ensures
        r == (spec_level_code(level) >= spec_level_code(threshold)),
{
    level.code() >= threshold.code()
}

/// Storing a level's code and reading it back gives the level.
pub proof fn lemma_code_roundtrip(l: LogLevel)
    ensures
        spec_level_code(l) <= 3,
        (match spec_level_code(l) {
            0u8 => LogLevel::Debug,
            1u8 => LogLevel::Info,
            2u8 => LogLevel::Warn,
            _ => LogLevel::Error,
        }) == l,
{
}

} // verus!
