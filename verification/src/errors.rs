use vstd::prelude::*;

verus! {

/// Errors that can occur while parsing a decimal amount string.
#[derive(Debug, Clone, Copy, PartialEq, Eq, Structural)]
pub enum AmountParseError {
    /// The input is empty or consists only of whitespace.
    Empty,
    /// The integer part holds a non-digit character, is missing, or does
    /// not fit in a 64-bit signed integer.
    MalformedInt,
    /// The fractional part holds a non-digit character among its first
    /// four digits.
    MalformedFrac,
    /// Scaling the integer part or adding the rounding carry leaves the
    /// 64-bit signed range.
    Overflow,
}

/// Errors surfaced by the application as a whole.
#[derive(Debug)]
pub enum AppErrors {
    /// An internal error with a specific message.
    Internal(String),
    /// An arithmetic overflow while applying a command.
    Overflow,
    /// Invalid input with a specific message.
    InvalidInput(&'static str),
    /// An input/output failure with a specific message.
    Io(String),
    /// A wrapped amount-parse error.
    AmountParseError(AmountParseError),
}

/// Result alias used throughout the engine.
pub type AppResult<T> = Result<T, AppErrors>;

} // verus!
