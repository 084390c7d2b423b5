use vstd::prelude::*;

verus! {

/// Why a byte-size string was refused.
#[derive(Debug, Clone, Copy, PartialEq, Eq, Structural)]
pub enum Error {
    /// The input holds no decimal digit.
    NoDigits,
    /// The unit suffix is not one of the binary units.
    UnknownUnit,
    /// The digits spell a number that does not fit a signed 64-bit integer.
    InvalidNumber,
}

impl Error {
    /// The text shown to a user for this error.
    pub open spec fn description_text(self) -> Seq<char> {
        match self {
            Error::UnknownUnit => "Unrecognized byte prefix"@,
            Error::NoDigits => "Unparseable byte size"@,
            Error::InvalidNumber => "Unparseable byte size"@,
        }
    }

    /// A short, fixed description of the error.
    pub fn description(&self) -> (text: &'static str)
        ensures
            text@ == self.description_text(),
    {
        match *self {
            Error::UnknownUnit => "Unrecognized byte prefix",
            Error::NoDigits => "Unparseable byte size",
            Error::InvalidNumber => "Unparseable byte size",
        }
    }
}

/// Why a configuration was refused.
#[derive(Debug, Clone, Copy, PartialEq, Eq, Structural)]
pub enum ConfigError {
    /// A ramp was asked for, but the final size lies below the start size.
    FinalBelowStart,
}

impl ConfigError {
    /// The text shown to a user for this error.
    pub open spec fn description_text(self) -> Seq<char> {
        "Final memory is below start memory"@
    }

    /// A short, fixed description of the error.
    pub fn description(&self) -> (text: &'static str)
        ensures
            text@ == self.description_text(),
    {
        "Final memory is below start memory"
    }
}

} // verus!
