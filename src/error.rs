use vstd::prelude::*;

verus! {

/// Why a configuration could not be loaded.
#[derive(Debug, Clone, Copy, PartialEq, Eq, Structural)]
pub enum ConfigError {
    /// A color is not written with exactly eight characters.
    ColorLength,
    /// A color holds a character that is not a hexadecimal digit.
    ColorDigit,
    /// A condition names no known condition value.
    UnknownCondition,
    /// A controller is bound to a layout that does not exist.
    UnknownLayout,
}

impl ConfigError {
    /// A short description of the error.
    pub fn message(&self) -> (r: &'static str)
        ensures
            *self == ConfigError::ColorLength ==> r == "wrong length",
            *self == ConfigError::ColorDigit ==> r == "invalid hex digit",
            *self == ConfigError::UnknownCondition ==> r == "Invalid String",
            *self == ConfigError::UnknownLayout ==> r == "unknown layout",
    {
        match self {
            ConfigError::ColorLength => "wrong length",
            ConfigError::ColorDigit => "invalid hex digit",
            ConfigError::UnknownCondition => "Invalid String",
            ConfigError::UnknownLayout => "unknown layout",
        }
    }
}

} // verus!
