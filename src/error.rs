//! Error type of the library.
use vstd::prelude::*;
use vstd::string::*;

verus! {

/// Errors of the input method core.
#[derive(Debug, Clone, PartialEq, Eq)]
pub enum LingCodeError {
    /// A configuration could not be used.
    ConfigError(String),
    /// A dictionary source failed.
    DictError(String),
    /// A key or code could not be interpreted.
    InputError(String),
    /// A script conversion failed.
    ConversionError(String),
    /// A parameter was out of range.
    InvalidParameter(String),
    /// Reading or writing a resource failed.
    IoError(String),
    /// A schema names a stage that no registry entry provides, or is malformed.
    SchemaError(String),
    /// Any other failure.
    Unknown(String),
}

/// The text that describes an error.
pub open spec fn error_text(e: LingCodeError) -> Seq<char> {
    match e {
        LingCodeError::ConfigError(m) => "Config error: "@ + m@,
        LingCodeError::DictError(m) => "Dictionary error: "@ + m@,
        LingCodeError::InputError(m) => "Input error: "@ + m@,
        LingCodeError::ConversionError(m) => "Conversion error: "@ + m@,
        LingCodeError::InvalidParameter(m) => "Invalid parameter: "@ + m@,
        LingCodeError::IoError(m) => "IO error: "@ + m@,
        LingCodeError::SchemaError(m) => "Schema error: "@ + m@,
        LingCodeError::Unknown(m) => "Unknown error: "@ + m@,
    }
}

impl LingCodeError {
    /// The text that describes the error: its kind, a colon and the detail.
    pub fn to_string(&self) -> (r: String)
        ensures
            r@ == error_text(*self),
    {
        match self {
            LingCodeError::ConfigError(m) => String::from_str("Config error: ").concat(m.as_str()),
            LingCodeError::DictError(m) => String::from_str("Dictionary error: ").concat(m.as_str()),
            LingCodeError::InputError(m) => String::from_str("Input error: ").concat(m.as_str()),
            LingCodeError::ConversionError(m) => String::from_str("Conversion error: ").concat(m.as_str()),
            LingCodeError::InvalidParameter(m) => String::from_str("Invalid parameter: ").concat(m.as_str()),
            LingCodeError::IoError(m) => String::from_str("IO error: ").concat(m.as_str()),
            LingCodeError::SchemaError(m) => String::from_str("Schema error: ").concat(m.as_str()),
            LingCodeError::Unknown(m) => String::from_str("Unknown error: ").concat(m.as_str()),
        }
    }
}

} // verus!
