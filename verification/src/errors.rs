//! The configuration-time error taxonomy.
//!
//! Every `ConfigError` is detected before any I/O is attempted and aborts
//! the run.  Request-time failures (protocol errors, timeouts) are not
//! errors of this kind: they are classified per request by the engine and
//! only counted.

use vstd::prelude::*;

verus! {

/// An illegal configuration, rejected before any transmission.
#[derive(Clone, Copy, Debug, PartialEq, Eq, Structural)]
pub enum ConfigError {
    /// The function token names no known access function.
    UnsupportedFunction,
    /// The format token names no known format.
    UnsupportedFormat,
    /// The format is recognized but not legal for the given function.
    IncompatibleFormat,
    /// A write literal does not parse under the active format.
    InvalidLiteral,
    /// A write was requested on a read-only function.
    WriteToReadOnly,
    /// A write was requested for more than one slave address.
    TooManySlaves,
    /// A write was requested on a function that takes no write values.
    WriteNotAllowed,
    /// A reference token is not a decimal, hex or binary 16-bit number.
    InvalidReference,
    /// A timeout token is not a decimal number of seconds.
    InvalidTimeout,
    /// No entry of the device directory carries the requested name.
    NoDeviceFound,
    /// More than one entry of the device directory carries the name.
    MultipleDevicesFound,
    /// The directory entry names a protocol this crate does not speak.
    UnsupportedProtocol,
    /// The directory entry names a transport mode this crate does not speak.
    UnsupportedMode,
    /// The directory entry lacks a field its protocol requires.
    MissingField,
}

impl ConfigError {
    /// A short description, for callers that print the error.
    pub fn message(&self) -> &'static str {
        match self {
            ConfigError::UnsupportedFunction => "Unsupported function",
            ConfigError::UnsupportedFormat => "Unsupported format",
            ConfigError::IncompatibleFormat => "Format not legal for this function",
            ConfigError::InvalidLiteral => "Write value does not parse under this format",
            ConfigError::WriteToReadOnly => "Unable to write read-only element",
            ConfigError::TooManySlaves => "Only one slave can write",
            ConfigError::WriteNotAllowed => "Write value not allowed",
            ConfigError::InvalidReference => "only supported dec/hex/bin formats",
            ConfigError::InvalidTimeout => "Timeout must be a decimal number of seconds",
            ConfigError::NoDeviceFound => "No device found",
            ConfigError::MultipleDevicesFound => "Multiple devices found",
            ConfigError::UnsupportedProtocol => "Unsupported protocol",
            ConfigError::UnsupportedMode => "Unsupported mode",
            ConfigError::MissingField => "Device entry lacks a required field",
        }
    }
}

} // verus!
