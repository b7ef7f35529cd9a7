//! Error values of the balancer.
use vstd::prelude::*;
use vstd::string::StringExecFns;

verus! {

/// Raised when no upstream server can be chosen.
#[derive(Debug, Clone, Copy, PartialEq, Eq, Structural)]
pub struct UpstreamNotFoundError;

impl UpstreamNotFoundError {
    /// The text the error is displayed as.
    pub fn describe(&self) -> (s: String)
        ensures
            s@ == "UpstreamNotFoundError"@,
    {
        String::from_str("UpstreamNotFoundError")
    }
}

/// Raised when a configuration cannot be turned into a balancer
/// configuration.
#[derive(Debug, Clone, Copy, PartialEq, Eq, Structural)]
pub struct ConfigParseError;

impl ConfigParseError {
    pub fn new() -> (e: Self)
        ensures
            e == ConfigParseError,
    {
        ConfigParseError
    }

    /// The text the error is displayed as.
    pub fn describe(&self) -> (s: String)
        ensures
            s@ == "ConfigParseError"@,
    {
        String::from_str("ConfigParseError")
    }
}

/// An error reported to a client: a numeric code, a message, and, where
/// there is one, the text of the error that caused it.
#[derive(Debug)]
pub struct ApiError {
    pub code: u16,
    pub message: String,
    pub error: Option<String>,
}

impl ApiError {
    /// A copy of the message.
    pub fn get_error_message(&self) -> (m: String)
        ensures
            m@ == self.message@,
    {
        self.message.clone()
    }

    /// The numeric code.
    pub fn get_error_code(&self) -> (c: u16)
        ensures
            c == self.code,
    {
        self.code
    }

    /// The text shown to users, whatever the error: it says nothing of the
    /// code, the message or the cause.
    pub fn describe(&self) -> (s: String)
        ensures
            s@ == "An Error Occurred, Please Try Again!"@,
    {
        String::from_str("An Error Occurred, Please Try Again!")
    }
}

} // verus!
