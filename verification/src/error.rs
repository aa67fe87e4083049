//! The crate-wide error type.
//!
//! Each variant carries a human-readable message; `describe` renders the
//! variant together with its message, replacing a `Display` implementation,
//! which verified types cannot have.

use vstd::prelude::*;

verus! {

/// What went wrong during an HTTP interaction or while interpreting input.
#[derive(Debug, Clone)]
pub enum Error {
    /// A transport-level or HTTP-protocol failure.
    Http(String),
    /// The text being parsed (DSL, JSON, or a path) was malformed.
    Parse(String),
    /// Invalid configuration was supplied.
    Config(String),
    /// An assertion failed hard enough to be reported as an error.
    AssertionFailed(String),
    /// A test could not be executed.
    Test(String),
    /// Anything that fits no other variant.
    Unknown(String),
}

impl Error {
    /// Builds an `Http` error from a message.
    pub fn http(msg: String) -> (e: Error)
        ensures
            e == Error::Http(msg),
    {
        Error::Http(msg)
    }

    /// Builds a `Parse` error from a message.
    pub fn parse(msg: String) -> (e: Error)
        ensures
            e == Error::Parse(msg),
    {
        Error::Parse(msg)
    }

    /// Builds a `Config` error from a message.
    pub fn config(msg: String) -> (e: Error)
        ensures
            e == Error::Config(msg),
    {
        Error::Config(msg)
    }

    /// Builds an `AssertionFailed` error from a message.
    pub fn assertion(msg: String) -> (e: Error)
        ensures
            e == Error::AssertionFailed(msg),
    {
        Error::AssertionFailed(msg)
    }

    /// Builds a `Test` error from a message.
    pub fn test(msg: String) -> (e: Error)
        ensures
            e == Error::Test(msg),
    {
        Error::Test(msg)
    }

    /// The message carried by this error, without the variant prefix.
    pub open spec fn spec_message(&self) -> Seq<char> {
        match self {
            Error::Http(m) => m@,
            Error::Parse(m) => m@,
            Error::Config(m) => m@,
            Error::AssertionFailed(m) => m@,
            Error::Test(m) => m@,
            Error::Unknown(m) => m@,
        }
    }

    /// The prefix that `describe` puts before the message.
    pub open spec fn spec_prefix(&self) -> Seq<char> {
        match self {
            Error::Http(_) => "HTTP error: "@,
            Error::Parse(_) => "Parse error: "@,
            Error::Config(_) => "Configuration error: "@,
            Error::AssertionFailed(_) => "Assertion failed: "@,
            Error::Test(_) => "Test error: "@,
            Error::Unknown(_) => "Unknown error: "@,
        }
    }

    /// Renders the error as `<kind>: <message>`.
    pub fn describe(&self) -> (s: String)
        ensures
            s@ == self.spec_prefix() + self.spec_message(),
    {
        let prefix = match self {
            Error::Http(_) => "HTTP error: ",
            Error::Parse(_) => "Parse error: ",
            Error::Config(_) => "Configuration error: ",
            Error::AssertionFailed(_) => "Assertion failed: ",
            Error::Test(_) => "Test error: ",
            Error::Unknown(_) => "Unknown error: ",
        };
        let msg = match self {
            Error::Http(m) => m,
            Error::Parse(m) => m,
            Error::Config(m) => m,
            Error::AssertionFailed(m) => m,
            Error::Test(m) => m,
            Error::Unknown(m) => m,
        };
        let mut s = String::from_str(prefix);
        s.append(msg.as_str());
        s
    }
}

} // verus!
