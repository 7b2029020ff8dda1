//! Errors of the client and the HTTP status code that the device answers with.
use vstd::prelude::*;

use crate::text::{decimal, push_decimal};
use serde_json::Error as JsonError;

verus! {

/// The error type of the `url` crate, carried in [`Error::Url`].
#[verifier::external_type_specification]
#[verifier::external_body]
pub struct ExUrlParseError(url::ParseError);

/// The error type of the `serde_json` crate, carried in [`Error::Json`].
#[verifier::external_type_specification]
#[verifier::external_body]
pub struct ExJsonError(JsonError);

/// An HTTP status code.
#[derive(Debug, Clone, Copy, PartialEq, Eq, Structural)]
pub struct StatusCode(pub u16);

impl StatusCode {
    pub fn new(code: u16) -> (r: Self)
        ensures
            r.0 == code,
    {
        StatusCode(code)
    }

    pub fn as_u16(self) -> (r: u16)
        ensures
            r == self.0,
    {
        self.0
    }

    /// Whether the code is in the success range `200..300`.
    pub fn is_success(self) -> (r: bool)
        ensures
            r == (200 <= self.0 < 300),
    {
        200 <= self.0 && self.0 < 300
    }

    /// The code in decimal, as it is displayed.
    pub fn to_string(&self) -> (s: String)
        ensures
            s@ == decimal(self.0 as nat),
    {
        let mut s = String::new();
        push_decimal(&mut s, self.0 as u64);
        s
    }
}

/// The errors that the client reports.
#[derive(Debug)]
pub enum Error {
    /// The request could not be sent or its reply could not be read.
    Network(String),
    /// A URL could not be parsed or joined.
    Url(url::ParseError),
    /// A value could not be serialized.
    Json(JsonError),
    /// The device answered with a status outside the success range.
    Http { status: StatusCode, message: String },
    /// The request was not well formed for the device's protocol.
    Protocol(String),
    /// An error raised by a JavaScript host.
    Js(String),
}

/// The displayed message of an error, for the variants whose message is
/// fully determined by their fields.
pub open spec fn error_message(e: Error) -> Option<Seq<char>> {
    match e {
        Error::Network(s) => Some("network error: "@ + s@),
        Error::Http { status, message } => Some(
            "HTTP "@ + decimal(status.0 as nat) + ": "@ + message@,
        ),
        Error::Protocol(s) => Some("Device protocol error: "@ + s@),
        Error::Js(s) => Some("Javascript error: "@ + s@),
        Error::Url(_) => Some("Invalid URL"@),
        Error::Json(_) => Some("Serialization error"@),
    }
}

impl Error {
    /// The message that the error is displayed with.
    pub fn to_string(&self) -> (s: String)
        ensures
            error_message(*self) == Some(s@),
    {
        match self {
            Error::Network(m) => {
                let mut s = "network error: ".to_owned();
                s.append(m.as_str());
                s
            },
            Error::Url(_) => "Invalid URL".to_owned(),
            Error::Json(_) => "Serialization error".to_owned(),
            Error::Http { status, message } => {
                let mut s = "HTTP ".to_owned();
                s.append(status.to_string().as_str());
                s.append(": ");
                s.append(message.as_str());
                s
            },
            Error::Protocol(m) => {
                let mut s = "Device protocol error: ".to_owned();
                s.append(m.as_str());
                s
            },
            Error::Js(m) => {
                let mut s = "Javascript error: ".to_owned();
                s.append(m.as_str());
                s
            },
        }
    }
}

impl From<url::ParseError> for Error {
    fn from(e: url::ParseError) -> (r: Self) {
        Error::Url(e)
    }
}

impl vstd::std_specs::convert::FromSpecImpl<url::ParseError> for Error {
    open spec fn obeys_from_spec() -> bool {
        true
    }

    open spec fn from_spec(e: url::ParseError) -> Self {
        Error::Url(e)
    }
}

impl From<JsonError> for Error {
    fn from(e: JsonError) -> (r: Self) {
        Error::Json(e)
    }
}

impl vstd::std_specs::convert::FromSpecImpl<JsonError> for Error {
    open spec fn obeys_from_spec() -> bool {
        true
    }

    open spec fn from_spec(e: JsonError) -> Self {
        Error::Json(e)
    }
}

/// The result type of the client's operations.
pub type Result<T> = core::result::Result<T, Error>;

} // verus!
