//! The client's base URL, the URLs of its requests, and the check made on the
//! status of the device's replies.
use vstd::prelude::*;

use crate::error::{Error, Result, StatusCode};
use crate::text::{trim, trimmed};

verus! {

/// The serialization of the URL that `url::Url::parse` makes of `input`, or
/// `None` when it reports an error.
pub uninterp spec fn parsed_url(input: Seq<char>) -> Option<Seq<char>>;

/// `url::Url::parse`, with the URL handed back as its serialization (the
/// text by which `url` compares two URLs). The contract names the result,
/// success and failure included; which `ParseError` comes back is not stated.
#[verifier::external_body]
fn parse_url(input: &str) -> (r: core::result::Result<String, url::ParseError>)
    ensures
        r is Ok <==> parsed_url(input@) is Some,
        r matches Ok(s) ==> parsed_url(input@) == Some(s@),
{
    match url::Url::parse(input) {
        Ok(u) => Ok(u.into()),
        Err(e) => Err(e),
    }
}

/// The serialization of the URL that `url::Url::join` makes of `input`
/// relative to the URL serialized as `base`, or `None` when reading `base`
/// back or the join reports an error.
pub uninterp spec fn joined_url(base: Seq<char>, input: Seq<char>) -> Option<Seq<char>>;

/// `url::Url::join` on the URL serialized as `base` (which is read back
/// with `url::Url::parse`), with the result handed back as its
/// serialization. The contract names the result, success and failure
/// included; which `ParseError` comes back is not stated.
#[verifier::external_body]
fn join_url(base: &str, input: &str) -> (r: core::result::Result<String, url::ParseError>)
    ensures
        r is Ok <==> joined_url(base@, input@) is Some,
        r matches Ok(s) ==> joined_url(base@, input@) == Some(s@),
{
    match url::Url::parse(base) {
        Ok(b) => match b.join(input) {
            Ok(u) => Ok(u.into()),
            Err(e) => Err(e),
        },
        Err(e) => Err(e),
    }
}

/// The address that a client talks to when none is given.
pub open spec fn default_base() -> Seq<char> {
    "http://crosspoint.local"@
}

/// A client of one CrossPoint device, known by its base URL.
pub struct CrossPointClient {
    base_url: String,
}

impl View for CrossPointClient {
    type V = Seq<char>;

    /// The serialization of the device's base URL.
    closed spec fn view(&self) -> Seq<char> {
        self.base_url@
    }
}

impl CrossPointClient {
    /// A client of the device at `base`, or at `http://crosspoint.local` when
    /// `base` is `None`. Fails when the address is not a URL.
    pub fn new(base: Option<String>) -> (r: Result<Self>)
        ensures
            ({
                let b = match base {
                    Some(s) => s@,
                    None => default_base(),
                };
                match parsed_url(b) {
                    Some(u) => r matches Ok(c) && c@ == u,
                    None => r matches Err(Error::Url(_)),
                }
            }),
    {
        let b = match base {
            Some(s) => s,
            None => "http://crosspoint.local".to_owned(),
        };
        match parse_url(b.as_str()) {
            Ok(u) => Ok(CrossPointClient { base_url: u }),
            Err(e) => Err(Error::Url(e)),
        }
    }

    /// The URL of `endpoint` on the device: the endpoint joined onto the
    /// base URL.
    pub fn build_url(&self, endpoint: &str) -> (r: Result<String>)
        ensures
            match joined_url(self@, endpoint@) {
                Some(u) => r matches Ok(s) && s@ == u,
                None => r matches Err(Error::Url(_)),
            },
    {
        match join_url(self.base_url.as_str(), endpoint) {
            Ok(u) => Ok(u),
            Err(e) => Err(Error::Url(e)),
        }
    }
}

/// Device status, as the device reports it.
#[derive(Debug, Clone)]
pub struct Device {
    /// Firmware version.
    pub version: String,
    /// The device's IPv4 address, octet by octet.
    pub ip: [u8; 4],
    /// `STA` when joined to a Wi-Fi network, `AP` in hotspot mode.
    pub mode: String,
    /// Signal strength in dBm; 0 in AP mode.
    pub rssi: i32,
    /// Free heap in bytes.
    pub free_heap: u32,
    /// Seconds since boot.
    pub uptime: u64,
    /// Device name.
    pub device: String,
}

/// The verdict on a reply with status `status` and body `body`: success for
/// a status in `200..300`, otherwise an HTTP error that carries the status
/// and the body with surrounding white space removed.
pub fn check_status(status: StatusCode, body: &str) -> (r: Result<()>)
    ensures
        (200 <= status.0 < 300) ==> r is Ok,
        !(200 <= status.0 < 300) ==> (r matches Err(Error::Http { status: s, message }) && s
            == status && message@ == trimmed(body@)),
{
    if status.is_success() {
        Ok(())
    } else {
        Err(status_error(status, body))
    }
}

/// The error for a reply whose status `status` lies outside the success
/// range: it carries the status and the body `body` with surrounding white
/// space removed.
pub fn status_error(status: StatusCode, body: &str) -> (e: Error)
    requires
        !(200 <= status.0 < 300),
    ensures
        e matches Error::Http { status: s, message } && s == status && message@ == trimmed(body@),
{
    Error::Http { status, message: trim(body) }
}

} // verus!
