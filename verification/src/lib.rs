//! Client model for the CrossPoint e-reader firmware's HTTP API: the requests
//! that each operation sends, the check made on the status of the device's
//! replies, and the path helpers that the operations rely on. Sending the
//! requests is left to a transport.

pub mod client;
pub mod error;
pub mod filesystem;
pub mod json;
pub mod request;
pub mod text;

pub use client::{check_status, status_error, CrossPointClient, Device};
pub use error::{Error, Result, StatusCode};
pub use filesystem::{safe_join, RemoteFile};
pub use request::{Method, Payload, Request};
