//! The core of a user agent for the Hypertext Transfer Protocol (HTTP) 1.1.
//!
//! [`HttpClient::fetch`] takes a request, finds the server it is for, sets the
//! headers that a user agent is responsible for, and writes the bytes to send.
//! What follows is a conversation with the server, and the [`fetch`] module
//! decides its course: when to use a connection that was kept and when to make
//! a new one, when to secure it, when to start over, when the response has
//! ended, and what becomes of the connection.  The conversation itself, which
//! is input and output, is left to the program around this library.
//!
//! Connections are values of any type `C`, and so are configurations for
//! Transport Layer Security (TLS).

pub mod client;
pub mod connection;
pub mod error;
pub mod fetch;
pub mod headers;
pub mod laws;
pub mod request;
pub mod response;
pub mod text;
pub mod uri;

pub use client::HttpClient;
pub use connection::{ConnectionKey, ConnectionUse};
pub use error::Error;
pub use fetch::{ConnectionUpgrade, FetchResults, Parked, Step, RECEIVE_LIMIT};
pub use request::Request;
pub use response::Response;
pub use uri::{Authority, Uri};
