//! The ways in which a fetch can fail.

use crate::uri::{Uri, UriView};
use rhymuweb::Error as MessageError;
use vstd::prelude::*;

verus! {

/// An error of the operating system's input and output.
#[verifier::external_type_specification]
#[verifier::external_body]
pub struct ExIoError(std::io::Error);

/// An error of generating, parsing or decoding a message.
#[verifier::external_type_specification]
#[verifier::external_body]
pub struct ExMessageError(MessageError);

/// This is the enumeration of all the different kinds of errors which this
/// crate generates.
#[derive(Debug)]
pub enum Error {
    /// The raw request to be sent to the server could not be generated.
    BadRequest(MessageError),
    /// The raw response received from the server could not be parsed.
    BadResponse(MessageError),
    /// The connection to the server was lost while awaiting the response
    /// to a request.
    Disconnected,
    /// The attached host in the target URI did not parse as valid text.
    HostNotValidText(Vec<u8>),
    /// No authority was provided in the target URI, so the user agent doesn't
    /// know to whom to send the request.
    NoTargetAuthority(Uri),
    /// An error occurred during the initial TLS handshake with the server.
    TlsHandshake(std::io::Error),
    /// The user agent was unable to establish a connection to the
    /// given server host/port as the target of the request.
    UnableToConnect(std::io::Error),
    /// The user agent could not determine at what port to contact the
    /// server for the target identified by the attached URI.
    UnableToDetermineServerPort(Uri),
    /// The user agent connected to a server but could not get the
    /// server's address from the connection.
    UnableToGetPeerAddress(std::io::Error),
    /// The user agent encountered an error attempting to receive the
    /// response from the server.
    UnableToReceive(std::io::Error),
    /// The user agent encountered an error attempting to send the
    /// request to the server.
    UnableToSend(std::io::Error),
}

/// What an [`Error`] stands for: its kind, and what it carries, apart from the
/// details of a message error.
pub enum ErrorView {
    BadRequest,
    BadResponse,
    Disconnected,
    HostNotValidText(Seq<u8>),
    NoTargetAuthority(UriView),
    TlsHandshake(std::io::Error),
    UnableToConnect(std::io::Error),
    UnableToDetermineServerPort(UriView),
    UnableToGetPeerAddress(std::io::Error),
    UnableToReceive(std::io::Error),
    UnableToSend(std::io::Error),
}

impl View for Error {
    type V = ErrorView;

    open spec fn view(&self) -> ErrorView {
        match *self {
            Error::BadRequest(_) => ErrorView::BadRequest,
            Error::BadResponse(_) => ErrorView::BadResponse,
            Error::Disconnected => ErrorView::Disconnected,
            Error::HostNotValidText(host) => ErrorView::HostNotValidText(host@),
            Error::NoTargetAuthority(target) => ErrorView::NoTargetAuthority(target@),
            Error::TlsHandshake(source) => ErrorView::TlsHandshake(source),
            Error::UnableToConnect(source) => ErrorView::UnableToConnect(source),
            Error::UnableToDetermineServerPort(target) => ErrorView::UnableToDetermineServerPort(
                target@,
            ),
            Error::UnableToGetPeerAddress(source) => ErrorView::UnableToGetPeerAddress(source),
            Error::UnableToReceive(source) => ErrorView::UnableToReceive(source),
            Error::UnableToSend(source) => ErrorView::UnableToSend(source),
        }
    }
}

impl ErrorView {
    /// The text that describes the error to a person.
    pub open spec fn message(self) -> Seq<char> {
        match self {
            ErrorView::BadRequest => "unable to generate HTTP request"@,
            ErrorView::BadResponse => "unable to parse HTTP response"@,
            ErrorView::Disconnected => "disconnected from server"@,
            ErrorView::HostNotValidText(_) => "unable to parse target URI host as text"@,
            ErrorView::NoTargetAuthority(_) => "no authority provided in target URI"@,
            ErrorView::TlsHandshake(_) => "error performing TLS handshake with server"@,
            ErrorView::UnableToConnect(_) => "unable to connect to server host/port"@,
            ErrorView::UnableToDetermineServerPort(_) =>
                "unable to determine target server port from URI"@,
            ErrorView::UnableToGetPeerAddress(_) => "unable to get peer address from connection"@,
            ErrorView::UnableToReceive(_) => "unable to receive response from server"@,
            ErrorView::UnableToSend(_) => "unable to send request to server"@,
        }
    }
}

impl Error {
    /// Describe the error to a person.
    pub fn message(&self) -> (text: &'static str)
        ensures
            text@ == self@.message(),
    {
        match self {
            Error::BadRequest(_) => "unable to generate HTTP request",
            Error::BadResponse(_) => "unable to parse HTTP response",
            Error::Disconnected => "disconnected from server",
            Error::HostNotValidText(_) => "unable to parse target URI host as text",
            Error::NoTargetAuthority(_) => "no authority provided in target URI",
            Error::TlsHandshake(_) => "error performing TLS handshake with server",
            Error::UnableToConnect(_) => "unable to connect to server host/port",
            Error::UnableToDetermineServerPort(_) => {
                "unable to determine target server port from URI"
            },
            Error::UnableToGetPeerAddress(_) => "unable to get peer address from connection",
            Error::UnableToReceive(_) => "unable to receive response from server",
            Error::UnableToSend(_) => "unable to send request to server",
        }
    }
}

} // verus!
