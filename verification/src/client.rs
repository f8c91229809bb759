//! The client.

use crate::connection::{ConnectionKey, ConnectionUse};
use crate::error::{Error, ErrorView};
use crate::fetch::{Job, JobView, Recycling, State};
use crate::headers::{has_usable_limit, is_usable_limit};
use crate::request::{generate, preparation, Request, RequestView};
use rhymuweb::Error as MessageError;
use vstd::prelude::*;

verus! {

/// This type is used to fetch resources from web servers using the Hypertext
/// Transfer Protocol (HTTP) 1.1.  `T` is the type of the configuration for
/// Transport Layer Security (TLS).
#[must_use]
#[derive(Debug)]
pub struct HttpClient<T> {
    tls_config: Option<T>,
}

/// How a fetch begins: with the error that keeps the request from being sent,
/// or with looking for a connection to send the request over.
pub open spec fn beginning(request: RequestView, connection_use: ConnectionUse) -> Result<
    State,
    ErrorView,
> {
    match preparation(request, connection_use) {
        Ok(prepared) => match prepared.request.bytes() {
            Some(raw_request) => Ok(
                State::Recycling(JobView { key: prepared.key, raw_request, connection_use }),
            ),
            None => Err(ErrorView::BadRequest),
        },
        Err(error) => Err(error),
    }
}

impl<T> HttpClient<T> {
    /// The configuration that the client was given.
    pub closed spec fn config(self) -> Option<T> {
        self.tls_config
    }

    /// Return a new HTTP client which can send requests to web servers and
    /// obtain back responses.  The client will use a default configuration
    /// if it needs to connect using TLS.
    pub fn new() -> (client: Self)
        ensures
            client.config() is None,
    {
        HttpClient { tls_config: None }
    }

    /// Return a new HTTP client which can send requests to web servers and
    /// obtain back responses.  The client will use the given configuration if
    /// it needs to connect using TLS.
    pub fn from_tls_config(tls_config: T) -> (client: Self)
        ensures
            client.config() == Some(tls_config),
    {
        HttpClient { tls_config: Some(tls_config) }
    }

    /// The configuration to use when connecting using TLS, or nothing if that
    /// is the default one.
    pub fn tls_config(&self) -> (tls_config: Option<&T>)
        ensures
            match self.config() {
                Some(config) => tls_config == Some(&config),
                None => tls_config is None,
            },
    {
        self.tls_config.as_ref()
    }

    /// Begin to fetch, once the request was written, or could not be.
    pub fn begin(
        key: ConnectionKey,
        raw_request: Result<Vec<u8>, MessageError>,
        connection_use: ConnectionUse,
    ) -> (res: Result<Recycling, Error>)
        ensures
            match raw_request {
                Ok(raw_request) => {
                    &&& res is Ok
                    &&& res->Ok_0@ == State::Recycling(
                        JobView { key: key@, raw_request: raw_request@, connection_use },
                    )
                },
                Err(source) => res == Err::<Recycling, Error>(Error::BadRequest(source)),
            },
    {
        match raw_request {
            Ok(raw_request) => Ok(Recycling::new(Job { key, raw_request, connection_use })),
            Err(source) => Err(Error::BadRequest(source)),
        }
    }

    /// Begin to fetch the resource that is the target of the given request
    /// from the server identified in the request.  Make sure to fill the
    /// request with the correct URI of the resource requested, and provide any
    /// necessary headers (other than `Host`, `Connection`, and
    /// `Content-Length`, which are set automatically by the client).
    ///
    /// # Errors
    ///
    /// * [`Error::NoTargetAuthority`]: no authority was included in the target
    ///   URI in the request.
    /// * [`Error::UnableToDetermineServerPort`]: no port number was included
    ///   in the authority of the target URI, and no default port number could
    ///   be determined from the target URI scheme.
    /// * [`Error::HostNotValidText`]: the host name in authority of the target
    ///   URI contains bytes which could not be parsed as valid text.
    /// * [`Error::BadRequest`]: the HTTP request could not be encoded as a
    ///   byte stream to be sent to the web server.
    ///
    /// The limit that the headers of the request have on the length of a line,
    /// if there is one, has to leave room for the line terminator.
    pub fn fetch(&self, request: Request, connection_use: ConnectionUse) -> (res: Result<
        Recycling,
        Error,
    >)
        requires
            preparation(request@, connection_use) is Ok ==> is_usable_limit(request@.line_limit),
        ensures
            match beginning(request@, connection_use) {
                Ok(state) => res is Ok && res->Ok_0@ == state,
                Err(error) => res is Err && res->Err_0@ == error,
            },
    {
        match request.prepare(&connection_use) {
            Ok(prepared) => Self::begin(
                prepared.key,
                generate(prepared.request),
                connection_use,
            ),
            Err(error) => Err(error),
        }
    }

    /// Begin to fetch, as [`fetch`](Self::fetch) does.  There is no result
    /// where the request could be sent but for a limit on the length of a
    /// header line that leaves no room for the line terminator.
    pub fn try_fetch(&self, request: Request, connection_use: ConnectionUse) -> (res: Option<
        Result<Recycling, Error>,
    >)
        ensures
            res is None <==> preparation(request@, connection_use) is Ok && !is_usable_limit(
                request@.line_limit,
            ),
            res matches Some(res) ==> match beginning(request@, connection_use) {
                Ok(state) => res is Ok && res->Ok_0@ == state,
                Err(error) => res is Err && res->Err_0@ == error,
            },
    {
        match request.prepare(&connection_use) {
            Ok(prepared) => {
                if has_usable_limit(&prepared.request.headers) {
                    Some(Self::begin(prepared.key, generate(prepared.request), connection_use))
                } else {
                    None
                }
            },
            Err(error) => Some(Err(error)),
        }
    }
}

impl<T> Default for HttpClient<T> {
    fn default() -> (client: Self)
        ensures
            client.config() is None,
    {
        Self::new()
    }
}

} // verus!
