//! The parts of a Uniform Resource Identifier, and what a user agent learns
//! from them about the server to contact.

use crate::text::same_text;
use vstd::prelude::*;

verus! {

/// The authority part of a URI: who serves the resource.
#[derive(Debug)]
pub struct Authority {
    /// The user information, if any, with percent encoding removed.
    pub userinfo: Option<Vec<u8>>,
    /// The host, with percent encoding removed.
    pub host: Vec<u8>,
    /// The port number, if the authority gives one.
    pub port: Option<u16>,
}

/// A URI, split into its parts, with percent encoding removed.
#[derive(Debug)]
pub struct Uri {
    /// The scheme, such as `http`, if the URI has one.
    pub scheme: Option<String>,
    /// The authority, if the URI has one.
    pub authority: Option<Authority>,
    /// The segments of the path.  An absolute path starts with an empty
    /// segment.
    pub path: Vec<Vec<u8>>,
    /// The query, if the URI has one.
    pub query: Option<Vec<u8>>,
    /// The fragment, if the URI has one.
    pub fragment: Option<Vec<u8>>,
}

/// What an [`Authority`] stands for.
pub struct AuthorityView {
    pub userinfo: Option<Seq<u8>>,
    pub host: Seq<u8>,
    pub port: Option<u16>,
}

/// What a [`Uri`] stands for.
pub struct UriView {
    pub scheme: Option<Seq<char>>,
    pub authority: Option<AuthorityView>,
    pub path: Seq<Seq<u8>>,
    pub query: Option<Seq<u8>>,
    pub fragment: Option<Seq<u8>>,
}

/// The bytes of a part that may be missing.
pub open spec fn bytes_of(part: Option<Vec<u8>>) -> Option<Seq<u8>> {
    match part {
        Some(bytes) => Some(bytes@),
        None => None,
    }
}

/// The text of a part that may be missing.
pub open spec fn text_of(part: Option<String>) -> Option<Seq<char>> {
    match part {
        Some(text) => Some(text@),
        None => None,
    }
}

impl View for Authority {
    type V = AuthorityView;

    open spec fn view(&self) -> AuthorityView {
        AuthorityView { userinfo: bytes_of(self.userinfo), host: self.host@, port: self.port }
    }
}

impl View for Uri {
    type V = UriView;

    open spec fn view(&self) -> UriView {
        UriView {
            scheme: text_of(self.scheme),
            authority: match self.authority {
                Some(authority) => Some(authority@),
                None => None,
            },
            path: self.path@.map_values(|segment: Vec<u8>| segment@),
            query: bytes_of(self.query),
            fragment: bytes_of(self.fragment),
        }
    }
}

impl UriView {
    /// The URI without its scheme and authority.
    pub open spec fn without_server(self) -> UriView {
        UriView { scheme: None, authority: None, ..self }
    }
}

impl Uri {
    /// Take the authority out of the URI, leaving the URI without one.
    pub fn take_authority(&mut self) -> (authority: Option<Authority>)
        ensures
            authority == old(self).authority,
            final(self)@ == (UriView { authority: None, ..old(self)@ }),
    {
        self.authority.take()
    }

    /// Take the scheme out of the URI, leaving the URI without one.
    pub fn take_scheme(&mut self) -> (scheme: Option<String>)
        ensures
            scheme == old(self).scheme,
            final(self)@ == (UriView { scheme: None, ..old(self)@ }),
    {
        self.scheme.take()
    }
}

/// The port at which resources of a scheme are served unless the URI says
/// otherwise.
pub open spec fn standard_port(scheme: Option<Seq<char>>) -> Option<u16> {
    if scheme == Some("http"@) || scheme == Some("ws"@) {
        Some(80)
    } else if scheme == Some("https"@) || scheme == Some("wss"@) {
        Some(443)
    } else {
        None
    }
}

/// Whether a scheme asks for a connection secured with Transport Layer
/// Security.
pub open spec fn is_secure(scheme: Option<Seq<char>>) -> bool {
    scheme == Some("https"@) || scheme == Some("wss"@)
}

/// The port at which to contact the server: the one that the authority gives,
/// or else the standard one of the scheme.
pub open spec fn server_port(given: Option<u16>, scheme: Option<Seq<char>>) -> Option<u16> {
    match given {
        Some(port) => Some(port),
        None => standard_port(scheme),
    }
}

fn scheme_is(scheme: &Option<String>, name: &str) -> (res: bool)
    ensures
        res == (text_of(*scheme) == Some(name@)),
{
    match scheme {
        Some(scheme) => same_text(scheme.as_str(), name),
        None => false,
    }
}

/// Find the standard port of a scheme.
pub fn find_standard_port(scheme: &Option<String>) -> (port: Option<u16>)
    ensures
        port == standard_port(text_of(*scheme)),
{
    if scheme_is(scheme, "http") || scheme_is(scheme, "ws") {
        Some(80)
    } else if scheme_is(scheme, "https") || scheme_is(scheme, "wss") {
        Some(443)
    } else {
        None
    }
}

/// Find out whether a scheme asks for a secured connection.
pub fn asks_for_tls(scheme: &Option<String>) -> (res: bool)
    ensures
        res == is_secure(text_of(*scheme)),
{
    scheme_is(scheme, "https") || scheme_is(scheme, "wss")
}

/// Find the port at which to contact the server of a URI.
pub fn find_server_port(given: Option<u16>, scheme: &Option<String>) -> (port: Option<u16>)
    ensures
        port == server_port(given, text_of(*scheme)),
{
    match given {
        Some(port) => Some(port),
        None => find_standard_port(scheme),
    }
}

/// The secure schemes are those served at port 443, and every other known
/// scheme is served at port 80.
pub proof fn secure_schemes_are_served_at_443(scheme: Option<Seq<char>>)
    ensures
        is_secure(scheme) <==> standard_port(scheme) == Some(443u16),
        standard_port(scheme) is Some && !is_secure(scheme) ==> standard_port(scheme) == Some(
            80u16,
        ),
{
    reveal_strlit("http");
    reveal_strlit("ws");
    reveal_strlit("https");
    reveal_strlit("wss");
    assert("http"@.len() == 4 && "ws"@.len() == 2 && "https"@.len() == 5 && "wss"@.len() == 3);
}

} // verus!
