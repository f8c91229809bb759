//! What a connection is for, and how connections are told apart.

use vstd::prelude::*;

verus! {

/// Tells the client how the underlying connection will be used, especially
/// after the currently requested resource has been fetched.
#[derive(Debug)]
pub enum ConnectionUse {
    /// Close the connection after retrieving the resource.  When this is used,
    /// the client adds the header "Connection: close" as specified in IETF RFC
    /// 7230 section 6.1.
    SingleResource,
    /// Keep the connection open in case the user wants to fetch another
    /// resource from the same server.
    MultipleResources,
    /// Attempt to upgrade the connection for use in a higher-level protocol.
    Upgrade {
        /// This is the value to set for the "Upgrade" header in the request.
        protocol: String,
    },
}

/// Identifies the server that a connection leads to, and how it leads there.
/// Connections with equal keys may stand in for each other.
#[derive(Clone, Debug, Eq, Hash, PartialEq)]
pub struct ConnectionKey {
    /// The name of the server.
    pub host: String,
    /// The port of the server.
    pub port: u16,
    /// Whether the connection is secured with Transport Layer Security.
    pub use_tls: bool,
}

/// What a [`ConnectionKey`] stands for.
pub struct KeyView {
    pub host: Seq<char>,
    pub port: u16,
    pub use_tls: bool,
}

impl View for ConnectionKey {
    type V = KeyView;

    open spec fn view(&self) -> KeyView {
        KeyView { host: self.host@, port: self.port, use_tls: self.use_tls }
    }
}

impl ConnectionKey {
    /// Make the key of connections to the given server.
    pub fn new(host: &str, port: u16, use_tls: bool) -> (key: ConnectionKey)
        ensures
            key@ == (KeyView { host: host@, port, use_tls }),
    {
        ConnectionKey { host: host.to_owned(), port, use_tls }
    }
}

} // verus!
