//! The reasons for which the proxy gives a connection up.

use vstd::prelude::*;

verus! {

/// Why a connection, or the attempt to serve it, ended.
#[derive(Clone, Copy, Debug, PartialEq, Eq, Structural)]
pub enum ProxyError {
    /// The peer closed the stream before the blank line that ends the headers.
    ClientClosedBeforeHeaders,
    /// No blank line within the first 65,536 bytes.
    HeadersTooLarge,
    /// The buffer handed over holds no blank line.
    BadHeaders,
    /// The request line has fewer than three fields.
    BadRequestLine,
    /// The request target is neither `http://...` nor origin form.
    UnsupportedUri,
    /// The greeting does not start with version 5.
    InvalidGreetingVersion,
    /// Credentials are required and the client did not offer method 2.
    AuthMethodNotOffered,
    /// The subnegotiation does not start with version 1.
    InvalidAuthVersion,
    /// User name or password differ from the configured ones.
    InvalidCredentials,
    /// The request does not start with version 5.
    InvalidRequestVersion,
    /// The address type is none of 1, 3, 4.
    UnsupportedAtyp,
    /// The command is UDP ASSOCIATE.
    UdpAssocNotSupported,
    /// The command is neither CONNECT nor UDP ASSOCIATE.
    UnsupportedCmd,
    /// The peer sent nothing within the handshake read timeout.
    ReadTimeout,
    /// The relay ran longer than a session may.
    SessionTimeout,
    /// Name resolution gave no address.
    NoAddress,
    /// The interface name maps to index zero.
    InvalidIface,
    /// Binding an IPv4 socket to the interface was refused.
    BindV4Failed,
    /// Binding an IPv6 socket to the interface was refused.
    BindV6Failed,
    /// This platform has no way to bind a socket to an interface.
    BindUnsupported,
}

impl ProxyError {
    /// The text of the error, as it is logged.
    pub open spec fn text(self) -> Seq<char> {
        match self {
            ProxyError::ClientClosedBeforeHeaders => "client closed before headers"@,
            ProxyError::HeadersTooLarge => "headers too large"@,
            ProxyError::BadHeaders => "bad headers"@,
            ProxyError::BadRequestLine => "bad request line"@,
            ProxyError::UnsupportedUri => "unsupported URI for HTTP proxy"@,
            ProxyError::InvalidGreetingVersion => "Invalid SOCKS5 version in greeting"@,
            ProxyError::AuthMethodNotOffered => "client doesn't support username/password auth"@,
            ProxyError::InvalidAuthVersion => "invalid auth subnegotiation version"@,
            ProxyError::InvalidCredentials => "invalid username/password"@,
            ProxyError::InvalidRequestVersion => "Invalid SOCKS5 version in request"@,
            ProxyError::UnsupportedAtyp => "Unsupported ATYP"@,
            ProxyError::UdpAssocNotSupported => "UDP ASSOC not supported"@,
            ProxyError::UnsupportedCmd => "Unsupported CMD"@,
            ProxyError::ReadTimeout => "read timeout"@,
            ProxyError::SessionTimeout => "session timeout"@,
            ProxyError::NoAddress => "no address"@,
            ProxyError::InvalidIface => "Invalid iface"@,
            ProxyError::BindV4Failed => "setsockopt(IP_BOUND_IF) failed"@,
            ProxyError::BindV6Failed => "setsockopt(IPV6_BOUND_IF) failed"@,
            ProxyError::BindUnsupported => "binding to an interface is not supported on this platform"@,
        }
    }

    pub fn message(&self) -> (m: &'static str)
        ensures
            m@ == self.text(),
    {
        match self {
            ProxyError::ClientClosedBeforeHeaders => "client closed before headers",
            ProxyError::HeadersTooLarge => "headers too large",
            ProxyError::BadHeaders => "bad headers",
            ProxyError::BadRequestLine => "bad request line",
            ProxyError::UnsupportedUri => "unsupported URI for HTTP proxy",
            ProxyError::InvalidGreetingVersion => "Invalid SOCKS5 version in greeting",
            ProxyError::AuthMethodNotOffered => "client doesn't support username/password auth",
            ProxyError::InvalidAuthVersion => "invalid auth subnegotiation version",
            ProxyError::InvalidCredentials => "invalid username/password",
            ProxyError::InvalidRequestVersion => "Invalid SOCKS5 version in request",
            ProxyError::UnsupportedAtyp => "Unsupported ATYP",
            ProxyError::UdpAssocNotSupported => "UDP ASSOC not supported",
            ProxyError::UnsupportedCmd => "Unsupported CMD",
            ProxyError::ReadTimeout => "read timeout",
            ProxyError::SessionTimeout => "session timeout",
            ProxyError::NoAddress => "no address",
            ProxyError::InvalidIface => "Invalid iface",
            ProxyError::BindV4Failed => "setsockopt(IP_BOUND_IF) failed",
            ProxyError::BindV6Failed => "setsockopt(IPV6_BOUND_IF) failed",
            ProxyError::BindUnsupported => "binding to an interface is not supported on this platform",
        }
    }
}

} // verus!
