//! Where a connection is headed.

use vstd::prelude::*;

verus! {

/// The host part of a destination. A name is kept as the client wrote it:
/// resolving it is the dialer's business.
#[derive(Clone, Debug, PartialEq, Eq)]
pub enum Host {
    /// An IPv4 address, in network order.
    V4([u8; 4]),
    /// An IPv6 address, in network order.
    V6([u8; 16]),
    /// A domain name or an address in text form.
    Name(Vec<u8>),
}

/// The mathematical value of a `Host`.
pub ghost enum HostView {
    V4(Seq<u8>),
    V6(Seq<u8>),
    Name(Seq<u8>),
}

impl View for Host {
    type V = HostView;

    open spec fn view(&self) -> HostView {
        match self {
            Host::V4(a) => HostView::V4(a@),
            Host::V6(a) => HostView::V6(a@),
            Host::Name(n) => HostView::Name(n@),
        }
    }
}

/// A destination: host and port.
#[derive(Clone, Debug, PartialEq, Eq)]
pub struct Target {
    pub host: Host,
    pub port: u16,
}

/// The mathematical value of a `Target`.
pub ghost struct TargetView {
    pub host: HostView,
    pub port: u16,
}

impl View for Target {
    type V = TargetView;

    open spec fn view(&self) -> TargetView {
        TargetView { host: self.host@, port: self.port }
    }
}

impl Target {
    /// The destination with the name `name` and the port `port`.
    pub fn named(name: Vec<u8>, port: u16) -> (t: Target)
        ensures
            t@ == (TargetView { host: HostView::Name(name@), port }),
    {
        Target { host: Host::Name(name), port }
    }
}

} // verus!
