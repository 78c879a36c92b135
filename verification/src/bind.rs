//! Binding a socket to a named interface: which socket option does it on
//! which platform, with which value, and what its failure means. The calls
//! themselves are made by the program, on a fresh socket, before `connect`.

use vstd::prelude::*;
use crate::bytes::copy_of;
use crate::error::ProxyError;

verus! {

/// The address family of a socket.
#[derive(Clone, Copy, Debug, PartialEq, Eq, Structural)]
pub enum Family {
    V4,
    V6,
}

/// The kinds of operating system, as far as binding to an interface goes.
#[derive(Clone, Copy, Debug, PartialEq, Eq, Structural)]
pub enum Platform {
    /// macOS and its relatives: a socket is bound to an interface index.
    Darwin,
    /// Linux and Android: a socket is bound to a device name.
    Linux,
    /// Anything else: no binding.
    Other,
}

/// A socket option that binds a socket to an interface.
#[derive(Debug, PartialEq, Eq)]
pub enum BindOption {
    /// Level `IPPROTO_IP`, option `IP_BOUND_IF`, with the interface index as
    /// a 32-bit integer.
    BoundIfV4 { index: u32 },
    /// Level `IPPROTO_IPV6`, option `IPV6_BOUND_IF`, with the interface
    /// index as a 32-bit integer.
    BoundIfV6 { index: u32 },
    /// Level `SOL_SOCKET`, option `SO_BINDTODEVICE`, with the bytes of the
    /// interface name.
    BindToDevice { name: Vec<u8> },
}

/// The mathematical value of a `BindOption`.
pub ghost enum BindOptionView {
    BoundIfV4 { index: u32 },
    BoundIfV6 { index: u32 },
    BindToDevice { name: Seq<u8> },
}

impl View for BindOption {
    type V = BindOptionView;

    open spec fn view(&self) -> BindOptionView {
        match self {
            BindOption::BoundIfV4 { index } => BindOptionView::BoundIfV4 { index: *index },
            BindOption::BoundIfV6 { index } => BindOptionView::BoundIfV6 { index: *index },
            BindOption::BindToDevice { name } => BindOptionView::BindToDevice { name: name@ },
        }
    }
}

/// The platform binds by interface index, so the index of the name has to
/// be looked up first.
pub open spec fn binds_by_index(platform: Platform) -> bool {
    platform == Platform::Darwin
}

/// Whether the index of the interface has to be looked up before binding.
pub fn needs_index(platform: Platform) -> (b: bool)
    ensures
        b == binds_by_index(platform),
{
    match platform {
        Platform::Darwin => true,
        _ => false,
    }
}

/// Checks what the lookup of an interface name returned: index zero means
/// that there is no such interface.
pub fn iface_index(looked_up: u32) -> (r: Result<u32, ProxyError>)
    ensures
        looked_up == 0 ==> r == Err::<u32, ProxyError>(ProxyError::InvalidIface),
        looked_up != 0 ==> r == Ok::<u32, ProxyError>(looked_up),
{
    if looked_up == 0 {
        Err(ProxyError::InvalidIface)
    } else {
        Ok(looked_up)
    }
}

/// The option that binds a socket of `family` to the interface `iface`,
/// whose index is `index` (read only where the platform binds by index).
pub open spec fn bind_plan(platform: Platform, family: Family, iface: Seq<u8>, index: u32) -> Result<
    BindOptionView,
    ProxyError,
> {
    match platform {
        Platform::Darwin => if index == 0 {
            Err(ProxyError::InvalidIface)
        } else {
            match family {
                Family::V4 => Ok(BindOptionView::BoundIfV4 { index }),
                Family::V6 => Ok(BindOptionView::BoundIfV6 { index }),
            }
        },
        Platform::Linux => Ok(BindOptionView::BindToDevice { name: iface }),
        Platform::Other => Err(ProxyError::BindUnsupported),
    }
}

fn bind_iface(platform: Platform, family: Family, iface: &[u8], index: u32) -> (r: Result<
    BindOption,
    ProxyError,
>)
    ensures
        match r {
            Ok(opt) => bind_plan(platform, family, iface@, index) == Ok::<
                BindOptionView,
                ProxyError,
            >(opt@),
            Err(e) => bind_plan(platform, family, iface@, index) == Err::<
                BindOptionView,
                ProxyError,
            >(e),
        },
{
    match platform {
        Platform::Darwin => match iface_index(index) {
            Err(e) => Err(e),
            Ok(index) => match family {
                Family::V4 => Ok(BindOption::BoundIfV4 { index }),
                Family::V6 => Ok(BindOption::BoundIfV6 { index }),
            },
        },
        Platform::Linux => Ok(BindOption::BindToDevice { name: copy_of(iface) }),
        Platform::Other => Err(ProxyError::BindUnsupported),
    }
}

/// The option that binds an IPv4 socket to `iface`. On a platform without
/// such an option this fails: a socket that is not bound must not be used.
pub fn bind_iface_v4(platform: Platform, iface: &[u8], index: u32) -> (r: Result<
    BindOption,
    ProxyError,
>)
    ensures
        match r {
            Ok(opt) => bind_plan(platform, Family::V4, iface@, index) == Ok::<
                BindOptionView,
                ProxyError,
            >(opt@),
            Err(e) => bind_plan(platform, Family::V4, iface@, index) == Err::<
                BindOptionView,
                ProxyError,
            >(e),
        },
{
    bind_iface(platform, Family::V4, iface, index)
}

/// The option that binds an IPv6 socket to `iface`.
pub fn bind_iface_v6(platform: Platform, iface: &[u8], index: u32) -> (r: Result<
    BindOption,
    ProxyError,
>)
    ensures
        match r {
            Ok(opt) => bind_plan(platform, Family::V6, iface@, index) == Ok::<
                BindOptionView,
                ProxyError,
            >(opt@),
            Err(e) => bind_plan(platform, Family::V6, iface@, index) == Err::<
                BindOptionView,
                ProxyError,
            >(e),
        },
{
    bind_iface(platform, Family::V6, iface, index)
}

/// Checks what setting the option returned: anything but zero is a failure.
pub fn bind_outcome(family: Family, returned: i32) -> (r: Result<(), ProxyError>)
    ensures
        returned == 0 ==> r is Ok,
        returned != 0 && family == Family::V4 ==> r == Err::<(), ProxyError>(
            ProxyError::BindV4Failed,
        ),
        returned != 0 && family == Family::V6 ==> r == Err::<(), ProxyError>(
            ProxyError::BindV6Failed,
        ),
{
    if returned == 0 {
        Ok(())
    } else {
        match family {
            Family::V4 => Err(ProxyError::BindV4Failed),
            Family::V6 => Err(ProxyError::BindV6Failed),
        }
    }
}

} // verus!
