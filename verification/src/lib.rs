//! The logic of a forward proxy that sends all outbound traffic through one
//! named network interface: the HTTP/1.x and SOCKS5 front-ends, the dialer's
//! failover, the listener's admission and backoff rules, and the throttled
//! logger. Everything here works on plain values; sockets and tasks belong
//! to the program around it.

pub mod bind;
pub mod bytes;
pub mod clock;
pub mod dialer;
pub mod error;
pub mod http;
pub mod http_lemmas;
pub mod limits;
pub mod listener;
pub mod logger;
pub mod relay;
pub mod shared;
pub mod socks5;
pub mod stress;
pub mod target;
pub mod transient;
