//! What the stress client sends at a proxy: the mode it runs in and the
//! requests of each mode.

use vstd::prelude::*;
use crate::bytes::{
    before, contains, contains_bytes, copy_of, has_prefix, push_all, same_bytes, split_once,
    starts_with, text, text_bytes,
};

verus! {

/// What each connection of the stress client does.
#[derive(Clone, Copy, Debug, PartialEq, Eq, Structural)]
pub enum Mode {
    /// Sends a `GET` with an absolute target.
    Http,
    /// Sends a `CONNECT` and closes.
    Connect,
    /// Opens the connection and sends nothing.
    Idle,
}

/// The mode that a word names: `connect` and `idle` name themselves, and
/// every other word names `http`.
pub open spec fn mode_of(word: Seq<u8>) -> Mode {
    if word == text("connect") {
        Mode::Connect
    } else if word == text("idle") {
        Mode::Idle
    } else {
        Mode::Http
    }
}

/// Reads the mode that `s` names.
pub fn parse_mode(s: &str) -> (m: Mode)
    ensures
        m == mode_of(text(s)),
{
    let word = text_bytes(s);
    if same_bytes(word, text_bytes("connect")) {
        Mode::Connect
    } else if same_bytes(word, text_bytes("idle")) {
        Mode::Idle
    } else {
        Mode::Http
    }
}

/// The host of an absolute `http://` target: what stands between the
/// scheme and the next slash. Any other target has none.
pub open spec fn host_of(uri: Seq<u8>) -> Seq<u8> {
    if has_prefix(uri, text("http://")) {
        before(uri.skip(text("http://").len() as int), 47)
    } else {
        Seq::empty()
    }
}

/// The request of the `http` mode for the target `uri`.
pub open spec fn http_request_of(uri: Seq<u8>) -> Seq<u8> {
    text("GET ") + uri + text(" HTTP/1.1\r\nHost: ") + host_of(uri) + text(
        "\r\nConnection: close\r\n\r\n",
    )
}

/// Writes the request of the `http` mode.
pub fn http_request(uri: &[u8]) -> (out: Vec<u8>)
    ensures
        out@ == http_request_of(uri@),
{
    let scheme = text_bytes("http://");
    let mut out = copy_of(text_bytes("GET "));
    push_all(&mut out, uri);
    push_all(&mut out, text_bytes(" HTTP/1.1\r\nHost: "));
    if starts_with(uri, scheme) {
        let n = uri.len();
        let rest = vstd::slice::slice_subrange(uri, scheme.len(), n);
        assert(rest@ =~= uri@.skip(text("http://").len() as int));
        match split_once(rest, 47) {
            Some((host, _)) => push_all(&mut out, host),
            None => push_all(&mut out, rest),
        }
    } else {
        assert(out@ + Seq::<u8>::empty() =~= out@);
    }
    push_all(&mut out, text_bytes("\r\nConnection: close\r\n\r\n"));
    out
}

/// The request of the `connect` mode for the destination `authority`.
pub open spec fn connect_request_of(authority: Seq<u8>) -> Seq<u8> {
    text("CONNECT ") + authority + text(" HTTP/1.1\r\nHost: ") + authority + text(
        "\r\nConnection: close\r\n\r\n",
    )
}

/// Writes the request of the `connect` mode.
pub fn connect_request(authority: &[u8]) -> (out: Vec<u8>)
    ensures
        out@ == connect_request_of(authority@),
{
    let mut out = copy_of(text_bytes("CONNECT "));
    push_all(&mut out, authority);
    push_all(&mut out, text_bytes(" HTTP/1.1\r\nHost: "));
    push_all(&mut out, authority);
    push_all(&mut out, text_bytes("\r\nConnection: close\r\n\r\n"));
    out
}

/// The destination of the `connect` mode: the payload if it names a port,
/// and `example.com:443` if it is empty or has no colon.
pub open spec fn connect_payload_of(payload: Seq<u8>) -> Seq<u8> {
    if contains(payload, seq![58u8]) {
        payload
    } else {
        text("example.com:443")
    }
}

/// Settles the destination of the `connect` mode.
pub fn connect_payload(payload: &[u8]) -> (out: Vec<u8>)
    ensures
        out@ == connect_payload_of(payload@),
{
    let colon: [u8; 1] = [58];
    assert(colon@ =~= seq![58u8]);
    if contains_bytes(payload, colon.as_slice()) {
        copy_of(payload)
    } else {
        copy_of(text_bytes("example.com:443"))
    }
}

} // verus!
