//! Telling the errors that merely end a relay from those worth an alarm.
//!
//! A relay ends when a peer goes away, and a peer goes away in many ways:
//! a broken pipe, a reset, an abort, a timeout, an early end of the stream.
//! Such an error is logged as information and counts as a normal end.

use vstd::prelude::*;
use vstd::string::StringSliceAdditionalSpecFns;
use std::fmt::Write;
use std::io::ErrorKind;
use crate::bytes::{contains, contains_bytes, text, text_bytes};
use crate::logger::Level;

verus! {

/// `anyhow::Error`: an error of any type, with its chain of causes. Nothing
/// is said of what it holds.
#[verifier::external_type_specification]
#[verifier::external_body]
pub struct ExAnyhowError(anyhow::Error);

/// `std::io::Error`: an error of an I/O operation. Nothing is said of what
/// it holds.
#[verifier::external_type_specification]
#[verifier::external_body]
pub struct ExIoError(std::io::Error);

/// The kinds of I/O error that this library tells apart.
#[derive(Clone, Copy, Debug, PartialEq, Eq, Structural)]
pub enum IoKind {
    BrokenPipe,
    ConnectionReset,
    ConnectionAborted,
    TimedOut,
    UnexpectedEof,
    ConnectionRefused,
    NotFound,
    PermissionDenied,
    WouldBlock,
    Interrupted,
    /// Any other kind.
    Other,
}

/// The I/O error that an error holds, as `anyhow::Error::downcast_ref`
/// finds it.
pub uninterp spec fn io_error_in(err: anyhow::Error) -> Option<std::io::Error>;

/// The kind of an I/O error, as `std::io::Error::kind` gives it, among the
/// kinds told apart here.
pub uninterp spec fn kind_of(e: std::io::Error) -> IoKind;

/// The message of an error: its `Display` form.
pub uninterp spec fn message_of(err: anyhow::Error) -> Seq<char>;

/// `anyhow::Error::downcast_ref::<std::io::Error>`: the I/O error that
/// `err` holds, if it holds one. The contract gives the result its name and
/// claims nothing else.
#[verifier::external_body]
fn as_io_error(err: &anyhow::Error) -> (r: Option<&std::io::Error>)
    ensures
        match r {
            Some(e) => io_error_in(*err) == Some(*e),
            None => io_error_in(*err) is None,
        },
{
    err.downcast_ref::<std::io::Error>()
}

/// `std::io::Error::kind`: the kind of an I/O error, as one of the kinds
/// told apart here. The contract gives the result its name and claims
/// nothing else.
#[verifier::external_body]
fn io_kind(e: &std::io::Error) -> (k: IoKind)
    ensures
        k == kind_of(*e),
{
    match e.kind() {
        ErrorKind::BrokenPipe => IoKind::BrokenPipe,
        ErrorKind::ConnectionReset => IoKind::ConnectionReset,
        ErrorKind::ConnectionAborted => IoKind::ConnectionAborted,
        ErrorKind::TimedOut => IoKind::TimedOut,
        ErrorKind::UnexpectedEof => IoKind::UnexpectedEof,
        ErrorKind::ConnectionRefused => IoKind::ConnectionRefused,
        ErrorKind::NotFound => IoKind::NotFound,
        ErrorKind::PermissionDenied => IoKind::PermissionDenied,
        ErrorKind::WouldBlock => IoKind::WouldBlock,
        ErrorKind::Interrupted => IoKind::Interrupted,
        _ => IoKind::Other,
    }
}

/// The `Display` form of an `anyhow::Error`: the message of the outermost
/// error, written into a fresh string. The contract gives the text its
/// name, which is to say that it depends on the error alone, and claims
/// nothing else.
#[verifier::external_body]
fn error_text(err: &anyhow::Error) -> (r: String)
    ensures
        r@ == message_of(*err),
{
    let mut out = String::new();
    let _ = write!(out, "{}", err);
    out
}

/// The lower-case form of a text by Unicode's rules, as `str::to_lowercase`
/// computes it.
pub uninterp spec fn lowercase_of(s: Seq<char>) -> Seq<char>;

/// `str::to_lowercase`: the lower-case form of `s`. The contract gives the
/// result its name and claims nothing else.
#[verifier::external_body]
fn lowercase(s: &str) -> (r: String)
    ensures
        r@ == lowercase_of(s@),
{
    s.to_lowercase()
}

/// An I/O error of this kind merely ends a relay: a broken pipe, a reset
/// or aborted connection, a timeout, or an unexpected end of the stream.
pub open spec fn transient_kind(kind: IoKind) -> bool {
    ||| kind == IoKind::BrokenPipe
    ||| kind == IoKind::ConnectionReset
    ||| kind == IoKind::ConnectionAborted
    ||| kind == IoKind::TimedOut
    ||| kind == IoKind::UnexpectedEof
}

/// A message in lower case speaks of an error that merely ends a relay:
/// it names a broken pipe, a reset or aborted connection, a timeout or an
/// unexpected end of the stream.
pub open spec fn transient_text(lowered: Seq<u8>) -> bool {
    ||| contains(lowered, text("broken pipe"))
    ||| contains(lowered, text("connection reset"))
    ||| contains(lowered, text("timed out"))
    ||| contains(lowered, text("connection aborted"))
    ||| contains(lowered, text("unexpected eof"))
}

/// Whether an I/O error of this kind merely ends a relay.
pub fn is_transient_kind(kind: IoKind) -> (b: bool)
    ensures
        b == transient_kind(kind),
{
    match kind {
        IoKind::BrokenPipe => true,
        IoKind::ConnectionReset => true,
        IoKind::ConnectionAborted => true,
        IoKind::TimedOut => true,
        IoKind::UnexpectedEof => true,
        _ => false,
    }
}

/// Whether a message, already in lower case, speaks of a transient error.
pub fn is_transient_text(lowered: &[u8]) -> (b: bool)
    ensures
        b == transient_text(lowered@),
{
    contains_bytes(lowered, text_bytes("broken pipe")) || contains_bytes(
        lowered,
        text_bytes("connection reset"),
    ) || contains_bytes(lowered, text_bytes("timed out")) || contains_bytes(
        lowered,
        text_bytes("connection aborted"),
    ) || contains_bytes(lowered, text_bytes("unexpected eof"))
}

/// An error with this kind (where it is an I/O error) and this message is
/// transient: an I/O error by its kind alone, any other error by its
/// message, read without regard to case.
pub open spec fn transient(kind: Option<IoKind>, message: Seq<char>) -> bool {
    match kind {
        Some(k) => transient_kind(k),
        None => transient_text(vstd::utf8::encode_utf8(lowercase_of(message))),
    }
}

/// Whether an error is transient, from its kind (where it is an I/O error)
/// and its message.
pub fn is_transient(kind: Option<IoKind>, message: &str) -> (b: bool)
    ensures
        b == transient(kind, message@),
{
    match kind {
        Some(k) => is_transient_kind(k),
        None => {
            let lowered = lowercase(message);
            is_transient_text(lowered.as_str().as_bytes())
        },
    }
}

/// The error is transient: where it holds an I/O error, by the kind of
/// that, and else by its message.
pub open spec fn transient_error(err: anyhow::Error) -> bool {
    match io_error_in(err) {
        Some(e) => transient_kind(kind_of(e)),
        None => transient(None, message_of(err)),
    }
}

/// Whether `err` is transient: an error that holds an I/O error by the
/// kind of that, any other error by its message.
pub fn is_transient_anyhow_error(err: &anyhow::Error) -> (b: bool)
    ensures
        b == transient_error(*err),
{
    let kind = match as_io_error(err) {
        Some(e) => Some(io_kind(e)),
        None => None,
    };
    match kind {
        Some(k) => is_transient_kind(k),
        None => {
            let message = error_text(err);
            is_transient(None, message.as_str())
        },
    }
}

/// The level at which the error that ended a handler is logged: a
/// transient one as information, any other as an error.
pub fn level_for(transient: bool) -> (level: Level)
    ensures
        level == if transient {
            Level::Info
        } else {
            Level::Error
        },
{
    if transient {
        Level::Info
    } else {
        Level::Error
    }
}

} // verus!
