//! Raising the limit on open files, so that every admitted connection can
//! have its two sockets.

use vstd::prelude::*;
use nix::errno::Errno;
use nix::sys::resource::{getrlimit, setrlimit, Resource};
use crate::bytes::{copy_of, decimal, push_all, push_decimal, text, text_bytes};
use crate::logger::Level;

verus! {

/// `nix::errno::Errno`: the error number of a failed system call. Nothing
/// is said of its value.
#[verifier::external_type_specification]
#[verifier::external_body]
pub struct ExErrno(Errno);

/// `nix::sys::resource::getrlimit`, for the limit on open files: the soft
/// and the hard limit of this process, or the error of the system call. The
/// contract claims nothing of the result.
#[verifier::external_body]
fn nofile_limits() -> Result<(u64, u64), Errno> {
    match getrlimit(Resource::RLIMIT_NOFILE) {
        Ok((soft, hard)) => Ok((soft as u64, hard as u64)),
        Err(e) => Err(e),
    }
}

/// `nix::sys::resource::setrlimit`, for the limit on open files: asks the
/// system for these limits. The contract claims nothing of the result.
#[verifier::external_body]
fn set_nofile_limits(soft: u64, hard: u64) -> Result<(), Errno> {
    setrlimit(Resource::RLIMIT_NOFILE, soft as nix::sys::resource::rlim_t, hard as nix::sys::resource::rlim_t)
}

/// The number of descriptors that `connections` connections at a time
/// need: two sockets each.
pub fn descriptors_needed(connections: usize) -> (n: u64)
    ensures
        n == if connections * 2 <= u64::MAX {
            (connections * 2) as u64
        } else {
            u64::MAX
        },
{
    let c = connections as u64;
    if c <= u64::MAX / 2 {
        c * 2
    } else {
        u64::MAX
    }
}

/// The limits to ask for where the present ones are `soft` and `hard` and
/// at least `min_soft` is wanted: the soft limit is raised to `min_soft`
/// where it lies below, and the hard limit to the soft one where it
/// lies below that. Nothing is ever lowered.
pub open spec fn raised(soft: u64, hard: u64, min_soft: u64) -> (u64, u64) {
    let s = if soft < min_soft {
        min_soft
    } else {
        soft
    };
    (s, if hard < s {
        s
    } else {
        hard
    })
}

/// The limits to ask for, given the present ones and the soft limit wanted.
pub fn raised_limits(soft: u64, hard: u64, min_soft: u64) -> (r: (u64, u64))
    ensures
        r == raised(soft, hard, min_soft),
        r.0 >= soft,
        r.0 >= min_soft,
        r.1 >= hard,
        r.1 >= r.0,
{
    let s = if soft < min_soft {
        min_soft
    } else {
        soft
    };
    let h = if hard < s {
        s
    } else {
        hard
    };
    (s, h)
}

/// How an attempt to raise the limit went.
#[derive(Clone, Copy, Debug, PartialEq, Eq, Structural)]
pub enum NofileOutcome {
    /// The present limits could not be read.
    Unknown,
    /// The system refused the new limits; these are the old ones.
    Refused { soft: u64, hard: u64 },
    /// The system took the new limits; these are the limits as read
    /// afterwards (both zero where they could not be read).
    Raised { soft: u64, hard: u64 },
}

/// The outcome of an attempt, from what the system answered: `read` are
/// the limits as first read (`None` where they could not be read), `set_ok`
/// says whether the system took the raised limits, and `reread` are the
/// limits as read after that (`None` where they could not be read).
pub open spec fn outcome_of(
    read: Option<(u64, u64)>,
    set_ok: bool,
    reread: Option<(u64, u64)>,
) -> NofileOutcome {
    match read {
        None => NofileOutcome::Unknown,
        Some((soft, hard)) => if !set_ok {
            NofileOutcome::Refused { soft, hard }
        } else {
            match reread {
                Some((soft, hard)) => NofileOutcome::Raised { soft, hard },
                None => NofileOutcome::Raised { soft: 0, hard: 0 },
            }
        },
    }
}

/// Settles the outcome of an attempt from what the system answered.
pub fn nofile_outcome(read: Option<(u64, u64)>, set_ok: bool, reread: Option<(u64, u64)>) -> (o:
    NofileOutcome)
    ensures
        o == outcome_of(read, set_ok, reread),
{
    match read {
        None => NofileOutcome::Unknown,
        Some((soft, hard)) => if !set_ok {
            NofileOutcome::Refused { soft, hard }
        } else {
            match reread {
                Some((soft, hard)) => NofileOutcome::Raised { soft, hard },
                None => NofileOutcome::Raised { soft: 0, hard: 0 },
            }
        },
    }
}

/// An attempt to raise the limit: the limits that the system was asked for
/// (none, where the present ones could not be read), and how it went.
#[derive(Clone, Copy, Debug, PartialEq, Eq)]
pub struct NofileAttempt {
    pub asked: Option<(u64, u64)>,
    pub outcome: NofileOutcome,
}

/// The attempt for at least `min_soft`, from what the system answered: the
/// limits asked for are the ones read, raised as far as `min_soft` needs.
pub open spec fn attempt_of(
    min_soft: u64,
    read: Option<(u64, u64)>,
    set_ok: bool,
    reread: Option<(u64, u64)>,
) -> NofileAttempt {
    NofileAttempt {
        asked: match read {
            Some((soft, hard)) => Some(raised(soft, hard, min_soft)),
            None => None,
        },
        outcome: outcome_of(read, set_ok, reread),
    }
}

/// Tries to raise the limit on open files to at least `min_soft`. This is
/// done on a best effort: the outcome is to be logged, and the proxy
/// starts whatever it is. What the system answers is not known here; the
/// attempt is what `attempt_of` makes of its answers. So the system is asked
/// for nothing where the present limits cannot be read, and else for a soft
/// limit of at least `min_soft` under a hard limit that is no lower; and
/// where it refuses, the limits reported are the ones it was asked to raise.
pub fn try_raise_nofile_limit(min_soft: u64) -> (a: NofileAttempt)
    ensures
        exists|read: Option<(u64, u64)>, set_ok: bool, reread: Option<(u64, u64)>|
            a == #[trigger] attempt_of(min_soft, read, set_ok, reread),
        a.outcome is Unknown <==> a.asked is None,
        match a.asked {
            Some(req) => req.0 >= min_soft && req.1 >= req.0,
            None => true,
        },
        match a.outcome {
            NofileOutcome::Refused { soft, hard } => a.asked == Some(raised(soft, hard, min_soft)),
            _ => true,
        },
{
    let read = match nofile_limits() {
        Ok(limits) => Some(limits),
        Err(_) => None,
    };
    match read {
        None => {
            let a = NofileAttempt { asked: None, outcome: nofile_outcome(None, false, None) };
            assert(a == attempt_of(min_soft, None, false, None));
            a
        },
        Some((soft, hard)) => {
            let asked = raised_limits(soft, hard, min_soft);
            let (set_ok, reread) = match set_nofile_limits(asked.0, asked.1) {
                Err(_) => (false, None),
                Ok(()) => match nofile_limits() {
                    Ok(limits) => (true, Some(limits)),
                    Err(_) => (true, None),
                },
            };
            let a = NofileAttempt {
                asked: Some(asked),
                outcome: nofile_outcome(read, set_ok, reread),
            };
            assert(a == attempt_of(min_soft, read, set_ok, reread));
            a
        },
    }
}

/// The level at which an outcome is logged.
pub open spec fn report_level(outcome: NofileOutcome) -> Level {
    if outcome is Unknown {
        Level::Error
    } else {
        Level::Log
    }
}

/// The message that reports an outcome.
pub open spec fn report_text(outcome: NofileOutcome) -> Seq<u8> {
    match outcome {
        NofileOutcome::Unknown => text("getrlimit(RLIMIT_NOFILE) failed"),
        NofileOutcome::Refused { soft, hard } => text(
            "NOFILE raise attempt failed; current soft=",
        ) + decimal(soft as nat) + text(", hard=") + decimal(hard as nat),
        NofileOutcome::Raised { soft, hard } => text("NOFILE limit: soft=") + decimal(soft as nat)
            + text(" hard=") + decimal(hard as nat),
    }
}

/// The log line for an outcome: its level and its message.
pub fn nofile_report(outcome: NofileOutcome) -> (r: (Level, Vec<u8>))
    ensures
        r.0 == report_level(outcome),
        r.1@ == report_text(outcome),
{
    match outcome {
        NofileOutcome::Unknown => (
            Level::Error,
            copy_of(text_bytes("getrlimit(RLIMIT_NOFILE) failed")),
        ),
        NofileOutcome::Refused { soft, hard } => {
            let mut out = copy_of(text_bytes("NOFILE raise attempt failed; current soft="));
            push_decimal(&mut out, soft);
            push_all(&mut out, text_bytes(", hard="));
            push_decimal(&mut out, hard);
            (Level::Log, out)
        },
        NofileOutcome::Raised { soft, hard } => {
            let mut out = copy_of(text_bytes("NOFILE limit: soft="));
            push_decimal(&mut out, soft);
            push_all(&mut out, text_bytes(" hard="));
            push_decimal(&mut out, hard);
            (Level::Log, out)
        },
    }
}

} // verus!
