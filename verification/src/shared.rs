//! The rate window and the admission permits as the tasks of a process
//! share them: on atomics, without a lock.
//!
//! What a call finds in shared state depends on the calls that run beside
//! it, so nothing is promised of it. Each call reports what it found, and
//! its answer is the rule applied to that.

use vstd::prelude::*;
use std::sync::atomic::{AtomicU64, AtomicUsize, Ordering};
use crate::listener::{answer_of, doubled, Admission, Backoff, ListenerAction, BACKOFF_INITIAL_MS};
use crate::logger::{RateWindow, Throttle, LOGS_PER_SEC};

verus! {

/// What one call found in the shared rate window.
#[derive(Clone, Copy, Debug, PartialEq, Eq, Structural)]
pub struct Seen {
    /// The second that the window covered when the call came.
    pub window_second: u64,
    /// This call opened a new window: the second had changed, and of the
    /// calls that saw so this one was first to set the new second.
    pub opened: bool,
    /// The count of suppressed lines that this call took away on opening
    /// the window; 0 where it opened none.
    pub suppressed: u64,
    /// The count of lines asked for in the window before this one.
    pub count: u64,
}

impl Seen {
    /// What the rate limiter says of the line of a call that found this:
    /// the line is written if fewer than 50 were asked for before it, and
    /// the call that opened the window reports what it took away.
    pub open spec fn verdict(self) -> Throttle {
        Throttle {
            emit: self.count < LOGS_PER_SEC,
            suppressed_before: if self.opened {
                self.suppressed
            } else {
                0
            },
        }
    }

    /// What a call at second `now` finds in a window that holds `w`, when
    /// no other call runs beside it.
    pub open spec fn alone(w: RateWindow, now: u64) -> Seen {
        if now != w.window_second {
            Seen {
                window_second: w.window_second,
                opened: true,
                suppressed: w.suppressed_in_window,
                count: 0,
            }
        } else {
            Seen {
                window_second: w.window_second,
                opened: false,
                suppressed: 0,
                count: w.count_in_window,
            }
        }
    }
}

/// Applies the rate limiter's rule to what a call found.
pub fn verdict_on(seen: Seen) -> (t: Throttle)
    ensures
        t == seen.verdict(),
{
    Throttle {
        emit: seen.count < LOGS_PER_SEC,
        suppressed_before: if seen.opened {
            seen.suppressed
        } else {
            0
        },
    }
}

/// A call that runs alone is answered as `log_throttled` answers it.
pub proof fn lemma_alone_is_in_turn(w: RateWindow, now: u64)
    ensures
        Seen::alone(w, now).verdict() == w.verdict(now),
{
}

/// The rate window of a process: second, count of lines asked for, and
/// count of lines suppressed, each in an atomic of its own.
pub struct SharedWindow {
    pub window_second: AtomicU64,
    pub count_in_window: AtomicU64,
    pub suppressed_in_window: AtomicU64,
}

impl SharedWindow {
    /// A window before any line.
    pub fn new() -> SharedWindow {
        SharedWindow {
            window_second: AtomicU64::new(0),
            count_in_window: AtomicU64::new(0),
            suppressed_in_window: AtomicU64::new(0),
        }
    }

    /// Asks the rate limiter for one line at second `now`, without a lock.
    /// Where the second has changed, the calls that see so race to set it,
    /// and the one that wins takes the count of suppressed lines away and
    /// starts the count of lines again. Every call then adds itself to the
    /// count of lines, and counts itself as suppressed if 50 or more came
    /// before it. The result is what the call found, and the rule's answer
    /// to that.
    pub fn throttle(&self, now: u64) -> (r: (Seen, Throttle))
        ensures
            r.1 == r.0.verdict(),
            r.0.opened ==> r.0.window_second != now,
            !r.0.opened ==> r.0.suppressed == 0,
    {
        let window_second = self.window_second.load(Ordering::Relaxed);
        let mut opened = false;
        let mut suppressed: u64 = 0;
        if now != window_second {
            let set = self.window_second.compare_exchange(
                window_second,
                now,
                Ordering::SeqCst,
                Ordering::SeqCst,
            );
            if set.is_ok() {
                opened = true;
                suppressed = self.suppressed_in_window.swap(0, Ordering::SeqCst);
                self.count_in_window.store(0, Ordering::SeqCst);
            }
        }
        let count = self.count_in_window.fetch_add(1, Ordering::SeqCst);
        let seen = Seen { window_second, opened, suppressed, count };
        let verdict = verdict_on(seen);
        if !verdict.emit {
            self.suppressed_in_window.fetch_add(1, Ordering::SeqCst);
        }
        (seen, verdict)
    }
}

/// The admission permits of a process: how many there are, and in an
/// atomic how many are out.
pub struct SharedAdmission {
    pub capacity: usize,
    pub in_use: AtomicUsize,
}

impl SharedAdmission {
    /// The permits for `capacity` connections at a time.
    pub fn new(capacity: usize) -> (a: SharedAdmission)
        ensures
            a.capacity == capacity,
    {
        SharedAdmission { capacity, in_use: AtomicUsize::new(0) }
    }

    /// The permits as a call found them.
    pub open spec fn found(self, in_use: usize) -> Admission {
        Admission { capacity: self.capacity, in_use }
    }

    /// Asks for a permit, without a lock and without waiting. The result is
    /// the number of permits that the call found out, and whether it got
    /// one: it did if fewer than all were out.
    pub fn try_acquire(&self) -> (r: (usize, bool))
        ensures
            r.1 == (r.0 < self.capacity),
            r.1 == (answer_of(self.found(r.0)) == ListenerAction::Serve),
    {
        let found = self.in_use.fetch_add(1, Ordering::SeqCst);
        if found < self.capacity {
            (found, true)
        } else {
            self.in_use.fetch_sub(1, Ordering::SeqCst);
            (found, false)
        }
    }

    /// Gives a permit back, when the handler that held it has ended.
    pub fn release(&self) {
        self.in_use.fetch_sub(1, Ordering::SeqCst);
    }
}

/// Decides what follows one call of accept, on shared permits. A failure
/// is waited out, with a wait that doubles from failure to failure. A
/// connection resets the wait, and is served if the call found a permit
/// free and rejected if not. The result holds the number of permits that
/// the call found out (none, where nothing was accepted) and the decision.
pub fn on_accept_shared(backoff: &mut Backoff, permits: &SharedAdmission, accepted: bool) -> (r: (
    Option<usize>,
    ListenerAction,
))
    ensures
        !accepted ==> {
            &&& r.0 is None
            &&& r.1 == (ListenerAction::Retry { delay_ms: old(backoff).ms })
            &&& final(backoff).ms == doubled(old(backoff).ms)
        },
        accepted ==> {
            &&& final(backoff).ms == BACKOFF_INITIAL_MS
            &&& r.0 is Some
            &&& r.1 == answer_of(permits.found(r.0.unwrap()))
        },
        old(backoff).wf() ==> final(backoff).wf(),
{
    if !accepted {
        let delay_ms = backoff.on_error();
        (None, ListenerAction::Retry { delay_ms })
    } else {
        backoff.reset();
        let (found, granted) = permits.try_acquire();
        if granted {
            (Some(found), ListenerAction::Serve)
        } else {
            (Some(found), ListenerAction::Reject)
        }
    }
}

} // verus!
