//! The listener's rules: how long to wait after an accept that failed, and
//! how many connections may be served at a time.

use vstd::prelude::*;
use crate::bytes::{copy_of, push_all, text, text_bytes};
use crate::logger::{Level, LogLine, LogLineView};

verus! {

/// The wait after the first failed accept, in milliseconds.
pub const BACKOFF_INITIAL_MS: u64 = 50;

/// The longest wait after a failed accept, in milliseconds.
pub const BACKOFF_MAX_MS: u64 = 1000;

/// The wait that follows the wait `ms`: twice as long, up to the longest.
pub open spec fn doubled(ms: u64) -> u64 {
    if ms * 2 <= BACKOFF_MAX_MS {
        (ms * 2) as u64
    } else {
        BACKOFF_MAX_MS
    }
}

/// How long the listener waits before it accepts again.
#[derive(Clone, Copy, Debug, PartialEq, Eq, Structural)]
pub struct Backoff {
    pub ms: u64,
}

impl Backoff {
    /// The wait lies between the first and the longest.
    pub open spec fn wf(self) -> bool {
        BACKOFF_INITIAL_MS <= self.ms <= BACKOFF_MAX_MS
    }

    pub fn new() -> (b: Backoff)
        ensures
            b.ms == BACKOFF_INITIAL_MS,
            b.wf(),
    {
        Backoff { ms: BACKOFF_INITIAL_MS }
    }

    /// An accept has failed: returns the time to wait before the next one,
    /// and doubles the wait for the failure after this.
    pub fn on_error(&mut self) -> (delay: u64)
        ensures
            delay == old(self).ms,
            final(self).ms == doubled(old(self).ms),
            old(self).wf() ==> final(self).wf(),
    {
        let delay = self.ms;
        self.ms = if delay <= BACKOFF_MAX_MS / 2 {
            delay * 2
        } else {
            BACKOFF_MAX_MS
        };
        delay
    }

    /// An accept has succeeded: the wait is the first one again.
    pub fn reset(&mut self)
        ensures
            final(self).ms == BACKOFF_INITIAL_MS,
            final(self).wf(),
    {
        self.ms = BACKOFF_INITIAL_MS;
    }
}

/// The wait before the accept that follows `failures` failed accepts in a
/// row.
pub open spec fn wait_after(failures: nat) -> u64
    decreases failures,
{
    if failures <= 1 {
        BACKOFF_INITIAL_MS
    } else {
        doubled(wait_after((failures - 1) as nat))
    }
}

/// The waits after failed accepts in a row are 50, 100, 200, 400 and 800
/// milliseconds, and 1000 from the sixth failure on.
pub proof fn lemma_backoff_schedule(failures: nat)
    ensures
        wait_after(1) == 50,
        wait_after(2) == 100,
        wait_after(3) == 200,
        wait_after(4) == 400,
        wait_after(5) == 800,
        failures >= 6 ==> wait_after(failures) == 1000,
        BACKOFF_INITIAL_MS <= wait_after(failures) <= BACKOFF_MAX_MS,
    decreases failures,
{
    reveal_with_fuel(wait_after, 7);
    if failures > 6 {
        lemma_backoff_schedule((failures - 1) as nat);
    }
}

/// The permits for the connections that are served at a time.
#[derive(Clone, Copy, Debug, PartialEq, Eq, Structural)]
pub struct Admission {
    pub capacity: usize,
    pub in_use: usize,
}

impl Admission {
    /// No more permits are out than there are.
    pub open spec fn wf(self) -> bool {
        self.in_use <= self.capacity
    }

    /// The permits for `capacity` connections at a time, none of them out.
    pub fn new(capacity: usize) -> (a: Admission)
        ensures
            a.capacity == capacity,
            a.in_use == 0,
            a.wf(),
    {
        Admission { capacity, in_use: 0 }
    }

    /// The state after a permit was asked for.
    pub open spec fn acquired(self) -> Admission {
        if self.in_use < self.capacity {
            Admission { capacity: self.capacity, in_use: (self.in_use + 1) as usize }
        } else {
            self
        }
    }

    /// The state after a permit was given back.
    pub open spec fn released(self) -> Admission {
        if self.in_use > 0 {
            Admission { capacity: self.capacity, in_use: (self.in_use - 1) as usize }
        } else {
            self
        }
    }

    /// Asks for a permit. There is no waiting: a permit is either free now,
    /// or the answer is no.
    pub fn try_acquire(&mut self) -> (granted: bool)
        ensures
            granted == (old(self).in_use < old(self).capacity),
            *final(self) == old(self).acquired(),
            old(self).wf() ==> final(self).wf(),
    {
        if self.in_use < self.capacity {
            self.in_use = self.in_use + 1;
            true
        } else {
            false
        }
    }

    /// Gives a permit back, when the handler that held it has ended.
    pub fn release(&mut self)
        ensures
            *final(self) == old(self).released(),
            old(self).wf() ==> final(self).wf(),
    {
        if self.in_use > 0 {
            self.in_use = self.in_use - 1;
        }
    }

    /// The number of permits that are free.
    pub fn available(&self) -> (n: usize)
        ensures
            self.wf() ==> n == self.capacity - self.in_use,
            !self.wf() ==> n == 0,
    {
        if self.in_use <= self.capacity {
            self.capacity - self.in_use
        } else {
            0
        }
    }
}

/// What the listener does after one call of accept.
#[derive(Clone, Copy, Debug, PartialEq, Eq, Structural)]
pub enum ListenerAction {
    /// Hand the connection, with its permit, to a handler of its own.
    Serve,
    /// Too many connections: log that, and close the new one.
    Reject,
    /// The accept failed: log that, wait this many milliseconds, and accept
    /// again.
    Retry { delay_ms: u64 },
}

/// What a connection that has just been accepted meets with: it is served
/// if a permit is free, and rejected if none is.
pub open spec fn answer_of(a: Admission) -> ListenerAction {
    if a.in_use < a.capacity {
        ListenerAction::Serve
    } else {
        ListenerAction::Reject
    }
}

/// The permits after `count` connections in a row asked for one and none
/// was given back.
pub open spec fn after_acquires(a: Admission, count: nat) -> Admission
    decreases count,
{
    if count == 0 {
        a
    } else {
        after_acquires(a, (count - 1) as nat).acquired()
    }
}

/// Of connections that come in while none ends, the
/// first `capacity` get a permit each and are served, and every one after
/// them gets none and is rejected. It is not queued: the permits stay as
/// they are.
pub proof fn lemma_admission_cap(capacity: usize, count: nat)
    ensures
        ({
            let fresh = Admission { capacity, in_use: 0 };
            let a = after_acquires(fresh, count);
            &&& a.wf()
            &&& a.capacity == capacity
            &&& count <= capacity ==> a.in_use == count
            &&& count >= capacity ==> a.in_use == capacity && a.acquired() == a
            &&& answer_of(a) == if count < capacity {
                ListenerAction::Serve
            } else {
                ListenerAction::Reject
            }
        }),
    decreases count,
{
    if count > 0 {
        lemma_admission_cap(capacity, (count - 1) as nat);
    }
}

/// A permit that is given back is free for the next connection.
pub proof fn lemma_release_frees(a: Admission)
    requires
        a.wf(),
        a.in_use > 0,
    ensures
        a.released().wf(),
        a.released().in_use < a.capacity,
        a.released().acquired() == a,
{
}

/// Decides what follows one call of accept. A failure is waited out, with
/// a wait that doubles from failure to failure. A connection resets the
/// wait, and is served if a permit is free and rejected if not.
pub fn on_accept(backoff: &mut Backoff, admission: &mut Admission, accepted: bool) -> (action:
    ListenerAction)
    ensures
        !accepted ==> {
            &&& action == (ListenerAction::Retry { delay_ms: old(backoff).ms })
            &&& final(backoff).ms == doubled(old(backoff).ms)
            &&& *final(admission) == *old(admission)
        },
        accepted ==> {
            &&& final(backoff).ms == BACKOFF_INITIAL_MS
            &&& *final(admission) == old(admission).acquired()
            &&& action == answer_of(*old(admission))
        },
        old(backoff).wf() ==> final(backoff).wf(),
        old(admission).wf() ==> final(admission).wf(),
{
    if !accepted {
        let delay_ms = backoff.on_error();
        ListenerAction::Retry { delay_ms }
    } else {
        backoff.reset();
        if admission.try_acquire() {
            ListenerAction::Serve
        } else {
            ListenerAction::Reject
        }
    }
}

/// The protocols that the proxy listens for.
#[derive(Clone, Copy, Debug, PartialEq, Eq, Structural)]
pub enum Protocol {
    Http,
    Socks5,
}

impl Protocol {
    pub open spec fn name_of(self) -> Seq<u8> {
        match self {
            Protocol::Http => text("HTTP"),
            Protocol::Socks5 => text("SOCKS5"),
        }
    }
}

/// The line that a listener logs when it starts.
pub open spec fn listening_text(protocol: Protocol, addr: Seq<u8>, iface: Seq<u8>) -> Seq<u8> {
    protocol.name_of() + text(" proxy listening on ") + addr + text(", bound to ") + iface
}

/// Words the line that a listener logs when it starts.
pub fn listening_message(protocol: Protocol, addr: &[u8], iface: &[u8]) -> (out: Vec<u8>)
    ensures
        out@ == listening_text(protocol, addr@, iface@),
{
    let mut out = match protocol {
        Protocol::Http => copy_of(text_bytes("HTTP")),
        Protocol::Socks5 => copy_of(text_bytes("SOCKS5")),
    };
    push_all(&mut out, text_bytes(" proxy listening on "));
    push_all(&mut out, addr);
    push_all(&mut out, text_bytes(", bound to "));
    push_all(&mut out, iface);
    out
}

/// The line that is logged for a connection that got no permit.
pub open spec fn rejected_text() -> Seq<u8> {
    text("too many concurrent connections; dropping new connection")
}

/// Words the line that is logged for a connection that got no permit.
pub fn rejected_message() -> (out: Vec<u8>)
    ensures
        out@ == rejected_text(),
{
    copy_of(text_bytes("too many concurrent connections; dropping new connection"))
}

/// The line for a connection that got no permit: information, and
/// throttled like every line that is logged per connection.
pub open spec fn rejection_of() -> LogLineView {
    LogLineView { level: Level::Info, throttled: true, message: rejected_text() }
}

/// The line to log for a connection that got no permit.
pub fn rejection() -> (line: LogLine)
    ensures
        line@ == rejection_of(),
{
    LogLine { level: Level::Info, throttled: true, message: rejected_message() }
}

} // verus!
