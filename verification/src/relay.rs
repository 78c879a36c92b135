//! The relay between a client and its upstream: two directions, each
//! pumped until its source ends, with the bytes of each counted.
//!
//! The program reads from one side and writes to the other; after each
//! read it tells the relay what happened and does what the relay says.

use vstd::prelude::*;

verus! {

/// A direction of the relay.
#[derive(Clone, Copy, Debug, PartialEq, Eq, Structural)]
pub enum Direction {
    /// From the client to the upstream.
    Up,
    /// From the upstream to the client.
    Down,
}

/// What a read in one direction came to.
#[derive(Clone, Copy, Debug, PartialEq, Eq, Structural)]
pub enum Pumped {
    /// This many bytes were read and written on.
    Bytes(usize),
    /// The source has ended.
    Eof,
    /// The read or the write failed, with an error that is transient or not.
    Failed { transient: bool },
}

/// What the program is to do after a read.
#[derive(Clone, Copy, Debug, PartialEq, Eq, Structural)]
pub enum RelayAction {
    /// Read on in the direction of the event.
    Continue,
    /// The direction of the event has ended: shut down the writing half of
    /// its destination, and keep pumping the other direction.
    HalfClose,
    /// Both directions have ended: the relay is complete, with these counts
    /// of bytes up and down.
    Done { up: u64, down: u64 },
    /// Give the relay up: drop both sockets and report the error.
    Abort,
}

/// The state of a relay: the bytes copied in each direction, which
/// directions are still open, and whether the relay was given up. The
/// counts stop at the largest number they can hold.
#[derive(Clone, Copy, Debug, PartialEq, Eq, Structural)]
pub struct Relay {
    pub up: u64,
    pub down: u64,
    pub up_open: bool,
    pub down_open: bool,
    pub aborted: bool,
}

/// `a + b`, or the largest number where that is less.
pub open spec fn capped_sum(a: u64, b: usize) -> u64 {
    if a + b <= u64::MAX {
        (a + b) as u64
    } else {
        u64::MAX
    }
}

impl Relay {
    /// A relay at its start: nothing copied, both directions open.
    pub open spec fn initial() -> Relay {
        Relay { up: 0, down: 0, up_open: true, down_open: true, aborted: false }
    }

    pub open spec fn is_open(self, d: Direction) -> bool {
        !self.aborted && match d {
            Direction::Up => self.up_open,
            Direction::Down => self.down_open,
        }
    }

    /// The relay is complete: both directions have ended, each by the end
    /// of its source or by a transient error.
    pub open spec fn is_done(self) -> bool {
        !self.aborted && !self.up_open && !self.down_open
    }

    /// The relay with `n` more bytes counted in direction `d`.
    pub open spec fn counted(self, d: Direction, n: usize) -> Relay {
        match d {
            Direction::Up => Relay { up: capped_sum(self.up, n), ..self },
            Direction::Down => Relay { down: capped_sum(self.down, n), ..self },
        }
    }

    /// The relay with direction `d` ended.
    pub open spec fn ended(self, d: Direction) -> Relay {
        match d {
            Direction::Up => Relay { up_open: false, ..self },
            Direction::Down => Relay { down_open: false, ..self },
        }
    }

    /// The relay after `event` in direction `d`. Events in a direction that
    /// has ended, or after the relay was given up, change nothing.
    pub open spec fn after(self, d: Direction, event: Pumped) -> Relay {
        if !self.is_open(d) {
            self
        } else {
            match event {
                Pumped::Bytes(n) => self.counted(d, n),
                Pumped::Eof => self.ended(d),
                Pumped::Failed { transient } => if transient {
                    self.ended(d)
                } else {
                    Relay { aborted: true, ..self }
                },
            }
        }
    }

    /// What is to be done after `event` in direction `d`.
    pub open spec fn action_on(self, d: Direction, event: Pumped) -> RelayAction {
        let next = self.after(d, event);
        if next.aborted {
            RelayAction::Abort
        } else if next.is_done() {
            RelayAction::Done { up: next.up, down: next.down }
        } else if next.is_open(d) {
            RelayAction::Continue
        } else {
            RelayAction::HalfClose
        }
    }

    pub fn new() -> (r: Relay)
        ensures
            r == Self::initial(),
    {
        Relay { up: 0, down: 0, up_open: true, down_open: true, aborted: false }
    }

    fn add(count: u64, n: usize) -> (r: u64)
        ensures
            r == capped_sum(count, n),
    {
        let n64: u64 = if n as u128 <= u64::MAX as u128 {
            n as u64
        } else {
            u64::MAX
        };
        if n64 <= u64::MAX - count {
            count + n64
        } else {
            u64::MAX
        }
    }

    /// The session has run longer than it may: the relay is given up.
    pub fn on_timeout(&mut self) -> (action: RelayAction)
        ensures
            *final(self) == (Relay { aborted: true, ..*old(self) }),
            action == RelayAction::Abort,
    {
        self.aborted = true;
        RelayAction::Abort
    }

    /// Takes in what a read in direction `d` came to, and says what to do.
    pub fn on_event(&mut self, d: Direction, event: Pumped) -> (action: RelayAction)
        ensures
            *final(self) == old(self).after(d, event),
            action == old(self).action_on(d, event),
    {
        let open = !self.aborted && match d {
            Direction::Up => self.up_open,
            Direction::Down => self.down_open,
        };
        if open {
            match event {
                Pumped::Bytes(n) => match d {
                    Direction::Up => {
                        self.up = Self::add(self.up, n);
                    },
                    Direction::Down => {
                        self.down = Self::add(self.down, n);
                    },
                },
                Pumped::Failed { transient: false } => {
                    self.aborted = true;
                },
                _ => match d {
                    Direction::Up => {
                        self.up_open = false;
                    },
                    Direction::Down => {
                        self.down_open = false;
                    },
                },
            }
        }
        if self.aborted {
            RelayAction::Abort
        } else if !self.up_open && !self.down_open {
            RelayAction::Done { up: self.up, down: self.down }
        } else {
            let still = match d {
                Direction::Up => self.up_open,
                Direction::Down => self.down_open,
            };
            if still {
                RelayAction::Continue
            } else {
                RelayAction::HalfClose
            }
        }
    }
}

/// The other direction.
pub open spec fn opposite(d: Direction) -> Direction {
    match d {
        Direction::Up => Direction::Down,
        Direction::Down => Direction::Up,
    }
}

/// Half-close is preserved: when one direction ends while the other is
/// open, the other stays open and keeps its count, and the relay is not
/// complete yet. This holds for the end of the source and for a transient
/// error alike.
pub proof fn lemma_half_close(r: Relay, d: Direction, event: Pumped)
    requires
        r.is_open(d),
        r.is_open(opposite(d)),
        event == Pumped::Eof || event == (Pumped::Failed { transient: true }),
    ensures
        r.action_on(d, event) == RelayAction::HalfClose,
        r.after(d, event).is_open(opposite(d)),
        !r.after(d, event).is_open(d),
        !r.after(d, event).is_done(),
        r.after(d, event).up == r.up,
        r.after(d, event).down == r.down,
{
}

/// The relay is complete exactly when the second direction ends, and it
/// then reports the counts as they stand.
pub proof fn lemma_done_when_both_ended(r: Relay, d: Direction, event: Pumped)
    requires
        !r.aborted,
    ensures
        r.action_on(d, event) is Done <==> r.after(d, event).is_done(),
        r.action_on(d, event) is Done ==> r.action_on(d, event) == (RelayAction::Done {
            up: r.after(d, event).up,
            down: r.after(d, event).down,
        }),
        r.after(d, event).is_done() && !r.is_done() ==> r.is_open(d) && !r.is_open(opposite(d)),
{
}

/// Only an error that is not transient gives the relay up.
pub proof fn lemma_abort_only_on_hard_error(r: Relay, d: Direction, event: Pumped)
    requires
        !r.aborted,
    ensures
        r.after(d, event).aborted <==> r.is_open(d) && event == (Pumped::Failed {
            transient: false,
        }),
{
}

} // verus!
