//! The outbound dialer: which address to try next, on what kind of socket,
//! and what the attempt as a whole comes to.
//!
//! For each resolved address, in the resolver's order, the program opens a
//! socket of the address's family, binds it to the interface, and connects.
//! It tells the dialer how each of these went, and the dialer says what to
//! do next.

use vstd::prelude::*;
use crate::bind::Family;

verus! {

/// An address that name resolution returned.
#[derive(Clone, Copy, Debug, PartialEq, Eq)]
#[allow(inconsistent_fields)]
pub enum ResolvedAddress {
    V4 { octets: [u8; 4], port: u16 },
    V6 { octets: [u8; 16], port: u16, flowinfo: u32, scope_id: u32 },
}

impl ResolvedAddress {
    pub open spec fn family_of(self) -> Family {
        match self {
            ResolvedAddress::V4 { .. } => Family::V4,
            ResolvedAddress::V6 { .. } => Family::V6,
        }
    }

    /// The family of socket that reaches this address.
    pub fn family(&self) -> (f: Family)
        ensures
            f == self.family_of(),
    {
        match self {
            ResolvedAddress::V4 { .. } => Family::V4,
            ResolvedAddress::V6 { .. } => Family::V6,
        }
    }
}

/// Why no connection came about. `E` is the program's error type.
#[derive(Debug, PartialEq, Eq)]
pub enum DialFailure<E> {
    /// Resolution gave no address at all.
    NoAddress,
    /// The error of the attempt that ended the dialing.
    Attempt(E),
}

/// Where the dialer stands. `index` counts the resolved addresses.
#[derive(Debug, PartialEq, Eq)]
pub enum Dialer<E> {
    /// A socket for address `index` is to be opened.
    Opening { index: usize },
    /// The socket for address `index` is to be bound to the interface.
    Binding { index: usize },
    /// The bound socket is to be connected to address `index`.
    Connecting { index: usize },
    /// The connection to address `index` stands.
    Connected { index: usize },
    /// No connection came about.
    Failed { failure: DialFailure<E> },
}

/// What the program is to do next.
#[derive(Clone, Copy, Debug, PartialEq, Eq)]
pub enum DialAction {
    /// Open a fresh stream socket of this family.
    OpenSocket(Family),
    /// Bind the socket just opened, which is of this family, to the
    /// interface.
    BindSocket(Family),
    /// Connect the socket just bound to this address.
    Connect(ResolvedAddress),
}

impl<E> Dialer<E> {
    /// The dialer before the first attempt on `count` addresses.
    pub open spec fn initial(count: nat) -> Dialer<E> {
        if count == 0 {
            Dialer::Failed { failure: DialFailure::NoAddress }
        } else {
            Dialer::Opening { index: 0 }
        }
    }

    /// The dialer stands at one of `count` addresses, or at its end.
    pub open spec fn wf(self, count: nat) -> bool {
        match self {
            Dialer::Opening { index } => index < count,
            Dialer::Binding { index } => index < count,
            Dialer::Connecting { index } => index < count,
            Dialer::Connected { index } => index < count,
            Dialer::Failed { .. } => true,
        }
    }

    /// The dialing has ended, one way or the other.
    pub open spec fn is_over(self) -> bool {
        self is Connected || self is Failed
    }

    /// The dialer after the step it was waiting for has succeeded.
    pub open spec fn succeeded(self) -> Dialer<E> {
        match self {
            Dialer::Opening { index } => Dialer::Binding { index },
            Dialer::Binding { index } => Dialer::Connecting { index },
            Dialer::Connecting { index } => Dialer::Connected { index },
            over => over,
        }
    }

    /// The dialer after the step it was waiting for has failed with `e`. A
    /// socket that cannot be opened ends the dialing. A socket that cannot
    /// be bound or connected is given up for the next address; after the
    /// last address, its error is that of the dialing.
    pub open spec fn failed(self, count: nat, e: E) -> Dialer<E> {
        match self {
            Dialer::Opening { .. } => Dialer::Failed { failure: DialFailure::Attempt(e) },
            Dialer::Binding { index } => Self::next_address(index, count, e),
            Dialer::Connecting { index } => Self::next_address(index, count, e),
            over => over,
        }
    }

    pub open spec fn next_address(index: usize, count: nat, e: E) -> Dialer<E> {
        if index + 1 < count {
            Dialer::Opening { index: (index + 1) as usize }
        } else {
            Dialer::Failed { failure: DialFailure::Attempt(e) }
        }
    }

    /// What the dialer waits for, where the dialing is not over. (A dialer
    /// that stands at no address of `addrs` waits for nothing.)
    pub open spec fn action_of(self, addrs: Seq<ResolvedAddress>) -> Option<DialAction> {
        if !self.wf(addrs.len()) {
            None
        } else {
            match self {
                Dialer::Opening { index } => Some(
                    DialAction::OpenSocket(addrs[index as int].family_of()),
                ),
                Dialer::Binding { index } => Some(
                    DialAction::BindSocket(addrs[index as int].family_of()),
                ),
                Dialer::Connecting { index } => Some(DialAction::Connect(addrs[index as int])),
                _ => None,
            }
        }
    }

    /// Starts on the addresses that resolution returned.
    pub fn start(addrs: &[ResolvedAddress]) -> (d: Dialer<E>)
        ensures
            d == Self::initial(addrs@.len()),
            d.wf(addrs@.len()),
    {
        if addrs.len() == 0 {
            Dialer::Failed { failure: DialFailure::NoAddress }
        } else {
            Dialer::Opening { index: 0 }
        }
    }

    /// What the program is to do next; `None` when the dialing is over.
    pub fn action(&self, addrs: &[ResolvedAddress]) -> (a: Option<DialAction>)
        ensures
            a == self.action_of(addrs@),
            self.wf(addrs@.len()) ==> (a is None <==> self.is_over()),
    {
        let count = addrs.len();
        match self {
            Dialer::Opening { index } => if *index < count {
                Some(DialAction::OpenSocket(addrs[*index].family()))
            } else {
                None
            },
            Dialer::Binding { index } => if *index < count {
                Some(DialAction::BindSocket(addrs[*index].family()))
            } else {
                None
            },
            Dialer::Connecting { index } => if *index < count {
                Some(DialAction::Connect(addrs[*index]))
            } else {
                None
            },
            _ => None,
        }
    }

    /// The step that the dialer was waiting for has succeeded.
    pub fn on_success(self) -> (d: Dialer<E>)
        ensures
            d == self.succeeded(),
            forall|count: nat| self.wf(count) ==> d.wf(count),
    {
        match self {
            Dialer::Opening { index } => Dialer::Binding { index },
            Dialer::Binding { index } => Dialer::Connecting { index },
            Dialer::Connecting { index } => Dialer::Connected { index },
            over => over,
        }
    }

    /// The step that the dialer was waiting for has failed with `e`;
    /// `count` is the number of addresses.
    pub fn on_failure(self, count: usize, e: E) -> (d: Dialer<E>)
        ensures
            d == self.failed(count as nat, e),
            self.wf(count as nat) ==> d.wf(count as nat),
    {
        match self {
            Dialer::Opening { .. } => Dialer::Failed { failure: DialFailure::Attempt(e) },
            Dialer::Binding { index } => Self::advance(index, count, e),
            Dialer::Connecting { index } => Self::advance(index, count, e),
            over => over,
        }
    }

    fn advance(index: usize, count: usize, e: E) -> (d: Dialer<E>)
        ensures
            d == Self::next_address(index, count as nat, e),
            d.wf(count as nat),
    {
        if count > 0 && index < count - 1 {
            Dialer::Opening { index: index + 1 }
        } else {
            Dialer::Failed { failure: DialFailure::Attempt(e) }
        }
    }

    /// The result of the dialing: the index of the address that the
    /// connection stands to, or why there is none. `None` while the dialing
    /// is not over.
    pub fn outcome(self) -> (r: Option<Result<usize, DialFailure<E>>>)
        ensures
            match self {
                Dialer::Connected { index } => r == Some(Ok::<usize, DialFailure<E>>(index)),
                Dialer::Failed { failure } => r == Some(Err::<usize, DialFailure<E>>(failure)),
                _ => r is None,
            },
    {
        match self {
            Dialer::Connected { index } => Some(Ok(index)),
            Dialer::Failed { failure } => Some(Err(failure)),
            _ => None,
        }
    }
}

/// How the attempt on one address went.
pub ghost enum Attempt<E> {
    /// No socket could be opened.
    NoSocket(E),
    /// The socket could not be bound to the interface.
    NotBound(E),
    /// The bound socket could not be connected.
    NotConnected(E),
    /// The bound socket was connected.
    Connected,
}

/// The dialer after the attempt on the address it stands at went as
/// `attempt` says.
pub open spec fn after_attempt<E>(d: Dialer<E>, count: nat, attempt: Attempt<E>) -> Dialer<E> {
    match attempt {
        Attempt::NoSocket(e) => d.failed(count, e),
        Attempt::NotBound(e) => d.succeeded().failed(count, e),
        Attempt::NotConnected(e) => d.succeeded().succeeded().failed(count, e),
        Attempt::Connected => d.succeeded().succeeded().succeeded(),
    }
}

/// The dialer after the attempts on the addresses from `from` on went as
/// `attempts` says, as far as they were made.
pub open spec fn after_attempts<E>(d: Dialer<E>, attempts: Seq<Attempt<E>>, from: int) -> Dialer<E>
    decreases attempts.len() - from,
{
    if from < 0 || from >= attempts.len() || d.is_over() {
        d
    } else {
        after_attempts(after_attempt(d, attempts.len(), attempts[from]), attempts, from + 1)
    }
}

/// The dialing on addresses whose attempts go as `attempts` says.
pub open spec fn dial<E>(attempts: Seq<Attempt<E>>) -> Dialer<E> {
    after_attempts(Dialer::initial(attempts.len()), attempts, 0)
}

/// The attempt failed in a way that lets the dialer go on to the next
/// address.
pub open spec fn passed_over<E>(a: Attempt<E>) -> bool {
    a is NotBound || a is NotConnected
}

/// The error that a failed attempt ended with.
pub open spec fn error_of<E>(a: Attempt<E>) -> E
    recommends
        !(a is Connected),
{
    match a {
        Attempt::NoSocket(e) => e,
        Attempt::NotBound(e) => e,
        Attempt::NotConnected(e) => e,
        Attempt::Connected => arbitrary(),
    }
}

proof fn lemma_after_attempts<E>(attempts: Seq<Attempt<E>>, from: int)
    requires
        0 <= from < attempts.len() <= usize::MAX,
    ensures
        ({
            let d = after_attempts(Dialer::<E>::Opening { index: from as usize }, attempts, from);
            match d {
                Dialer::Connected { index } => {
                    &&& from <= index < attempts.len()
                    &&& attempts[index as int] is Connected
                    &&& forall|j: int| from <= j < index ==> passed_over(#[trigger] attempts[j])
                },
                Dialer::Failed { failure } => exists|k: int|
                    {
                        &&& from <= k < attempts.len()
                        &&& !(#[trigger] attempts[k] is Connected)
                        &&& failure == DialFailure::Attempt(error_of(attempts[k]))
                        &&& (attempts[k] is NoSocket || k == attempts.len() - 1)
                        &&& forall|j: int| from <= j < k ==> passed_over(#[trigger] attempts[j])
                    },
                _ => false,
            }
        }),
    decreases attempts.len() - from,
{
    let start = Dialer::<E>::Opening { index: from as usize };
    let next = after_attempt(start, attempts.len(), attempts[from]);
    if passed_over(attempts[from]) && from + 1 < attempts.len() {
        assert(next == Dialer::<E>::Opening { index: (from + 1) as usize });
        lemma_after_attempts(attempts, from + 1);
        let d = after_attempts(next, attempts, from + 1);
        match d {
            Dialer::Failed { failure } => {
                let k = choose|k: int|
                    {
                        &&& from + 1 <= k < attempts.len()
                        &&& !(#[trigger] attempts[k] is Connected)
                        &&& failure == DialFailure::Attempt(error_of(attempts[k]))
                        &&& (attempts[k] is NoSocket || k == attempts.len() - 1)
                        &&& forall|j: int| from + 1 <= j < k ==> passed_over(#[trigger] attempts[j])
                    };
                assert(!(attempts[k] is Connected));
            },
            _ => {},
        }
    } else {
        assert(next.is_over());
        assert(after_attempts(next, attempts, from + 1) == next);
        if !(attempts[from] is Connected) {
            assert(!(attempts[from] is Connected));
        }
    }
}

/// The connection stands to the first address, in the resolver's
/// order, whose socket was opened, bound and connected, provided that a
/// socket could be opened for each address before it.
pub proof fn lemma_dial_connects_first<E>(attempts: Seq<Attempt<E>>)
    requires
        attempts.len() <= usize::MAX,
    ensures
        match dial(attempts) {
            Dialer::Connected { index } => {
                &&& index < attempts.len()
                &&& attempts[index as int] is Connected
                &&& forall|j: int| 0 <= j < index ==> passed_over(#[trigger] attempts[j])
            },
            _ => true,
        },
{
    if attempts.len() > 0 {
        lemma_after_attempts(attempts, 0);
    }
}

/// With no address the dialing fails for want of an address;
/// otherwise it fails with the error of the attempt that ended it, and that
/// is the attempt on the last address unless a socket could not be opened.
pub proof fn lemma_dial_failure<E>(attempts: Seq<Attempt<E>>)
    requires
        attempts.len() <= usize::MAX,
    ensures
        dial(attempts).is_over(),
        attempts.len() == 0 ==> dial(attempts) == (Dialer::<E>::Failed {
            failure: DialFailure::NoAddress,
        }),
        attempts.len() > 0 ==> match dial(attempts) {
            Dialer::Failed { failure } => exists|k: int|
                {
                    &&& 0 <= k < attempts.len()
                    &&& !(#[trigger] attempts[k] is Connected)
                    &&& failure == DialFailure::Attempt(error_of(attempts[k]))
                    &&& (attempts[k] is NoSocket || k == attempts.len() - 1)
                    &&& forall|j: int| 0 <= j < k ==> passed_over(#[trigger] attempts[j])
                },
            _ => true,
        },
{
    if attempts.len() > 0 {
        lemma_after_attempts(attempts, 0);
    }
}

/// Binding comes before connecting: the dialer asks for a connect only
/// after the socket for that same address was bound, and the binding went
/// well. No failure and no other success leads there.
pub proof fn lemma_connect_follows_bind<E>(d: Dialer<E>, count: nat, e: E)
    ensures
        d.succeeded() is Connecting <==> d is Binding,
        d is Binding ==> d.succeeded() == (Dialer::<E>::Connecting { index: d->Binding_index }),
        !(d.failed(count, e) is Connecting),
        !(Dialer::<E>::initial(count) is Connecting),
{
}

/// Likewise a socket is bound only just after it was opened.
pub proof fn lemma_bind_follows_open<E>(d: Dialer<E>, count: nat, e: E)
    ensures
        d.succeeded() is Binding <==> d is Opening,
        d is Opening ==> d.succeeded() == (Dialer::<E>::Binding { index: d->Opening_index }),
        !(d.failed(count, e) is Binding),
        !(Dialer::<E>::initial(count) is Binding),
{
}

} // verus!
