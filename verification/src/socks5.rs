//! The SOCKS5 front-end: greeting and method selection, user name and
//! password, and the request, as a machine that is fed one read at a time.
//!
//! The program around it reads exactly `need` bytes for the current phase,
//! hands them to `step`, writes the reply, and goes where `next` says.

use vstd::prelude::*;
use crate::bytes::same_bytes;
use crate::error::ProxyError;
use crate::target::{Host, HostView, Target, TargetView};

verus! {

/// The user name and the password that clients must present. With neither
/// set, no authentication is asked for. With only one of them set it is
/// asked for and no client passes.
#[derive(Debug, PartialEq, Eq)]
pub struct Credentials {
    pub user: Option<Vec<u8>>,
    pub pass: Option<Vec<u8>>,
}

/// The mathematical value of `Credentials`.
pub ghost struct CredentialsView {
    pub user: Option<Seq<u8>>,
    pub pass: Option<Seq<u8>>,
}

impl CredentialsView {
    /// Clients have to authenticate.
    pub open spec fn required(self) -> bool {
        self.user is Some || self.pass is Some
    }
}

impl View for Credentials {
    type V = CredentialsView;

    open spec fn view(&self) -> CredentialsView {
        CredentialsView {
            user: match self.user {
                Some(u) => Some(u@),
                None => None,
            },
            pass: match self.pass {
                Some(p) => Some(p@),
                None => None,
            },
        }
    }
}

impl Credentials {
    /// No authentication.
    pub fn none() -> (c: Credentials)
        ensures
            c@ == (CredentialsView { user: None, pass: None }),
            !c@.required(),
    {
        Credentials { user: None, pass: None }
    }

    /// Authentication with this user name and this password.
    pub fn new(user: Vec<u8>, pass: Vec<u8>) -> (c: Credentials)
        ensures
            c@ == (CredentialsView { user: Some(user@), pass: Some(pass@) }),
            c@.required(),
    {
        Credentials { user: Some(user), pass: Some(pass) }
    }

    pub fn is_required(&self) -> (b: bool)
        ensures
            b == self@.required(),
    {
        self.user.is_some() || self.pass.is_some()
    }
}

/// What the front-end reads next.
#[derive(Debug, PartialEq, Eq)]
pub enum Phase {
    /// Version and number of methods.
    Greeting,
    /// The methods that the client offers.
    Methods { count: u8 },
    /// The version of the subnegotiation.
    AuthVersion,
    /// The length of the user name.
    UserLength,
    /// The user name.
    User { length: u8 },
    /// The length of the password; `user_ok` says whether the user name was
    /// the configured one.
    PassLength { user_ok: bool },
    /// The password.
    Pass { user_ok: bool, length: u8 },
    /// Version, command, reserved byte and address type.
    Request,
    /// An IPv4 address.
    AddressV4 { command: u8 },
    /// An IPv6 address.
    AddressV6 { command: u8 },
    /// The length of a domain name.
    NameLength { command: u8 },
    /// A domain name.
    Name { command: u8, length: u8 },
    /// The port, most significant byte first.
    Port { command: u8, host: Host },
}

/// The mathematical value of a `Phase`.
pub ghost enum PhaseView {
    Greeting,
    Methods { count: u8 },
    AuthVersion,
    UserLength,
    User { length: u8 },
    PassLength { user_ok: bool },
    Pass { user_ok: bool, length: u8 },
    Request,
    AddressV4 { command: u8 },
    AddressV6 { command: u8 },
    NameLength { command: u8 },
    Name { command: u8, length: u8 },
    Port { command: u8, host: HostView },
}

impl View for Phase {
    type V = PhaseView;

    open spec fn view(&self) -> PhaseView {
        match self {
            Phase::Greeting => PhaseView::Greeting,
            Phase::Methods { count } => PhaseView::Methods { count: *count },
            Phase::AuthVersion => PhaseView::AuthVersion,
            Phase::UserLength => PhaseView::UserLength,
            Phase::User { length } => PhaseView::User { length: *length },
            Phase::PassLength { user_ok } => PhaseView::PassLength { user_ok: *user_ok },
            Phase::Pass { user_ok, length } => PhaseView::Pass {
                user_ok: *user_ok,
                length: *length,
            },
            Phase::Request => PhaseView::Request,
            Phase::AddressV4 { command } => PhaseView::AddressV4 { command: *command },
            Phase::AddressV6 { command } => PhaseView::AddressV6 { command: *command },
            Phase::NameLength { command } => PhaseView::NameLength { command: *command },
            Phase::Name { command, length } => PhaseView::Name {
                command: *command,
                length: *length,
            },
            Phase::Port { command, host } => PhaseView::Port { command: *command, host: host@ },
        }
    }
}

impl PhaseView {
    /// The number of bytes that make up what is read in this phase.
    pub open spec fn need(self) -> nat {
        match self {
            PhaseView::Greeting => 2,
            PhaseView::Methods { count } => count as nat,
            PhaseView::AuthVersion => 1,
            PhaseView::UserLength => 1,
            PhaseView::User { length } => length as nat,
            PhaseView::PassLength { .. } => 1,
            PhaseView::Pass { length, .. } => length as nat,
            PhaseView::Request => 4,
            PhaseView::AddressV4 { .. } => 4,
            PhaseView::AddressV6 { .. } => 16,
            PhaseView::NameLength { .. } => 1,
            PhaseView::Name { length, .. } => length as nat,
            PhaseView::Port { .. } => 2,
        }
    }

    /// How many phases can still follow this one, at most.
    pub open spec fn rank(self) -> nat {
        match self {
            PhaseView::Greeting => 11,
            PhaseView::Methods { .. } => 10,
            PhaseView::AuthVersion => 9,
            PhaseView::UserLength => 8,
            PhaseView::User { .. } => 7,
            PhaseView::PassLength { .. } => 6,
            PhaseView::Pass { .. } => 5,
            PhaseView::Request => 4,
            PhaseView::AddressV4 { .. } => 2,
            PhaseView::AddressV6 { .. } => 2,
            PhaseView::NameLength { .. } => 3,
            PhaseView::Name { .. } => 2,
            PhaseView::Port { .. } => 1,
        }
    }
}

impl Phase {
    /// The number of bytes to read in this phase.
    pub fn need(&self) -> (n: usize)
        ensures
            n == self@.need(),
    {
        match self {
            Phase::Greeting => 2,
            Phase::Methods { count } => *count as usize,
            Phase::AuthVersion => 1,
            Phase::UserLength => 1,
            Phase::User { length } => *length as usize,
            Phase::PassLength { .. } => 1,
            Phase::Pass { length, .. } => *length as usize,
            Phase::Request => 4,
            Phase::AddressV4 { .. } => 4,
            Phase::AddressV6 { .. } => 16,
            Phase::NameLength { .. } => 1,
            Phase::Name { length, .. } => *length as usize,
            Phase::Port { .. } => 2,
        }
    }
}

/// Where the handshake goes after a step.
#[derive(Debug, PartialEq, Eq)]
pub enum Next {
    /// Read what the phase asks for.
    Read(Phase),
    /// The request is complete: connect to the target.
    Connect(Target),
    /// Give the connection up.
    Close(ProxyError),
}

/// The mathematical value of a `Next`.
pub ghost enum NextView {
    Read(PhaseView),
    Connect(TargetView),
    Close(ProxyError),
}

impl View for Next {
    type V = NextView;

    open spec fn view(&self) -> NextView {
        match self {
            Next::Read(p) => NextView::Read(p@),
            Next::Connect(t) => NextView::Connect(t@),
            Next::Close(e) => NextView::Close(*e),
        }
    }
}

/// The result of a step: what to write to the client (nothing, where
/// `reply` is empty), and where to go.
#[derive(Debug, PartialEq, Eq)]
pub struct Step {
    pub reply: Vec<u8>,
    pub next: Next,
}

/// The mathematical value of a `Step`.
pub ghost struct StepView {
    pub reply: Seq<u8>,
    pub next: NextView,
}

impl View for Step {
    type V = StepView;

    open spec fn view(&self) -> StepView {
        StepView { reply: self.reply@, next: self.next@ }
    }
}

/// The protocol version.
pub const VERSION: u8 = 5;

/// The version of the user name and password subnegotiation.
pub const AUTH_VERSION: u8 = 1;

/// The method "no authentication".
pub const METHOD_NONE: u8 = 0;

/// The method "user name and password".
pub const METHOD_USER_PASS: u8 = 2;

/// The answer "no acceptable method".
pub const METHOD_REFUSED: u8 = 255;

/// The command `CONNECT`.
pub const CMD_CONNECT: u8 = 1;

/// The command `UDP ASSOCIATE`.
pub const CMD_UDP_ASSOCIATE: u8 = 3;

/// The address type of an IPv4 address.
pub const ATYP_V4: u8 = 1;

/// The address type of a domain name.
pub const ATYP_NAME: u8 = 3;

/// The address type of an IPv6 address.
pub const ATYP_V6: u8 = 4;

/// A step that writes nothing and reads on.
pub open spec fn quiet(phase: PhaseView) -> StepView {
    StepView { reply: Seq::empty(), next: NextView::Read(phase) }
}

/// A step that writes nothing and gives up.
pub open spec fn fail(e: ProxyError) -> StepView {
    StepView { reply: Seq::empty(), next: NextView::Close(e) }
}

/// The port that two bytes write, most significant first.
pub open spec fn port_of(hi: u8, lo: u8) -> u16 {
    (hi * 256 + lo) as u16
}

/// The step that the front-end takes in `phase` on reading `input`.
pub open spec fn step_of(phase: PhaseView, input: Seq<u8>, creds: CredentialsView) -> StepView
    recommends
        input.len() == phase.need(),
{
    match phase {
        PhaseView::Greeting => if input[0] != VERSION {
            fail(ProxyError::InvalidGreetingVersion)
        } else {
            quiet(PhaseView::Methods { count: input[1] })
        },
        PhaseView::Methods { .. } => if !creds.required() {
            StepView { reply: seq![VERSION, METHOD_NONE], next: NextView::Read(PhaseView::Request) }
        } else if input.contains(METHOD_USER_PASS) {
            StepView {
                reply: seq![VERSION, METHOD_USER_PASS],
                next: NextView::Read(PhaseView::AuthVersion),
            }
        } else {
            StepView {
                reply: seq![VERSION, METHOD_REFUSED],
                next: NextView::Close(ProxyError::AuthMethodNotOffered),
            }
        },
        PhaseView::AuthVersion => if input[0] != AUTH_VERSION {
            fail(ProxyError::InvalidAuthVersion)
        } else {
            quiet(PhaseView::UserLength)
        },
        PhaseView::UserLength => quiet(PhaseView::User { length: input[0] }),
        PhaseView::User { .. } => quiet(
            PhaseView::PassLength { user_ok: creds.user == Some(input) },
        ),
        PhaseView::PassLength { user_ok } => quiet(PhaseView::Pass { user_ok, length: input[0] }),
        PhaseView::Pass { user_ok, .. } => if user_ok && creds.pass == Some(input) {
            StepView { reply: seq![AUTH_VERSION, 0u8], next: NextView::Read(PhaseView::Request) }
        } else {
            StepView {
                reply: seq![AUTH_VERSION, 1u8],
                next: NextView::Close(ProxyError::InvalidCredentials),
            }
        },
        PhaseView::Request => if input[0] != VERSION {
            fail(ProxyError::InvalidRequestVersion)
        } else if input[3] == ATYP_V4 {
            quiet(PhaseView::AddressV4 { command: input[1] })
        } else if input[3] == ATYP_NAME {
            quiet(PhaseView::NameLength { command: input[1] })
        } else if input[3] == ATYP_V6 {
            quiet(PhaseView::AddressV6 { command: input[1] })
        } else {
            fail(ProxyError::UnsupportedAtyp)
        },
        PhaseView::AddressV4 { command } => quiet(
            PhaseView::Port { command, host: HostView::V4(input) },
        ),
        PhaseView::AddressV6 { command } => quiet(
            PhaseView::Port { command, host: HostView::V6(input) },
        ),
        PhaseView::NameLength { command } => quiet(PhaseView::Name { command, length: input[0] }),
        PhaseView::Name { command, .. } => quiet(
            PhaseView::Port { command, host: HostView::Name(input) },
        ),
        PhaseView::Port { command, host } => if command == CMD_CONNECT {
            StepView {
                reply: Seq::empty(),
                next: NextView::Connect(TargetView { host, port: port_of(input[0], input[1]) }),
            }
        } else if command == CMD_UDP_ASSOCIATE {
            fail(ProxyError::UdpAssocNotSupported)
        } else {
            fail(ProxyError::UnsupportedCmd)
        },
    }
}

fn reads(phase: Phase) -> (s: Step)
    ensures
        s@ == quiet(phase@),
{
    Step { reply: Vec::new(), next: Next::Read(phase) }
}

fn fails(e: ProxyError) -> (s: Step)
    ensures
        s@ == fail(e),
{
    Step { reply: Vec::new(), next: Next::Close(e) }
}

fn replies(a: u8, b: u8, next: Next) -> (s: Step)
    ensures
        s@ == (StepView { reply: seq![a, b], next: next@ }),
{
    let mut reply: Vec<u8> = Vec::new();
    reply.push(a);
    reply.push(b);
    assert(reply@ =~= seq![a, b]);
    Step { reply, next }
}

fn has_byte(s: &[u8], b: u8) -> (r: bool)
    ensures
        r == s@.contains(b),
{
    let mut i: usize = 0;
    while i < s.len()
        invariant
            i <= s.len(),
            forall|j: int| 0 <= j < i ==> s@[j] != b,
        decreases s.len() - i,
    {
        if s[i] == b {
            return true;
        }
        i += 1;
    }
    false
}

fn is_secret(secret: &Option<Vec<u8>>, input: &[u8]) -> (r: bool)
    ensures
        r == match *secret {
            Some(v) => v@ == input@,
            None => false,
        },
{
    match secret {
        Some(v) => same_bytes(v.as_slice(), input),
        None => false,
    }
}

/// Takes one step of the handshake: `input` is what was read for `phase`.
pub fn step(phase: Phase, input: &[u8], creds: &Credentials) -> (s: Step)
    requires
        input@.len() == phase@.need(),
    ensures
        s@ == step_of(phase@, input@, creds@),
{
    match phase {
        Phase::Greeting => {
            if input[0] != VERSION {
                fails(ProxyError::InvalidGreetingVersion)
            } else {
                reads(Phase::Methods { count: input[1] })
            }
        },
        Phase::Methods { .. } => {
            if !creds.is_required() {
                replies(VERSION, METHOD_NONE, Next::Read(Phase::Request))
            } else if has_byte(input, METHOD_USER_PASS) {
                replies(VERSION, METHOD_USER_PASS, Next::Read(Phase::AuthVersion))
            } else {
                replies(VERSION, METHOD_REFUSED, Next::Close(ProxyError::AuthMethodNotOffered))
            }
        },
        Phase::AuthVersion => {
            if input[0] != AUTH_VERSION {
                fails(ProxyError::InvalidAuthVersion)
            } else {
                reads(Phase::UserLength)
            }
        },
        Phase::UserLength => reads(Phase::User { length: input[0] }),
        Phase::User { .. } => {
            let user_ok = is_secret(&creds.user, input);
            reads(Phase::PassLength { user_ok })
        },
        Phase::PassLength { user_ok } => reads(Phase::Pass { user_ok, length: input[0] }),
        Phase::Pass { user_ok, .. } => {
            if user_ok && is_secret(&creds.pass, input) {
                replies(AUTH_VERSION, 0, Next::Read(Phase::Request))
            } else {
                replies(AUTH_VERSION, 1, Next::Close(ProxyError::InvalidCredentials))
            }
        },
        Phase::Request => {
            if input[0] != VERSION {
                fails(ProxyError::InvalidRequestVersion)
            } else if input[3] == ATYP_V4 {
                reads(Phase::AddressV4 { command: input[1] })
            } else if input[3] == ATYP_NAME {
                reads(Phase::NameLength { command: input[1] })
            } else if input[3] == ATYP_V6 {
                reads(Phase::AddressV6 { command: input[1] })
            } else {
                fails(ProxyError::UnsupportedAtyp)
            }
        },
        Phase::AddressV4 { command } => {
            let a: [u8; 4] = [input[0], input[1], input[2], input[3]];
            assert(a@ =~= input@);
            reads(Phase::Port { command, host: Host::V4(a) })
        },
        Phase::AddressV6 { command } => {
            let a: [u8; 16] = [
                input[0],
                input[1],
                input[2],
                input[3],
                input[4],
                input[5],
                input[6],
                input[7],
                input[8],
                input[9],
                input[10],
                input[11],
                input[12],
                input[13],
                input[14],
                input[15],
            ];
            assert(a@ =~= input@);
            reads(Phase::Port { command, host: Host::V6(a) })
        },
        Phase::NameLength { command } => reads(Phase::Name { command, length: input[0] }),
        Phase::Name { command, .. } => {
            let name = crate::bytes::copy_of(input);
            reads(Phase::Port { command, host: Host::Name(name) })
        },
        Phase::Port { command, host } => {
            if command == CMD_CONNECT {
                let port: u16 = (input[0] as u16) * 256 + (input[1] as u16);
                Step { reply: Vec::new(), next: Next::Connect(Target { host, port }) }
            } else if command == CMD_UDP_ASSOCIATE {
                fails(ProxyError::UdpAssocNotSupported)
            } else {
                fails(ProxyError::UnsupportedCmd)
            }
        },
    }
}

/// What the client is told once the destination is reached: success, with
/// the bound address 0.0.0.0 and the bound port 0.
pub open spec fn success_reply() -> Seq<u8> {
    seq![5u8, 0u8, 0u8, 1u8, 0u8, 0u8, 0u8, 0u8, 0u8, 0u8]
}

/// What to write to the client when the attempt to reach the destination
/// has ended: the success reply if it was reached, and nothing if not (the
/// connection is then closed without a reply).
pub fn connect_reply(connected: bool) -> (reply: Vec<u8>)
    ensures
        connected ==> reply@ == success_reply(),
        !connected ==> reply@ == Seq::<u8>::empty(),
{
    if connected {
        let bytes: [u8; 10] = [5, 0, 0, 1, 0, 0, 0, 0, 0, 0];
        let reply = vstd::slice::slice_to_vec(bytes.as_slice());
        assert(reply@ =~= success_reply());
        reply
    } else {
        Vec::new()
    }
}

/// The bytes of a request for `host`, as far as the port: version, command,
/// reserved byte, address type and address.
pub open spec fn request_for(command: u8, reserved: u8, host: HostView) -> Seq<u8> {
    match host {
        HostView::V4(a) => seq![VERSION, command, reserved, ATYP_V4] + a,
        HostView::V6(a) => seq![VERSION, command, reserved, ATYP_V6] + a,
        HostView::Name(n) => seq![VERSION, command, reserved, ATYP_NAME] + seq![n.len() as u8] + n,
    }
}

/// How a handshake ends.
pub ghost enum Outcome {
    /// The client asked for a connection to this target.
    Connect(TargetView),
    /// The front-end gave the connection up.
    Close(ProxyError),
    /// The client stopped sending in the middle.
    Starved,
}

/// The handshake on a client that sends `stream`, from `phase` on: all that
/// the front-end writes back, and how it ends.
pub open spec fn run(phase: PhaseView, stream: Seq<u8>, creds: CredentialsView) -> (Seq<u8>, Outcome)
    decreases phase.rank(),
    via run_decreases
{
    let n = phase.need() as int;
    if stream.len() < n {
        (Seq::empty(), Outcome::Starved)
    } else {
        let s = step_of(phase, stream.subrange(0, n), creds);
        match s.next {
            NextView::Read(p) => {
                let (replies, outcome) = run(p, stream.skip(n), creds);
                (s.reply + replies, outcome)
            },
            NextView::Connect(t) => (s.reply, Outcome::Connect(t)),
            NextView::Close(e) => (s.reply, Outcome::Close(e)),
        }
    }
}

#[via_fn]
proof fn run_decreases(phase: PhaseView, stream: Seq<u8>, creds: CredentialsView) {
    lemma_step_advances(phase, stream.subrange(0, phase.need() as int), creds);
}

/// The handshake on a client that sends `stream`.
pub open spec fn handshake(stream: Seq<u8>, creds: CredentialsView) -> (Seq<u8>, Outcome) {
    run(PhaseView::Greeting, stream, creds)
}

/// Every step leads to a later phase, so a handshake takes at most eleven
/// reads.
pub proof fn lemma_step_advances(phase: PhaseView, input: Seq<u8>, creds: CredentialsView)
    ensures
        match step_of(phase, input, creds).next {
            NextView::Read(p) => p.rank() < phase.rank(),
            _ => true,
        },
{
}

/// Where credentials are configured, a client whose greeting
/// does not offer the user name and password method is answered `05 FF`,
/// and the connection is given up.
pub proof fn lemma_auth_refused(
    methods: Seq<u8>,
    rest: Seq<u8>,
    creds: CredentialsView,
)
    requires
        creds.required(),
        methods.len() <= 255,
        !methods.contains(METHOD_USER_PASS),
    ensures
        handshake(seq![VERSION, methods.len() as u8] + methods + rest, creds) == (
            seq![5u8, 255u8],
            Outcome::Close(ProxyError::AuthMethodNotOffered),
        ),
{
    let stream = seq![VERSION, methods.len() as u8] + methods + rest;
    let greeting = stream.subrange(0, 2);
    assert(greeting =~= seq![VERSION, methods.len() as u8]);
    let then = PhaseView::Methods { count: methods.len() as u8 };
    assert(step_of(PhaseView::Greeting, greeting, creds) == quiet(then));
    let tail = stream.skip(2);
    assert(tail =~= methods + rest);
    assert(tail.subrange(0, methods.len() as int) =~= methods);
    assert(run(then, tail, creds) == (
        seq![5u8, 255u8],
        Outcome::Close(ProxyError::AuthMethodNotOffered),
    ));
    assert(Seq::<u8>::empty() + seq![5u8, 255u8] =~= seq![5u8, 255u8]);
}

/// No step writes more than two bytes, so none writes the success reply.
pub proof fn lemma_step_reply_short(phase: PhaseView, input: Seq<u8>, creds: CredentialsView)
    ensures
        step_of(phase, input, creds).reply.len() <= 2,
        step_of(phase, input, creds).reply != success_reply(),
{
    assert(success_reply().len() == 10);
}

/// The handshake from `phase` on, where the client's next bytes are
/// `input`, as many as the phase needs, and the step on them reads on:
/// the step's reply, and then the handshake from the next phase on what
/// follows.
proof fn lemma_run_reads_on(
    phase: PhaseView,
    input: Seq<u8>,
    rest: Seq<u8>,
    creds: CredentialsView,
    next: PhaseView,
)
    requires
        input.len() == phase.need(),
        step_of(phase, input, creds).next == NextView::Read(next),
    ensures
        run(phase, input + rest, creds) == (
            step_of(phase, input, creds).reply + run(next, rest, creds).0,
            run(next, rest, creds).1,
        ),
{
    let stream = input + rest;
    assert(stream.subrange(0, input.len() as int) =~= input);
    assert(stream.skip(input.len() as int) =~= rest);
}

/// Method selection without credentials: a greeting of version 5 is
/// answered `05 00`, whatever methods it offers, and the request is read
/// next.
pub proof fn lemma_no_auth_selected(methods: Seq<u8>, rest: Seq<u8>, creds: CredentialsView)
    requires
        !creds.required(),
        methods.len() <= 255,
    ensures
        handshake(seq![VERSION, methods.len() as u8] + methods + rest, creds) == (
            seq![5u8, 0u8] + run(PhaseView::Request, rest, creds).0,
            run(PhaseView::Request, rest, creds).1,
        ),
{
    let greeting = seq![VERSION, methods.len() as u8];
    let offered = PhaseView::Methods { count: methods.len() as u8 };
    assert(greeting + methods + rest =~= greeting + (methods + rest));
    lemma_run_reads_on(PhaseView::Greeting, greeting, methods + rest, creds, offered);
    lemma_run_reads_on(offered, methods, rest, creds, PhaseView::Request);
    assert(Seq::<u8>::empty() + (seq![5u8, 0u8] + run(PhaseView::Request, rest, creds).0)
        =~= seq![5u8, 0u8] + run(PhaseView::Request, rest, creds).0);
}

/// Authentication: a client that offers the user name and password method
/// and then presents the configured user name and password is answered
/// `05 02` and `01 00`, and the request is read next.
pub proof fn lemma_auth_accepted(
    methods: Seq<u8>,
    user: Seq<u8>,
    pass: Seq<u8>,
    rest: Seq<u8>,
)
    requires
        methods.len() <= 255,
        methods.contains(METHOD_USER_PASS),
        user.len() <= 255,
        pass.len() <= 255,
    ensures
        ({
            let creds = CredentialsView { user: Some(user), pass: Some(pass) };
            let stream = seq![VERSION, methods.len() as u8] + methods + seq![
                AUTH_VERSION,
                user.len() as u8,
            ] + user + seq![pass.len() as u8] + pass + rest;
            handshake(stream, creds) == (
                seq![5u8, 2u8, 1u8, 0u8] + run(PhaseView::Request, rest, creds).0,
                run(PhaseView::Request, rest, creds).1,
            )
        }),
{
    let creds = CredentialsView { user: Some(user), pass: Some(pass) };
    let greeting = seq![VERSION, methods.len() as u8];
    let version = seq![AUTH_VERSION];
    let ulen = seq![user.len() as u8];
    let plen = seq![pass.len() as u8];
    let stream = greeting + methods + seq![AUTH_VERSION, user.len() as u8] + user + plen + pass
        + rest;
    let r5 = pass + rest;
    let r4 = plen + r5;
    let r3 = user + r4;
    let r2 = ulen + r3;
    let r1 = version + r2;
    let r0 = methods + r1;
    assert(stream =~= greeting + r0);
    let tail = run(PhaseView::Request, rest, creds);
    let offered = PhaseView::Methods { count: methods.len() as u8 };
    lemma_run_reads_on(PhaseView::Greeting, greeting, r0, creds, offered);
    lemma_run_reads_on(offered, methods, r1, creds, PhaseView::AuthVersion);
    lemma_run_reads_on(PhaseView::AuthVersion, version, r2, creds, PhaseView::UserLength);
    let named = PhaseView::User { length: user.len() as u8 };
    lemma_run_reads_on(PhaseView::UserLength, ulen, r3, creds, named);
    let known = PhaseView::PassLength { user_ok: true };
    lemma_run_reads_on(named, user, r4, creds, known);
    let secret = PhaseView::Pass { user_ok: true, length: pass.len() as u8 };
    lemma_run_reads_on(known, plen, r5, creds, secret);
    lemma_run_reads_on(secret, pass, rest, creds, PhaseView::Request);
    let none = Seq::<u8>::empty();
    assert(none + (seq![5u8, 2u8] + (none + (none + (none + (none + (seq![1u8, 0u8] + tail.0))))))
        =~= seq![5u8, 2u8, 1u8, 0u8] + tail.0);
}

/// How a complete request ends, by its command.
pub open spec fn request_outcome(command: u8, host: HostView, hi: u8, lo: u8) -> Outcome {
    if command == CMD_CONNECT {
        Outcome::Connect(TargetView { host, port: port_of(hi, lo) })
    } else if command == CMD_UDP_ASSOCIATE {
        Outcome::Close(ProxyError::UdpAssocNotSupported)
    } else {
        Outcome::Close(ProxyError::UnsupportedCmd)
    }
}

/// The request: for an IPv4 address, a domain name or an IPv6 address,
/// `CONNECT` leads to a connection to that host and port, UDP ASSOCIATE
/// and every other command to the end of the connection. Nothing is
/// replied in either case: a reply comes only when the destination is
/// reached.
pub proof fn lemma_request(
    command: u8,
    reserved: u8,
    host: HostView,
    hi: u8,
    lo: u8,
    rest: Seq<u8>,
    creds: CredentialsView,
)
    requires
        match host {
            HostView::V4(a) => a.len() == 4,
            HostView::V6(a) => a.len() == 16,
            HostView::Name(n) => n.len() <= 255,
        },
    ensures
        run(PhaseView::Request, request_for(command, reserved, host) + seq![hi, lo] + rest, creds)
            == (Seq::<u8>::empty(), request_outcome(command, host, hi, lo)),
{
    let none = Seq::<u8>::empty();
    let port = seq![hi, lo];
    let stream = request_for(command, reserved, host) + port + rest;
    let after_port = PhaseView::Port { command, host };
    assert((port + rest).subrange(0, 2) =~= port);
    assert(run(after_port, port + rest, creds) == (none, request_outcome(command, host, hi, lo)));
    match host {
        HostView::V4(a) => {
            let head = seq![VERSION, command, reserved, ATYP_V4];
            assert(stream =~= head + (a + (port + rest)));
            let addr = PhaseView::AddressV4 { command };
            lemma_run_reads_on(PhaseView::Request, head, a + (port + rest), creds, addr);
            lemma_run_reads_on(addr, a, port + rest, creds, after_port);
            assert(none + (none + none) =~= none);
        },
        HostView::V6(a) => {
            let head = seq![VERSION, command, reserved, ATYP_V6];
            assert(stream =~= head + (a + (port + rest)));
            let addr = PhaseView::AddressV6 { command };
            lemma_run_reads_on(PhaseView::Request, head, a + (port + rest), creds, addr);
            lemma_run_reads_on(addr, a, port + rest, creds, after_port);
            assert(none + (none + none) =~= none);
        },
        HostView::Name(n) => {
            let head = seq![VERSION, command, reserved, ATYP_NAME];
            let len = seq![n.len() as u8];
            assert(stream =~= head + (len + (n + (port + rest))));
            let length = PhaseView::NameLength { command };
            let name = PhaseView::Name { command, length: n.len() as u8 };
            lemma_run_reads_on(PhaseView::Request, head, len + (n + (port + rest)), creds, length);
            lemma_run_reads_on(length, len, n + (port + rest), creds, name);
            lemma_run_reads_on(name, n, port + rest, creds, after_port);
            assert(none + (none + (none + none)) =~= none);
        },
    }
}

} // verus!
