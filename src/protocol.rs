use vstd::prelude::*;
use vstd::utf8::encode_utf8;
use crate::command::{WCommand, WLocation};
use crate::text::{i32_of, parse_i32, parse_u8, string_views, trim_of, trimmed, u8_of};

verus! {

/// The byte that a presence check sends, and that the responder echoes.
pub const PRESENCE: u8 = 1;

/// The selection byte that means that the operator chose no candidate.
pub const CANCEL: u8 = 255;

/// The four bytes of the handshake, `WYDY`, which the responder echoes.
pub open spec fn magic() -> Seq<u8> {
    seq![87u8, 89u8, 68u8, 89u8]
}

/// The location flag sent after a command: `2` where the requester would rather
/// run it itself, `1` otherwise.
pub open spec fn location_flag(locally: bool) -> u8 {
    if locally {
        2
    } else {
        1
    }
}

/// What ends a session: the peer fell out of step with the protocol.
#[derive(Clone, Copy, Debug, PartialEq, Eq, Structural)]
pub enum ProtocolError {
    /// The responder did not echo the handshake.
    HandshakeFailed,
    /// The responder did not echo a presence byte.
    PresenceMismatch,
    /// The status of a remote run is no decimal `i32`.
    MalformedStatus,
    /// An event came that the session was not waiting for.
    Unexpected,
}

/// How an exchange ended.
#[derive(Clone, Copy, Debug, PartialEq, Eq, Structural)]
pub enum Outcome {
    /// The handshake succeeded; the session is ready for requests.
    Connected,
    /// The responder only produced output.
    OutputOnly,
    /// A command ran, here or on the responder, with this exit code.
    Executed(i32),
    /// The operator chose no candidate.
    Cancelled,
    /// The responder sent a code that the protocol does not know.
    InvalidResponse(u8),
    /// The session failed and cannot be used any more.
    Failed(ProtocolError),
}

/// What to do after the bytes of an action are written.
pub enum Next {
    /// Read this many bytes and hand them back as `Event::Bytes`.
    Read(usize),
    /// Read one line and hand it back as `Event::Line`.
    ReadLine,
    /// Show these descriptions as a menu numbered from 1, with an exit entry, read
    /// the operator's answer and hand it back as `Event::Choice`.
    Choose(Vec<String>),
    /// Run this command here and hand back its exit code as `Event::Exited`.
    Run(WCommand),
    /// The exchange is over.
    Done(Outcome),
}

/// One step of work for the side that holds the connection: show `show` if there
/// is one, write `send`, then do `next`.
pub struct Action {
    pub show: Option<String>,
    pub send: Vec<u8>,
    pub next: Next,
}

/// What happened since the last action.
pub enum Event {
    /// The connection was opened.
    Opened,
    /// The operator asks for a command, and whether it should preferably run here.
    Request(String, bool),
    /// Bytes read from the responder.
    Bytes(Vec<u8>),
    /// A line read from the responder, with its line break.
    Line(String),
    /// The line that the operator typed at the menu.
    Choice(String),
    /// A command run here ended with this exit code.
    Exited(i32),
}

/// Where the requester stands in the protocol.
pub enum Phase {
    Disconnected,
    /// The handshake was written; its echo is awaited.
    Handshaking,
    /// Ready for a request.
    Idle,
    /// A presence byte was written before this command.
    CommandPresence { command: String, locally: bool },
    /// The command was written; the response code is awaited.
    AwaitResponse,
    /// The number of candidates is awaited.
    AwaitCount,
    /// Candidate descriptions are being read.
    ReadingChoices { total: u8, descs: Vec<String> },
    /// The operator's choice among `total` candidates is awaited.
    AwaitChoice { total: u8 },
    /// A presence byte was written before the run location.
    LocationPresence,
    /// The run location is awaited.
    AwaitLocation,
    /// The command to run here is awaited.
    AwaitLocalCommand,
    /// The description of the command to run here is awaited.
    AwaitLocalDesc { command: String },
    /// The command runs here.
    RunningLocally,
    /// The description of the remote run is awaited.
    AwaitRemoteDesc,
    /// A presence byte was written before the status.
    StatusPresence,
    /// The status of the remote run is awaited.
    AwaitStatus,
    /// The session failed.
    Failed(ProtocolError),
}

/// The byte of a one-byte read.
pub open spec fn one_byte(b: Seq<u8>) -> Option<u8> {
    if b.len() == 1 {
        Some(b[0])
    } else {
        None
    }
}

/// The action shows nothing, writes `bytes`, then does `next`.
pub open spec fn sends_then(a: Action, bytes: Seq<u8>, next: Next) -> bool {
    a.show is None && a.send@ == bytes && a.next == next
}

/// The action ends the exchange with `o` and writes nothing.
pub open spec fn finishes(a: Action, o: Outcome) -> bool {
    sends_then(a, Seq::empty(), Next::Done(o))
}

/// The action writes nothing and offers the descriptions `descs` to the operator.
pub open spec fn offers(a: Action, descs: Seq<Seq<char>>) -> bool {
    &&& a.show is None
    &&& a.send@.len() == 0
    &&& a.next matches Next::Choose(m) && string_views(m@) == descs
}

/// The action writes nothing and runs a command with this view here.
pub open spec fn runs(a: Action, command: Seq<char>, desc: Seq<char>) -> bool {
    &&& a.show is None
    &&& a.send@.len() == 0
    &&& a.next matches Next::Run(c) && c@ == (command, desc, WLocation::Client)
}

/// The session fails with `err`.
pub open spec fn fails(q: Phase, a: Action, err: ProtocolError) -> bool {
    q == Phase::Failed(err) && finishes(a, Outcome::Failed(err))
}

/// The index that the operator's answer selects among `total` candidates: the
/// trimmed answer read as a `u8`, where it lies from 1 to `total`.
pub open spec fn selection(answer: Seq<char>, total: u8) -> Option<u8> {
    match u8_of(trim_of(answer)) {
        Some(k) => if 1 <= k <= total {
            Some(k)
        } else {
            None
        },
        None => None,
    }
}

/// The requester's protocol: from phase `p`, event `e` leads to phase `q` and
/// action `a`.
pub open spec fn step_spec(p: Phase, e: Event, q: Phase, a: Action) -> bool {
    match (p, e) {
        (Phase::Failed(err), _) => fails(q, a, err),
        (Phase::Disconnected, Event::Opened) => q == Phase::Handshaking && sends_then(
            a,
            magic(),
            Next::Read(4),
        ),
        (Phase::Handshaking, Event::Bytes(b)) => if b@ == magic() {
            q == Phase::Idle && finishes(a, Outcome::Connected)
        } else {
            fails(q, a, ProtocolError::HandshakeFailed)
        },
        (Phase::Idle, Event::Request(command, locally)) => q == Phase::CommandPresence {
            command,
            locally,
        } && sends_then(a, seq![PRESENCE], Next::Read(1)),
        (Phase::CommandPresence { command, locally }, Event::Bytes(b)) => if one_byte(b@) == Some(
            PRESENCE,
        ) {
            q == Phase::AwaitResponse && sends_then(
                a,
                encode_utf8(command@) + seq![10u8, location_flag(locally)],
                Next::Read(1),
            )
        } else {
            fails(q, a, ProtocolError::PresenceMismatch)
        },
        (Phase::AwaitResponse, Event::Bytes(b)) => match one_byte(b@) {
            Some(1) => q == Phase::LocationPresence && sends_then(a, seq![PRESENCE], Next::Read(1)),
            Some(2) => q == Phase::AwaitCount && sends_then(a, Seq::empty(), Next::Read(1)),
            Some(3) => q == Phase::Idle && finishes(a, Outcome::OutputOnly),
            Some(x) => q == Phase::Idle && finishes(a, Outcome::InvalidResponse(x)),
            None => fails(q, a, ProtocolError::Unexpected),
        },
        (Phase::AwaitCount, Event::Bytes(b)) => match one_byte(b@) {
            Some(0) => q == Phase::AwaitChoice { total: 0 } && offers(a, Seq::empty()),
            Some(n) => q matches Phase::ReadingChoices { total, descs } && total == n
                && descs@.len() == 0 && sends_then(a, Seq::empty(), Next::ReadLine),
            None => fails(q, a, ProtocolError::Unexpected),
        },
        (Phase::ReadingChoices { total, descs }, Event::Line(l)) => {
            let got = string_views(descs@).push(trim_of(l@));
            if got.len() >= total {
                q == Phase::AwaitChoice { total } && offers(a, got)
            } else {
                q matches Phase::ReadingChoices { total: t, descs: d } && t == total
                    && string_views(d@) == got && sends_then(a, Seq::empty(), Next::ReadLine)
            }
        },
        (Phase::AwaitChoice { total }, Event::Choice(answer)) => match selection(answer@, total) {
            Some(k) => q == Phase::LocationPresence && sends_then(
                a,
                seq![k, PRESENCE],
                Next::Read(1),
            ),
            None => q == Phase::Idle && sends_then(
                a,
                seq![CANCEL],
                Next::Done(Outcome::Cancelled),
            ),
        },
        (Phase::LocationPresence, Event::Bytes(b)) => if one_byte(b@) == Some(PRESENCE) {
            q == Phase::AwaitLocation && sends_then(a, Seq::empty(), Next::Read(1))
        } else {
            fails(q, a, ProtocolError::PresenceMismatch)
        },
        (Phase::AwaitLocation, Event::Bytes(b)) => match one_byte(b@) {
            Some(1) => q == Phase::AwaitLocalCommand && sends_then(a, Seq::empty(), Next::ReadLine),
            Some(2) => q == Phase::AwaitRemoteDesc && sends_then(a, Seq::empty(), Next::ReadLine),
            Some(x) => q == Phase::Idle && finishes(a, Outcome::InvalidResponse(x)),
            None => fails(q, a, ProtocolError::Unexpected),
        },
        (Phase::AwaitLocalCommand, Event::Line(l)) => q == Phase::AwaitLocalDesc { command: l }
            && sends_then(a, Seq::empty(), Next::ReadLine),
        (Phase::AwaitLocalDesc { command }, Event::Line(d)) => q == Phase::RunningLocally && runs(
            a,
            command@,
            d@,
        ),
        (Phase::RunningLocally, Event::Exited(code)) => q == Phase::Idle && finishes(
            a,
            Outcome::Executed(code),
        ),
        (Phase::AwaitRemoteDesc, Event::Line(d)) => {
            &&& q == Phase::StatusPresence
            &&& a.show matches Some(s) && s@ == d@
            &&& a.send@ == seq![PRESENCE]
            &&& a.next == Next::Read(1)
        },
        (Phase::StatusPresence, Event::Bytes(b)) => if one_byte(b@) == Some(PRESENCE) {
            q == Phase::AwaitStatus && sends_then(a, Seq::empty(), Next::ReadLine)
        } else {
            fails(q, a, ProtocolError::PresenceMismatch)
        },
        (Phase::AwaitStatus, Event::Line(l)) => match i32_of(trim_of(l@)) {
            Some(v) => q == Phase::Idle && finishes(a, Outcome::Executed(v)),
            None => fails(q, a, ProtocolError::MalformedStatus),
        },
        _ => fails(q, a, ProtocolError::Unexpected),
    }
}

fn byte_of(b: &Vec<u8>) -> (r: Option<u8>)
    ensures
        r == one_byte(b@),
{
    if b.len() == 1 {
        Some(b[0])
    } else {
        None
    }
}

fn act(send: Vec<u8>, next: Next) -> (a: Action)
    ensures
        a.show is None,
        a.send == send,
        a.next == next,
{
    Action { show: None, send, next }
}

fn finish(o: Outcome) -> (a: Action)
    ensures
        finishes(a, o),
{
    act(Vec::new(), Next::Done(o))
}

fn fail(err: ProtocolError) -> (r: (Phase, Action))
    ensures
        fails(r.0, r.1, err),
{
    (Phase::Failed(err), finish(Outcome::Failed(err)))
}

fn presence_then(next: Next) -> (a: Action)
    ensures
        sends_then(a, seq![PRESENCE], next),
{
    let mut send = Vec::new();
    send.push(PRESENCE);
    act(send, next)
}

fn handshake() -> (a: Action)
    ensures
        sends_then(a, magic(), Next::Read(4)),
{
    let mut send = Vec::new();
    send.push(87u8);
    send.push(89u8);
    send.push(68u8);
    send.push(89u8);
    assert(send@ =~= magic());
    act(send, Next::Read(4))
}

fn is_magic(b: &Vec<u8>) -> (r: bool)
    ensures
        r == (b@ == magic()),
{
    let r = b.len() == 4 && b[0] == 87u8 && b[1] == 89u8 && b[2] == 68u8 && b[3] == 89u8;
    if r {
        assert(b@ =~= magic());
    }
    r
}

/// The command line and its location flag, as written to the responder.
fn command_bytes(command: &String, locally: bool) -> (r: Vec<u8>)
    ensures
        r@ == encode_utf8(command@) + seq![10u8, location_flag(locally)],
{
    let mut send = command.as_str().as_bytes_vec();
    send.push(10u8);
    send.push(if locally { 2u8 } else { 1u8 });
    assert(send@ =~= encode_utf8(command@) + seq![10u8, location_flag(locally)]);
    send
}

/// The requester's protocol, one event at a time.
pub fn transition(p: Phase, e: Event) -> (r: (Phase, Action))
    ensures
        step_spec(p, e, r.0, r.1),
{
    match p {
        Phase::Failed(err) => fail(err),
        Phase::Disconnected => match e {
            Event::Opened => (Phase::Handshaking, handshake()),
            _ => fail(ProtocolError::Unexpected),
        },
        Phase::Handshaking => match e {
            Event::Bytes(b) => if is_magic(&b) {
                (Phase::Idle, finish(Outcome::Connected))
            } else {
                fail(ProtocolError::HandshakeFailed)
            },
            _ => fail(ProtocolError::Unexpected),
        },
        Phase::Idle => match e {
            Event::Request(command, locally) => (
                Phase::CommandPresence { command, locally },
                presence_then(Next::Read(1)),
            ),
            _ => fail(ProtocolError::Unexpected),
        },
        Phase::CommandPresence { command, locally } => match e {
            Event::Bytes(b) => if byte_of(&b) == Some(PRESENCE) {
                (Phase::AwaitResponse, act(command_bytes(&command, locally), Next::Read(1)))
            } else {
                fail(ProtocolError::PresenceMismatch)
            },
            _ => fail(ProtocolError::Unexpected),
        },
        Phase::AwaitResponse => match e {
            Event::Bytes(b) => match byte_of(&b) {
                Some(1) => (Phase::LocationPresence, presence_then(Next::Read(1))),
                Some(2) => (Phase::AwaitCount, act(Vec::new(), Next::Read(1))),
                Some(3) => (Phase::Idle, finish(Outcome::OutputOnly)),
                Some(x) => (Phase::Idle, finish(Outcome::InvalidResponse(x))),
                None => fail(ProtocolError::Unexpected),
            },
            _ => fail(ProtocolError::Unexpected),
        },
        Phase::AwaitCount => match e {
            Event::Bytes(b) => match byte_of(&b) {
                Some(0) => {
                    let none: Vec<String> = Vec::new();
                    assert(string_views(none@) =~= Seq::<Seq<char>>::empty());
                    (Phase::AwaitChoice { total: 0 }, act(Vec::new(), Next::Choose(none)))
                },
                Some(n) => (
                    Phase::ReadingChoices { total: n, descs: Vec::new() },
                    act(Vec::new(), Next::ReadLine),
                ),
                None => fail(ProtocolError::Unexpected),
            },
            _ => fail(ProtocolError::Unexpected),
        },
        Phase::ReadingChoices { total, descs } => match e {
            Event::Line(l) => {
                let mut descs = descs;
                let ghost before = descs@;
                descs.push(trimmed(l.as_str()));
                assert(string_views(descs@) =~= string_views(before).push(trim_of(l@)));
                if descs.len() >= total as usize {
                    (Phase::AwaitChoice { total }, act(Vec::new(), Next::Choose(descs)))
                } else {
                    (Phase::ReadingChoices { total, descs }, act(Vec::new(), Next::ReadLine))
                }
            },
            _ => fail(ProtocolError::Unexpected),
        },
        Phase::AwaitChoice { total } => match e {
            Event::Choice(answer) => {
                let t = trimmed(answer.as_str());
                match parse_u8(t.as_str()) {
                    Some(k) if 1 <= k && k <= total => {
                        let mut send = Vec::new();
                        send.push(k);
                        send.push(PRESENCE);
                        assert(send@ =~= seq![k, PRESENCE]);
                        (Phase::LocationPresence, act(send, Next::Read(1)))
                    },
                    _ => {
                        let mut send = Vec::new();
                        send.push(CANCEL);
                        assert(send@ =~= seq![CANCEL]);
                        (Phase::Idle, act(send, Next::Done(Outcome::Cancelled)))
                    },
                }
            },
            _ => fail(ProtocolError::Unexpected),
        },
        Phase::LocationPresence => match e {
            Event::Bytes(b) => if byte_of(&b) == Some(PRESENCE) {
                (Phase::AwaitLocation, act(Vec::new(), Next::Read(1)))
            } else {
                fail(ProtocolError::PresenceMismatch)
            },
            _ => fail(ProtocolError::Unexpected),
        },
        Phase::AwaitLocation => match e {
            Event::Bytes(b) => match byte_of(&b) {
                Some(1) => (Phase::AwaitLocalCommand, act(Vec::new(), Next::ReadLine)),
                Some(2) => (Phase::AwaitRemoteDesc, act(Vec::new(), Next::ReadLine)),
                Some(x) => (Phase::Idle, finish(Outcome::InvalidResponse(x))),
                None => fail(ProtocolError::Unexpected),
            },
            _ => fail(ProtocolError::Unexpected),
        },
        Phase::AwaitLocalCommand => match e {
            Event::Line(l) => (Phase::AwaitLocalDesc { command: l }, act(Vec::new(), Next::ReadLine)),
            _ => fail(ProtocolError::Unexpected),
        },
        Phase::AwaitLocalDesc { command } => match e {
            Event::Line(d) => (
                Phase::RunningLocally,
                act(Vec::new(), Next::Run(WCommand::new(command, d, WLocation::Client))),
            ),
            _ => fail(ProtocolError::Unexpected),
        },
        Phase::RunningLocally => match e {
            Event::Exited(code) => (Phase::Idle, finish(Outcome::Executed(code))),
            _ => fail(ProtocolError::Unexpected),
        },
        Phase::AwaitRemoteDesc => match e {
            Event::Line(d) => {
                let mut send = Vec::new();
                send.push(PRESENCE);
                (Phase::StatusPresence, Action { show: Some(d), send, next: Next::Read(1) })
            },
            _ => fail(ProtocolError::Unexpected),
        },
        Phase::StatusPresence => match e {
            Event::Bytes(b) => if byte_of(&b) == Some(PRESENCE) {
                (Phase::AwaitStatus, act(Vec::new(), Next::ReadLine))
            } else {
                fail(ProtocolError::PresenceMismatch)
            },
            _ => fail(ProtocolError::Unexpected),
        },
        Phase::AwaitStatus => match e {
            Event::Line(l) => {
                let t = trimmed(l.as_str());
                match parse_i32(t.as_str()) {
                    Some(v) => (Phase::Idle, finish(Outcome::Executed(v))),
                    None => fail(ProtocolError::MalformedStatus),
                }
            },
            _ => fail(ProtocolError::Unexpected),
        },
    }
}

/// A requester's session: the protocol phase of one connection.
pub struct Session {
    phase: Phase,
}

impl Session {
    /// A session whose connection is not open yet.
    pub fn new() -> (r: Session)
        ensures
            r.phase() == Phase::Disconnected,
    {
        Session { phase: Phase::Disconnected }
    }

    pub closed spec fn phase(&self) -> Phase {
        self.phase
    }

    /// Take one event and give the action that follows it.
    pub fn step(&mut self, e: Event) -> (a: Action)
        ensures
            step_spec(old(self).phase(), e, final(self).phase(), a),
    {
        let mut p = Phase::Disconnected;
        std::mem::swap(&mut p, &mut self.phase);
        let (q, a) = transition(p, e);
        self.phase = q;
        a
    }

    /// The connection is ready for a request.
    pub fn is_idle(&self) -> (r: bool)
        ensures
            r == (self.phase() == Phase::Idle),
    {
        match self.phase {
            Phase::Idle => true,
            _ => false,
        }
    }

    /// The session failed, and with which error.
    pub fn failure(&self) -> (r: Option<ProtocolError>)
        ensures
            r == (match self.phase() {
                Phase::Failed(err) => Some(err),
                _ => None,
            }),
    {
        match self.phase {
            Phase::Failed(err) => Some(err),
            _ => None,
        }
    }
}

/// The phases of a run of steps: each event of `events` takes `phases[k]` to
/// `phases[k + 1]` with action `actions[k]`.
pub open spec fn is_run(phases: Seq<Phase>, events: Seq<Event>, actions: Seq<Action>) -> bool {
    &&& phases.len() == events.len() + 1
    &&& actions.len() == events.len()
    &&& forall|k: int|
        0 <= k < events.len() ==> step_spec(
            #[trigger] phases[k],
            events[k],
            phases[k + 1],
            actions[k],
        )
}

proof fn lemma_failed_stays(
    phases: Seq<Phase>,
    events: Seq<Event>,
    actions: Seq<Action>,
    err: ProtocolError,
    k: int,
)
    requires
        is_run(phases, events, actions),
        phases.len() > 1,
        phases[1] == Phase::Failed(err),
        1 <= k < phases.len(),
    ensures
        phases[k] == Phase::Failed(err),
    decreases k,
{
    if k > 1 {
        lemma_failed_stays(phases, events, actions, err, k - 1);
        assert(step_spec(phases[k - 1], events[k - 1], phases[k], actions[k - 1]));
    }
}

/// When the responder does not echo the handshake, the session fails with
/// `HandshakeFailed` and writes nothing more, whatever events follow: no command
/// is ever sent.
pub proof fn lemma_handshake_mismatch(
    phases: Seq<Phase>,
    events: Seq<Event>,
    actions: Seq<Action>,
    echo: Vec<u8>,
)
    requires
        is_run(phases, events, actions),
        events.len() > 0,
        phases[0] == Phase::Handshaking,
        events[0] == Event::Bytes(echo),
        echo@ != magic(),
    ensures
        phases.last() == Phase::Failed(ProtocolError::HandshakeFailed),
        forall|k: int|
            0 <= k < actions.len() ==> (#[trigger] actions[k]).send@.len() == 0
                && actions[k].next == Next::Done(Outcome::Failed(ProtocolError::HandshakeFailed)),
{
    let err = ProtocolError::HandshakeFailed;
    assert(step_spec(phases[0], events[0], phases[1], actions[0]));
    assert forall|k: int| 0 <= k < actions.len() implies (#[trigger] actions[k]).send@.len() == 0
        && actions[k].next == Next::Done(Outcome::Failed(err)) by {
        if k > 0 {
            lemma_failed_stays(phases, events, actions, err, k);
            assert(step_spec(phases[k], events[k], phases[k + 1], actions[k]));
        }
    }
    lemma_failed_stays(phases, events, actions, err, phases.len() - 1);
}

/// The operator's answer at the menu: an index from 1 to the number of candidates
/// writes that index and goes on to the single-action exchange with a presence
/// check; any other answer, or one that is no number, writes only the cancel byte
/// and ends the exchange, the session idle again.
pub proof fn lemma_selection(total: u8, answer: String, q: Phase, a: Action)
    requires
        step_spec(Phase::AwaitChoice { total }, Event::Choice(answer), q, a),
    ensures
        match selection(answer@, total) {
            Some(k) => {
                &&& 1 <= k <= total
                &&& a.send@ == seq![k, PRESENCE]
                &&& q == Phase::LocationPresence
            },
            None => {
                &&& a.send@ == seq![CANCEL]
                &&& a.next == Next::Done(Outcome::Cancelled)
                &&& q == Phase::Idle
            },
        },
{
}

} // verus!
