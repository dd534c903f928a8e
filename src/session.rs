//! The life of one tunnel: the decisions taken on each event of the inbound
//! transport and the upstream connection. The caller performs the actions
//! and reports what happened as the next event.
use vstd::prelude::*;
use crate::address::{copy_range, AddressModel, TargetAddress};
use crate::handshake::{
    handshake_spec, parse_handshake, trojan_shaped, vless_shaped, ClientHandshake, HandshakeError,
    HandshakeModel, Protocol,
};

verus! {

/// The phase a session is in.
#[derive(Clone, Copy, Debug, PartialEq, Eq, Structural)]
pub enum SessionState {
    Handshaking,
    Connecting,
    Relaying,
    Closed,
}

/// Why a session closed, where it was not a plain close by either side.
#[derive(Clone, Copy, Debug, PartialEq, Eq, Structural)]
pub enum SessionError {
    Handshake(HandshakeError),
    UpstreamConnect,
    RelayIo,
}

/// Where the outbound connection goes.
#[derive(Debug)]
pub enum Endpoint {
    Target(TargetAddress),
    Egress(String, u16),
}

/// Something that happened on either side of the session.
#[derive(Debug)]
pub enum Event {
    ClientData(Vec<u8>),
    UpstreamData(Vec<u8>),
    Connected,
    ConnectFailed,
    ClientClosed,
    UpstreamClosed,
    IoError,
}

/// Something the caller must do, in order.
#[derive(Debug)]
pub enum Action {
    Connect(Endpoint),
    WriteClient(Vec<u8>),
    WriteUpstream(Vec<u8>),
    CloseBoth,
}

pub enum EndpointModel {
    Target(AddressModel),
    Egress(Seq<char>, u16),
}

pub enum EventModel {
    ClientData(Seq<u8>),
    UpstreamData(Seq<u8>),
    Connected,
    ConnectFailed,
    ClientClosed,
    UpstreamClosed,
    IoError,
}

pub enum ActionModel {
    Connect(EndpointModel),
    WriteClient(Seq<u8>),
    WriteUpstream(Seq<u8>),
    CloseBoth,
}

impl View for Endpoint {
    type V = EndpointModel;

    open spec fn view(&self) -> EndpointModel {
        match self {
            Endpoint::Target(t) => EndpointModel::Target(t@),
            Endpoint::Egress(h, p) => EndpointModel::Egress(h@, *p),
        }
    }
}

impl View for Event {
    type V = EventModel;

    open spec fn view(&self) -> EventModel {
        match self {
            Event::ClientData(d) => EventModel::ClientData(d@),
            Event::UpstreamData(d) => EventModel::UpstreamData(d@),
            Event::Connected => EventModel::Connected,
            Event::ConnectFailed => EventModel::ConnectFailed,
            Event::ClientClosed => EventModel::ClientClosed,
            Event::UpstreamClosed => EventModel::UpstreamClosed,
            Event::IoError => EventModel::IoError,
        }
    }
}

impl View for Action {
    type V = ActionModel;

    open spec fn view(&self) -> ActionModel {
        match self {
            Action::Connect(e) => ActionModel::Connect(e@),
            Action::WriteClient(d) => ActionModel::WriteClient(d@),
            Action::WriteUpstream(d) => ActionModel::WriteUpstream(d@),
            Action::CloseBoth => ActionModel::CloseBoth,
        }
    }
}

/// One session. `ack` and `pending` hold what is sent to the client and to
/// the upstream once the connection stands; the counters never go down.
#[derive(Debug)]
pub struct TunnelSession {
    pub state: SessionState,
    pub credential: [u8; 16],
    pub trojan_digest: Vec<u8>,
    pub egress: Option<(String, u16)>,
    pub ack: Vec<u8>,
    pub pending: Vec<u8>,
    pub connects: u8,
    pub bytes_up: u64,
    pub bytes_down: u64,
    pub error: Option<SessionError>,
}

pub struct SessionModel {
    pub state: SessionState,
    pub credential: Seq<u8>,
    pub trojan_digest: Seq<u8>,
    pub egress: Option<(Seq<char>, u16)>,
    pub ack: Seq<u8>,
    pub pending: Seq<u8>,
    pub connects: u8,
    pub bytes_up: u64,
    pub bytes_down: u64,
    pub error: Option<SessionError>,
}

impl View for TunnelSession {
    type V = SessionModel;

    open spec fn view(&self) -> SessionModel {
        SessionModel {
            state: self.state,
            credential: self.credential@,
            trojan_digest: self.trojan_digest@,
            egress: self.egress.deep_view(),
            ack: self.ack@,
            pending: self.pending@,
            connects: self.connects,
            bytes_up: self.bytes_up,
            bytes_down: self.bytes_down,
            error: self.error,
        }
    }
}

/// A counter advanced by `n`, stopping at its largest value.
pub open spec fn counter_add(c: u64, n: int) -> u64 {
    if c + n > u64::MAX {
        u64::MAX
    } else {
        (c + n) as u64
    }
}

/// The acknowledgement a variant sends once the upstream connection stands:
/// the version and a zero byte for VLess, nothing for the others.
pub open spec fn ack_for(h: HandshakeModel) -> Seq<u8> {
    if h.protocol == Protocol::Vless {
        seq![h.version, 0u8]
    } else {
        Seq::empty()
    }
}

/// The destination: the egress override where one was resolved, else the
/// target the client asked for.
pub open spec fn destination(egress: Option<(Seq<char>, u16)>, target: AddressModel) -> EndpointModel {
    match egress {
        Some((h, p)) => EndpointModel::Egress(h, p),
        None => EndpointModel::Target(target),
    }
}

/// The session closed with the given error.
pub open spec fn closed_with(m: SessionModel, error: Option<SessionError>) -> SessionModel {
    SessionModel { state: SessionState::Closed, error, ..m }
}

/// The next state and the actions, for a session in state `m` that sees `e`.
/// The handshake is read from the first chunk of client data: a header cut
/// short there is a truncated, malformed header, and the session closes.
pub open spec fn next(m: SessionModel, e: EventModel) -> (SessionModel, Seq<ActionModel>) {
    match m.state {
        SessionState::Closed => (m, Seq::empty()),
        SessionState::Handshaking => match e {
            EventModel::ClientData(b) => match handshake_spec(b, m.credential, m.trojan_digest) {
                Err(err) => (
                    closed_with(m, Some(SessionError::Handshake(err))),
                    seq![ActionModel::CloseBoth],
                ),
                Ok(h) => (
                    SessionModel {
                        state: SessionState::Connecting,
                        connects: (m.connects + 1) as u8,
                        ack: ack_for(h),
                        pending: b.subrange(h.payload_offset as int, b.len() as int),
                        ..m
                    },
                    seq![ActionModel::Connect(destination(m.egress, h.target))],
                ),
            },
            EventModel::ClientClosed | EventModel::UpstreamClosed => (
                closed_with(m, None),
                seq![ActionModel::CloseBoth],
            ),
            EventModel::IoError => (
                closed_with(m, Some(SessionError::RelayIo)),
                seq![ActionModel::CloseBoth],
            ),
            _ => (m, Seq::empty()),
        },
        SessionState::Connecting => match e {
            EventModel::Connected => (
                SessionModel {
                    state: SessionState::Relaying,
                    ack: Seq::empty(),
                    pending: Seq::empty(),
                    bytes_up: counter_add(m.bytes_up, m.pending.len() as int),
                    ..m
                },
                (if m.ack.len() > 0 {
                    seq![ActionModel::WriteClient(m.ack)]
                } else {
                    Seq::empty()
                }) + (if m.pending.len() > 0 {
                    seq![ActionModel::WriteUpstream(m.pending)]
                } else {
                    Seq::empty()
                }),
            ),
            EventModel::ConnectFailed => (
                closed_with(m, Some(SessionError::UpstreamConnect)),
                seq![ActionModel::CloseBoth],
            ),
            EventModel::ClientData(d) => (SessionModel { pending: m.pending + d, ..m }, Seq::empty()),
            EventModel::ClientClosed | EventModel::UpstreamClosed => (
                closed_with(m, None),
                seq![ActionModel::CloseBoth],
            ),
            EventModel::IoError => (
                closed_with(m, Some(SessionError::RelayIo)),
                seq![ActionModel::CloseBoth],
            ),
            _ => (m, Seq::empty()),
        },
        SessionState::Relaying => match e {
            EventModel::ClientData(d) => (
                SessionModel { bytes_up: counter_add(m.bytes_up, d.len() as int), ..m },
                seq![ActionModel::WriteUpstream(d)],
            ),
            EventModel::UpstreamData(d) => (
                SessionModel { bytes_down: counter_add(m.bytes_down, d.len() as int), ..m },
                seq![ActionModel::WriteClient(d)],
            ),
            EventModel::ClientClosed | EventModel::UpstreamClosed => (
                closed_with(m, None),
                seq![ActionModel::CloseBoth],
            ),
            EventModel::IoError => (
                closed_with(m, Some(SessionError::RelayIo)),
                seq![ActionModel::CloseBoth],
            ),
            _ => (m, Seq::empty()),
        },
    }
}

/// The invariant of a session: at most one connection attempt, none before
/// the handshake is accepted, and nothing left to send once relaying.
pub open spec fn session_wf(m: SessionModel) -> bool {
    &&& m.connects <= 1
    &&& m.state == SessionState::Handshaking ==> m.connects == 0
    &&& m.state == SessionState::Connecting || m.state == SessionState::Relaying ==> m.connects == 1
    &&& m.state == SessionState::Relaying ==> m.ack.len() == 0 && m.pending.len() == 0
}

pub open spec fn actions_view(a: Seq<Action>) -> Seq<ActionModel> {
    a.map_values(|x: Action| x@)
}

fn add_counter(c: u64, n: usize) -> (r: u64)
    ensures
        r == counter_add(c, n as int),
{
    let n64 = n as u64;
    if n64 > u64::MAX - c {
        u64::MAX
    } else {
        c + n64
    }
}

impl TunnelSession {
    /// A session that waits for the handshake. `egress` is the override the
    /// route resolver produced, if any.
    pub fn new(credential: [u8; 16], trojan_digest: Vec<u8>, egress: Option<(String, u16)>) -> (r:
        TunnelSession)
        ensures
            r@.state == SessionState::Handshaking,
            r@.credential == credential@,
            r@.trojan_digest == trojan_digest@,
            r@.egress == egress.deep_view(),
            r@.ack.len() == 0,
            r@.pending.len() == 0,
            r@.connects == 0,
            r@.bytes_up == 0,
            r@.bytes_down == 0,
            r@.error is None,
            session_wf(r@),
    {
        TunnelSession {
            state: SessionState::Handshaking,
            credential,
            trojan_digest,
            egress,
            ack: Vec::new(),
            pending: Vec::new(),
            connects: 0,
            bytes_up: 0,
            bytes_down: 0,
            error: None,
        }
    }

    fn close(&mut self, error: Option<SessionError>) -> (r: Vec<Action>)
        ensures
            final(self)@ == closed_with(old(self)@, error),
            actions_view(r@) == seq![ActionModel::CloseBoth],
    {
        self.state = SessionState::Closed;
        self.error = error;
        let r = vec![Action::CloseBoth];
        assert(actions_view(r@) =~= seq![ActionModel::CloseBoth]);
        r
    }

    fn on_handshake(&mut self, b: Vec<u8>) -> (r: Vec<Action>)
        requires
            old(self)@.state == SessionState::Handshaking,
            session_wf(old(self)@),
        ensures
            (final(self)@, actions_view(r@)) == next(old(self)@, EventModel::ClientData(b@)),
    {
        match parse_handshake(b.as_slice(), &self.credential, self.trojan_digest.as_slice()) {
            Err(e) => self.close(Some(SessionError::Handshake(e))),
            Ok(h) => {
                let ClientHandshake { protocol, version, target, payload_offset, .. } = h;
                self.state = SessionState::Connecting;
                self.connects = self.connects + 1;
                self.ack = if protocol == Protocol::Vless {
                    vec![version, 0u8]
                } else {
                    Vec::new()
                };
                self.pending = copy_range(b.as_slice(), payload_offset, b.len());
                let endpoint = match &self.egress {
                    Some((host, port)) => Endpoint::Egress(host.clone(), *port),
                    None => Endpoint::Target(target),
                };
                let r = vec![Action::Connect(endpoint)];
                assert(self.ack@ =~= ack_for(h@));
                assert(actions_view(r@) =~= seq![
                    ActionModel::Connect(destination(old(self)@.egress, h@.target)),
                ]);
                r
            },
        }
    }

    fn on_connected(&mut self) -> (r: Vec<Action>)
        requires
            old(self)@.state == SessionState::Connecting,
        ensures
            (final(self)@, actions_view(r@)) == next(old(self)@, EventModel::Connected),
    {
        let mut r: Vec<Action> = Vec::new();
        let mut ack: Vec<u8> = Vec::new();
        let mut pending: Vec<u8> = Vec::new();
        std::mem::swap(&mut ack, &mut self.ack);
        std::mem::swap(&mut pending, &mut self.pending);
        self.state = SessionState::Relaying;
        self.bytes_up = add_counter(self.bytes_up, pending.len());
        let ghost m = old(self)@;
        if ack.len() > 0 {
            r.push(Action::WriteClient(ack));
        }
        if pending.len() > 0 {
            r.push(Action::WriteUpstream(pending));
        }
        assert(self.ack@ =~= Seq::<u8>::empty());
        assert(self.pending@ =~= Seq::<u8>::empty());
        assert(actions_view(r@) =~= next(m, EventModel::Connected).1);
        r
    }

    /// Takes one event and returns the actions it calls for, in order.
    pub fn step(&mut self, e: Event) -> (r: Vec<Action>)
        requires
            session_wf(old(self)@),
        ensures
            (final(self)@, actions_view(r@)) == next(old(self)@, e@),
            session_wf(final(self)@),
    {
        let ghost ev = e@;
        match self.state {
            SessionState::Closed => Vec::new(),
            SessionState::Handshaking => match e {
                Event::ClientData(b) => self.on_handshake(b),
                Event::ClientClosed | Event::UpstreamClosed => self.close(None),
                Event::IoError => self.close(Some(SessionError::RelayIo)),
                _ => Vec::new(),
            },
            SessionState::Connecting => match e {
                Event::Connected => self.on_connected(),
                Event::ConnectFailed => self.close(Some(SessionError::UpstreamConnect)),
                Event::ClientData(d) => {
                    let mut d = d;
                    self.pending.append(&mut d);
                    Vec::new()
                },
                Event::ClientClosed | Event::UpstreamClosed => self.close(None),
                Event::IoError => self.close(Some(SessionError::RelayIo)),
                _ => Vec::new(),
            },
            SessionState::Relaying => match e {
                Event::ClientData(d) => {
                    self.bytes_up = add_counter(self.bytes_up, d.len());
                    let r = vec![Action::WriteUpstream(d)];
                    assert(actions_view(r@) =~= next(old(self)@, ev).1);
                    r
                },
                Event::UpstreamData(d) => {
                    self.bytes_down = add_counter(self.bytes_down, d.len());
                    let r = vec![Action::WriteClient(d)];
                    assert(actions_view(r@) =~= next(old(self)@, ev).1);
                    r
                },
                Event::ClientClosed | Event::UpstreamClosed => self.close(None),
                Event::IoError => self.close(Some(SessionError::RelayIo)),
                _ => Vec::new(),
            },
        }
    }
}

/// The state and all actions after a sequence of events.
pub open spec fn run(m: SessionModel, es: Seq<EventModel>) -> (SessionModel, Seq<ActionModel>)
    decreases es.len(),
{
    if es.len() == 0 {
        (m, Seq::empty())
    } else {
        let (m1, a1) = next(m, es[0]);
        let (m2, a2) = run(m1, es.drop_first());
        (m2, a1 + a2)
    }
}

/// Whether an event carries data from either side.
pub open spec fn is_data(e: EventModel) -> bool {
    e is ClientData || e is UpstreamData
}

/// Where a chunk of data is written while relaying: client bytes go upstream
/// and upstream bytes go to the client, unchanged.
pub open spec fn relayed(e: EventModel) -> ActionModel {
    match e {
        EventModel::ClientData(d) => ActionModel::WriteUpstream(d),
        EventModel::UpstreamData(d) => ActionModel::WriteClient(d),
        _ => ActionModel::CloseBoth,
    }
}

/// The actions taken once the upstream connection stands: the variant's
/// acknowledgement to the client, then the payload that came with the header.
pub open spec fn opening_writes(ack: Seq<u8>, payload: Seq<u8>) -> Seq<ActionModel> {
    (if ack.len() > 0 {
        seq![ActionModel::WriteClient(ack)]
    } else {
        Seq::empty()
    }) + (if payload.len() > 0 {
        seq![ActionModel::WriteUpstream(payload)]
    } else {
        Seq::empty()
    })
}

/// A closed session stays closed and does nothing more, whatever happens.
pub proof fn lemma_closed_stays_closed(m: SessionModel, es: Seq<EventModel>)
    requires
        m.state == SessionState::Closed,
    ensures
        run(m, es) == (m, Seq::<ActionModel>::empty()),
    decreases es.len(),
{
    if es.len() > 0 {
        lemma_closed_stays_closed(m, es.drop_first());
        assert(Seq::<ActionModel>::empty() + Seq::<ActionModel>::empty() =~= Seq::<ActionModel>::empty());
    }
}

/// A handshake whose credential does not match is an authentication error,
/// whether it is read as VLess or as Trojan.
pub proof fn lemma_mismatch_is_authentication_error(b: Seq<u8>, cred: Seq<u8>, digest: Seq<u8>)
    requires
        vless_shaped(b) && b.subrange(1, 17) != cred
            || !vless_shaped(b) && trojan_shaped(b) && b.subrange(0, 56) != digest,
    ensures
        handshake_spec(b, cred, digest) == Err::<HandshakeModel, HandshakeError>(
            HandshakeError::Authentication,
        ),
{
}

/// A rejected handshake closes the session with its error, and nothing that
/// happens afterwards leads to a connection attempt: the one action ever
/// taken is closing both sides.
pub proof fn lemma_rejected_handshake_never_connects(m: SessionModel, b: Seq<u8>, es: Seq<EventModel>)
    requires
        m.state == SessionState::Handshaking,
        handshake_spec(b, m.credential, m.trojan_digest) is Err,
    ensures
        ({
            let err = handshake_spec(b, m.credential, m.trojan_digest)->Err_0;
            run(m, seq![EventModel::ClientData(b)] + es) == (
                closed_with(m, Some(SessionError::Handshake(err))),
                seq![ActionModel::CloseBoth],
            )
        }),
{
    let all = seq![EventModel::ClientData(b)] + es;
    assert(all.drop_first() =~= es);
    let m1 = next(m, all[0]).0;
    lemma_closed_stays_closed(m1, es);
    assert(seq![ActionModel::CloseBoth] + Seq::<ActionModel>::empty() =~= seq![ActionModel::CloseBoth]);
}

/// While relaying, every chunk from either side is written to the other side
/// byte for byte and in the order it came, and the session keeps relaying.
pub proof fn lemma_relay_transparent(m: SessionModel, es: Seq<EventModel>)
    requires
        m.state == SessionState::Relaying,
        forall|i: int| 0 <= i < es.len() ==> is_data(#[trigger] es[i]),
    ensures
        run(m, es).0.state == SessionState::Relaying,
        run(m, es).1 == es.map_values(|e: EventModel| relayed(e)),
    decreases es.len(),
{
    if es.len() > 0 {
        let rest = es.drop_first();
        assert(is_data(es[0]));
        let m1 = next(m, es[0]).0;
        assert forall|i: int| 0 <= i < rest.len() implies is_data(#[trigger] rest[i]) by {
            assert(rest[i] == es[i + 1]);
        }
        lemma_relay_transparent(m1, rest);
        assert(run(m, es).1 =~= es.map_values(|e: EventModel| relayed(e)));
    }
}

/// A session from an accepted handshake onwards: it connects once to the
/// resolved destination; once connected it sends the variant's
/// acknowledgement (for VLess its version and a zero byte, exactly once) and
/// the payload that came after the header; from then on every chunk from
/// either side reaches the other side unchanged.
pub proof fn lemma_session_round_trip(m: SessionModel, b: Seq<u8>, es: Seq<EventModel>)
    requires
        m.state == SessionState::Handshaking,
        handshake_spec(b, m.credential, m.trojan_digest) is Ok,
        forall|i: int| 0 <= i < es.len() ==> is_data(#[trigger] es[i]),
    ensures
        ({
            let h = handshake_spec(b, m.credential, m.trojan_digest)->Ok_0;
            let payload = b.subrange(h.payload_offset as int, b.len() as int);
            &&& run(m, seq![EventModel::ClientData(b), EventModel::Connected] + es).1 == seq![
                ActionModel::Connect(destination(m.egress, h.target)),
            ] + opening_writes(ack_for(h), payload) + es.map_values(|e: EventModel| relayed(e))
            &&& h.protocol == Protocol::Vless ==> ack_for(h) == seq![h.version, 0u8]
        }),
{
    let all = seq![EventModel::ClientData(b), EventModel::Connected] + es;
    assert(all.drop_first() =~= seq![EventModel::Connected] + es);
    assert(all.drop_first().drop_first() =~= es);
    let m1 = next(m, all[0]).0;
    let m2 = next(m1, EventModel::Connected).0;
    lemma_relay_transparent(m2, es);
    let h = handshake_spec(b, m.credential, m.trojan_digest)->Ok_0;
    let payload = b.subrange(h.payload_offset as int, b.len() as int);
    assert(all[0] == EventModel::ClientData(b));
    assert((seq![EventModel::Connected] + es)[0] == EventModel::Connected);
    assert(next(m, all[0]).1 == seq![ActionModel::Connect(destination(m.egress, h.target))]);
    assert(next(m1, EventModel::Connected).1 == opening_writes(ack_for(h), payload));
    assert(run(m1, all.drop_first()).1 == opening_writes(ack_for(h), payload) + run(m2, es).1);
    assert(run(m, all).1 == next(m, all[0]).1 + run(m1, all.drop_first()).1);
    assert(run(m, all).1 =~= seq![ActionModel::Connect(destination(m.egress, h.target))]
        + opening_writes(ack_for(h), payload) + es.map_values(|e: EventModel| relayed(e)));
}

/// The client closing its transport while relaying closes the session and
/// the upstream connection at once, in the same step.
pub proof fn lemma_client_close_closes_upstream(m: SessionModel)
    requires
        m.state == SessionState::Relaying,
    ensures
        next(m, EventModel::ClientClosed) == (closed_with(m, None), seq![ActionModel::CloseBoth]),
        next(m, EventModel::ClientClosed).0.state == SessionState::Closed,
{
}

/// The transitions a session may take: Handshaking to Connecting, Connecting
/// to Relaying, Relaying to Closed, and to Closed from the first two.
pub open spec fn allowed_transition(a: SessionState, b: SessionState) -> bool {
    ||| a == b
    ||| a == SessionState::Handshaking && (b == SessionState::Connecting || b == SessionState::Closed)
    ||| a == SessionState::Connecting && (b == SessionState::Relaying || b == SessionState::Closed)
    ||| a == SessionState::Relaying && b == SessionState::Closed
}

/// Every step keeps the session's invariant and moves it along an allowed
/// transition; a connection is asked for only by the step that takes a fresh
/// session out of Handshaking.
pub proof fn lemma_step_keeps_invariant(m: SessionModel, e: EventModel)
    requires
        session_wf(m),
    ensures
        session_wf(next(m, e).0),
        allowed_transition(m.state, next(m, e).0.state),
        next(m, e).0.connects >= m.connects,
        (exists|i: int| 0 <= i < next(m, e).1.len() && next(m, e).1[i] is Connect) ==> m.connects
            == 0 && next(m, e).0.connects == 1,
{
}

/// A session that has asked for its connection never asks for another,
/// whatever happens next: at most one outbound connection per session.
pub proof fn lemma_connect_at_most_once(m: SessionModel, es: Seq<EventModel>)
    requires
        session_wf(m),
        m.connects == 1,
    ensures
        forall|i: int| 0 <= i < run(m, es).1.len() ==> !(#[trigger] run(m, es).1[i] is Connect),
    decreases es.len(),
{
    if es.len() > 0 {
        let (m1, a1) = next(m, es[0]);
        lemma_step_keeps_invariant(m, es[0]);
        lemma_connect_at_most_once(m1, es.drop_first());
        let a2 = run(m1, es.drop_first()).1;
        assert forall|i: int| 0 <= i < run(m, es).1.len() implies !(#[trigger] run(m, es).1[i] is Connect) by {
            if i < a1.len() {
                assert(run(m, es).1[i] == a1[i]);
            } else {
                assert(run(m, es).1[i] == a2[i - a1.len()]);
            }
        }
    }
}

} // verus!
