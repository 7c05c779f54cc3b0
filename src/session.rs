use vstd::prelude::*;
use vstd::string::StringExecFns;

use crate::frame::frame_of;
use crate::frame::parse_frame;
use crate::frame::ClientCommand;
use crate::frame::FrameError;

verus! {

/// Where a streaming connection stands.
#[derive(Clone, Copy, Debug, PartialEq, Eq, Structural)]
pub enum SessionPhase {
    /// Waiting for the outcome of the first ping.
    Probing,
    /// Taking client frames.
    Open,
    /// Finished: nothing more is done.
    Closed,
}

/// A session as a value: its phase and the topic of each forwarder started, by id.
pub struct SessionState {
    pub phase: SessionPhase,
    pub forwarders: Seq<Seq<char>>,
}

/// What the transport handed over next.
pub enum Inbound {
    /// A text frame.
    Text(String),
    /// Any other frame (binary, ping, pong, close).
    Other,
    /// The client's stream ended.
    End,
}

/// What the connection handler does next.
#[derive(Debug)]
pub enum SessionAction {
    /// Ask the actor for the topic's watcher and start forwarder `id` on it.
    StartForwarder { id: usize, topic: String },
    /// The frame is not a command: log it; the connection stays open.
    Rejected(FrameError),
    /// Nothing to do.
    Ignored,
    /// The client is gone: cancel and await the forwarders in this order, then return.
    Teardown(Vec<usize>),
}

/// The order in which `k` forwarders are cancelled: the newest first.
pub open spec fn teardown_order(k: nat) -> Seq<usize> {
    Seq::new(k, |i: int| (k - 1 - i) as usize)
}

/// How a parsed frame takes an open session from `s` to `s2` with action `a`.
pub open spec fn takes_command(
    s: SessionState,
    parsed: Result<ClientCommand, FrameError>,
    s2: SessionState,
    a: SessionAction,
) -> bool {
    if s.phase != SessionPhase::Open {
        s2 == s && a is Ignored
    } else {
        match parsed {
            Ok(ClientCommand::Subscribe { topic }) => {
                &&& s2 == SessionState { phase: s.phase, forwarders: s.forwarders.push(topic@) }
                &&& a == SessionAction::StartForwarder { id: s.forwarders.len() as usize, topic }
            },
            Err(e) => s2 == s && a == SessionAction::Rejected(e),
        }
    }
}

/// The state of one streaming connection: its phase and its forwarders.
pub struct Session {
    phase: SessionPhase,
    forwarders: Vec<String>,
}

impl View for Session {
    type V = SessionState;

    closed spec fn view(&self) -> SessionState {
        SessionState {
            phase: self.phase,
            forwarders: Seq::new(self.forwarders@.len(), |i: int| self.forwarders@[i]@),
        }
    }
}

impl Session {
    /// A session that has not yet probed its transport.
    pub fn new() -> (r: Session)
        ensures
            r@.phase == SessionPhase::Probing,
            r@.forwarders == Seq::<Seq<char>>::empty(),
    {
        let r = Session { phase: SessionPhase::Probing, forwarders: Vec::new() };
        assert(r@.forwarders =~= Seq::<Seq<char>>::empty());
        r
    }

    /// The session's phase.
    pub fn phase(&self) -> (r: SessionPhase)
        ensures
            r == self@.phase,
    {
        self.phase
    }

    /// The number of forwarders started.
    pub fn forwarder_count(&self) -> (r: usize)
        ensures
            r == self@.forwarders.len(),
    {
        self.forwarders.len()
    }

    /// The topic of forwarder `id`.
    pub fn forwarder_topic(&self, id: usize) -> (r: &String)
        requires
            id < self@.forwarders.len(),
        ensures
            r@ == self@.forwarders[id as int],
    {
        &self.forwarders[id]
    }

    /// Records whether the first ping went out: the session opens if it did and closes at once
    /// if it did not, since a transport that cannot send cannot serve. Returns whether the
    /// session is open.
    pub fn probe_sent(&mut self, sent: bool) -> (r: bool)
        ensures
            old(self)@.phase == SessionPhase::Probing ==> final(self)@ == (SessionState {
                phase: if sent {
                    SessionPhase::Open
                } else {
                    SessionPhase::Closed
                },
                forwarders: old(self)@.forwarders,
            }),
            old(self)@.phase != SessionPhase::Probing ==> final(self)@ == old(self)@,
            r == (final(self)@.phase == SessionPhase::Open),
    {
        if self.phase == SessionPhase::Probing {
            self.phase = if sent {
                SessionPhase::Open
            } else {
                SessionPhase::Closed
            };
        }
        self.phase == SessionPhase::Open
    }

    /// Takes a parsed client frame: a subscribe starts a new forwarder for its topic (a second
    /// subscribe of a topic starts a second one); anything else is rejected and changes
    /// nothing. A session that is not open ignores it.
    pub fn on_command(&mut self, parsed: Result<ClientCommand, FrameError>) -> (r: SessionAction)
        ensures
            takes_command(old(self)@, parsed, final(self)@, r),
    {
        if self.phase != SessionPhase::Open {
            return SessionAction::Ignored;
        }
        match parsed {
            Ok(ClientCommand::Subscribe { topic }) => {
                let id = self.forwarders.len();
                let ghost before = self@;
                self.forwarders.push(topic.clone());
                assert(self@.forwarders =~= before.forwarders.push(topic@));
                SessionAction::StartForwarder { id, topic }
            },
            Err(e) => SessionAction::Rejected(e),
        }
    }

    /// Ends the session: every forwarder is to be cancelled and awaited, the newest first, and
    /// none is left.
    pub fn teardown(&mut self) -> (r: Vec<usize>)
        ensures
            final(self)@ == (SessionState {
                phase: SessionPhase::Closed,
                forwarders: Seq::<Seq<char>>::empty(),
            }),
            r@ == teardown_order(old(self)@.forwarders.len()),
    {
        let k = self.forwarders.len();
        let mut order: Vec<usize> = Vec::new();
        let mut left: usize = k;
        while left > 0
            invariant
                left <= k,
                order@.len() == k - left,
                forall|j: int| 0 <= j < order@.len() ==> order@[j] == k - 1 - j,
            decreases left,
        {
            left = left - 1;
            order.push(left);
        }
        self.phase = SessionPhase::Closed;
        self.forwarders = Vec::new();
        assert(self@.forwarders =~= Seq::<Seq<char>>::empty());
        assert(order@ =~= teardown_order(k as nat));
        order
    }

    /// Takes what the transport handed over: a text frame is parsed and taken as a command,
    /// other frames are ignored, and the end of the stream tears the session down. A session
    /// that is not open ignores everything.
    pub fn on_inbound(&mut self, inbound: Inbound) -> (r: SessionAction)
        ensures
            old(self)@.phase != SessionPhase::Open ==> final(self)@ == old(self)@ && r is Ignored,
            old(self)@.phase == SessionPhase::Open ==> match inbound {
                Inbound::Text(t) => exists|parsed: Result<ClientCommand, FrameError>|
                    frame_of(parsed, t@) && takes_command(old(self)@, parsed, final(self)@, r),
                Inbound::Other => final(self)@ == old(self)@ && r is Ignored,
                Inbound::End => final(self)@ == (SessionState {
                    phase: SessionPhase::Closed,
                    forwarders: Seq::<Seq<char>>::empty(),
                }) && (r matches SessionAction::Teardown(o) && o@ == teardown_order(
                    old(self)@.forwarders.len(),
                )),
            },
    {
        if self.phase != SessionPhase::Open {
            return SessionAction::Ignored;
        }
        match inbound {
            Inbound::Text(text) => {
                let parsed = parse_frame(text.as_str());
                self.on_command(parsed)
            },
            Inbound::Other => SessionAction::Ignored,
            Inbound::End => SessionAction::Teardown(self.teardown()),
        }
    }
}

/// How a client is named in the log: its user agent, or "Unknown browser".
pub fn client_label(user_agent: Option<String>) -> (r: String)
    ensures
        r@ == (match user_agent {
            Some(a) => a@,
            None => "Unknown browser"@,
        }),
{
    match user_agent {
        Some(a) => a,
        None => String::from_str("Unknown browser"),
    }
}

/// Tearing down a session with `k` forwarders cancels each of them exactly once.
pub proof fn lemma_teardown_cancels_each_forwarder_once(k: nat)
    requires
        k <= usize::MAX,
    ensures
        teardown_order(k).len() == k,
        forall|id: usize| id < k ==> teardown_order(k).contains(id),
        forall|i: int, j: int|
            0 <= i < j < k ==> teardown_order(k)[i] != teardown_order(k)[j],
        forall|i: int| 0 <= i < k ==> teardown_order(k)[i] < k,
{
    let o = teardown_order(k);
    assert forall|id: usize| id < k implies o.contains(id) by {
        let j = k - 1 - id;
        assert(o[j] == id);
    }
    assert forall|i: int, j: int| 0 <= i < j < k implies o[i] != o[j] by {
        assert(o[i] == k - 1 - i);
        assert(o[j] == k - 1 - j);
    }
}

} // verus!
