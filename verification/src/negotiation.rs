//! Signalling: the messages exchanged with the signalling server, how a peer
//! learns whether it offers or answers, and how SDP descriptions and ICE
//! candidates are taken in while the WebRTC connection is set up.
use vstd::prelude::*;

verus! {

/// Messages sent to the signalling server.
#[derive(Debug, Clone)]
pub enum OutgoingSignal {
    Join { room: String },
    Offer { sdp: String },
    Answer { sdp: String },
    Candidate { candidate: String },
    Bye,
}

/// Messages received from the signalling server.
#[derive(Debug, Clone)]
pub enum IncomingSignal {
    Joined { peer_id: String, peers: Vec<String> },
    PeerJoined { peer_id: String },
    Offer { peer_id: String, sdp: String },
    Answer { peer_id: String, sdp: String },
    Candidate { peer_id: String, candidate: String },
    PeerLeft { peer_id: String },
    Error { message: String },
}

/// Which side of the WebRTC exchange a peer takes.
#[derive(Debug, Clone, Copy, PartialEq, Eq, Structural)]
pub enum Role {
    /// First in the room: creates the data channel and sends the offer.
    Offerer,
    /// Joined a room with a peer in it: answers the offer.
    Answerer,
}

/// Why connecting through the signalling server failed.
#[derive(Debug, Clone)]
pub enum SignalFailure {
    /// The other peer left before the connection was established.
    PeerLeft,
    /// The signalling server reported an error.
    Signaling(String),
    /// The connection to the signalling server was lost.
    Lost,
}

/// Text describing a failure.
pub open spec fn failure_text(f: SignalFailure) -> Seq<char> {
    match f {
        SignalFailure::PeerLeft => "peer left before connection established"@,
        SignalFailure::Signaling(m) => "signaling error: "@ + m@,
        SignalFailure::Lost => "signaling connection lost"@,
    }
}

impl SignalFailure {
    /// A human-readable description of the failure.
    pub fn message(&self) -> (s: String)
        ensures
            s@ == failure_text(*self),
    {
        match self {
            SignalFailure::PeerLeft => String::from_str("peer left before connection established"),
            SignalFailure::Signaling(m) => {
                let mut s = String::from_str("signaling error: ");
                s.append(m.as_str());
                s
            },
            SignalFailure::Lost => String::from_str("signaling connection lost"),
        }
    }
}

/// Choosing a role after joining a room.
pub struct RoleSelection {
    awaiting_peer: bool,
}

/// What one signal means while the role is being chosen.
#[derive(Debug)]
pub enum JoinStep {
    /// Keep reading signals.
    Wait,
    /// The role is chosen.
    Decided(Role),
    /// Give up.
    Fail(SignalFailure),
}

impl RoleSelection {
    /// Waiting for the server to confirm the join.
    pub fn new() -> (s: Self)
        ensures
            !s.awaiting_peer(),
    {
        RoleSelection { awaiting_peer: false }
    }

    /// Whether this peer was alone in the room and now waits for another
    /// peer to join.
    pub closed spec fn awaiting_peer(&self) -> bool {
        self.awaiting_peer
    }

    /// Take in the next signal (`None`: the server connection closed). A
    /// peer alone in the room offers once another peer joins; a peer that
    /// finds someone there answers. Errors and a lost connection end the
    /// selection; any other signal is ignored, so a peer waiting for another
    /// peer keeps waiting for it.
    pub fn on_signal(&mut self, signal: Option<IncomingSignal>) -> (step: JoinStep)
        ensures
            match signal {
                None => step matches JoinStep::Fail(SignalFailure::Lost) && final(self).awaiting_peer()
                    == old(self).awaiting_peer(),
                Some(IncomingSignal::Error { message }) => step matches JoinStep::Fail(
                    SignalFailure::Signaling(m),
                ) && m@ == message@ && final(self).awaiting_peer() == old(self).awaiting_peer(),
                Some(IncomingSignal::PeerJoined { .. }) => if old(self).awaiting_peer() {
                    step matches JoinStep::Decided(Role::Offerer) && !final(self).awaiting_peer()
                } else {
                    step is Wait && !final(self).awaiting_peer()
                },
                Some(IncomingSignal::Joined { peers, .. }) => if old(self).awaiting_peer() {
                    step is Wait && final(self).awaiting_peer()
                } else if peers@.len() == 0 {
                    step is Wait && final(self).awaiting_peer()
                } else {
                    step matches JoinStep::Decided(Role::Answerer) && !final(self).awaiting_peer()
                },
                Some(_) => step is Wait && final(self).awaiting_peer() == old(self).awaiting_peer(),
            },
    {
        match signal {
            None => JoinStep::Fail(SignalFailure::Lost),
            Some(IncomingSignal::Error { message }) => JoinStep::Fail(
                SignalFailure::Signaling(message),
            ),
            Some(IncomingSignal::PeerJoined { .. }) => {
                if self.awaiting_peer {
                    self.awaiting_peer = false;
                    JoinStep::Decided(Role::Offerer)
                } else {
                    JoinStep::Wait
                }
            },
            Some(IncomingSignal::Joined { peers, .. }) => {
                if self.awaiting_peer {
                    JoinStep::Wait
                } else if peers.len() == 0 {
                    self.awaiting_peer = true;
                    JoinStep::Wait
                } else {
                    JoinStep::Decided(Role::Answerer)
                }
            },
            Some(_) => JoinStep::Wait,
        }
    }
}

/// What one signal means while the connection is being negotiated.
#[derive(Debug)]
pub enum NegotiationStep {
    /// The remote description arrived: set it, then call
    /// `Negotiation::remote_described` and apply the candidates it returns
    /// (the answering side then creates and sends its answer).
    RemoteDescription(String),
    /// An ICE candidate arrived as JSON: parse it, then pass it to
    /// `Negotiation::on_candidate` (a candidate that does not parse is skipped).
    ParseCandidate(String),
    /// Give up.
    Fail(SignalFailure),
    /// Nothing to do.
    Ignore,
}

/// Taking in the remote description and ICE candidates for one role; ICE
/// candidates that arrive before the remote description are held back.
pub struct Negotiation<C> {
    role: Role,
    remote_set: bool,
    buffered: Vec<C>,
}

impl<C> Negotiation<C> {
    /// The role this negotiation is for.
    pub closed spec fn role(&self) -> Role {
        self.role
    }

    /// Whether the remote description has been set.
    pub closed spec fn remote_set(&self) -> bool {
        self.remote_set
    }

    /// Candidates held back until the remote description is set, in arrival
    /// order.
    pub closed spec fn held(&self) -> Seq<C> {
        self.buffered@
    }

    /// Nothing is held back once the remote description is set.
    pub open spec fn wf(&self) -> bool {
        self.remote_set() ==> self.held().len() == 0
    }

    /// A fresh negotiation: no remote description, nothing held back.
    pub fn new(role: Role) -> (n: Self)
        ensures
            n.role() == role,
            !n.remote_set(),
            n.held() == Seq::<C>::empty(),
            n.wf(),
    {
        Negotiation { role, remote_set: false, buffered: Vec::new() }
    }

    /// Take in the next signal (`None`: the server connection closed). The
    /// offerer takes the answer as remote description, the answerer the
    /// offer; the other description kind and other signals are ignored.
    pub fn on_signal(&self, signal: Option<IncomingSignal>) -> (step: NegotiationStep)
        ensures
            match signal {
                None => step matches NegotiationStep::Fail(SignalFailure::Lost),
                Some(IncomingSignal::Error { message }) => step matches NegotiationStep::Fail(
                    SignalFailure::Signaling(m),
                ) && m@ == message@,
                Some(IncomingSignal::PeerLeft { .. }) => step matches NegotiationStep::Fail(
                    SignalFailure::PeerLeft,
                ),
                Some(IncomingSignal::Candidate { candidate, .. }) => step matches NegotiationStep::ParseCandidate(c) && c@ == candidate@,
                Some(IncomingSignal::Answer { sdp, .. }) => if self.role() == Role::Offerer {
                    step matches NegotiationStep::RemoteDescription(d) && d@ == sdp@
                } else {
                    step is Ignore
                },
                Some(IncomingSignal::Offer { sdp, .. }) => if self.role() == Role::Answerer {
                    step matches NegotiationStep::RemoteDescription(d) && d@ == sdp@
                } else {
                    step is Ignore
                },
                Some(_) => step is Ignore,
            },
    {
        match signal {
            None => NegotiationStep::Fail(SignalFailure::Lost),
            Some(IncomingSignal::Error { message }) => NegotiationStep::Fail(
                SignalFailure::Signaling(message),
            ),
            Some(IncomingSignal::PeerLeft { .. }) => NegotiationStep::Fail(SignalFailure::PeerLeft),
            Some(IncomingSignal::Candidate { candidate, .. }) => NegotiationStep::ParseCandidate(
                candidate,
            ),
            Some(IncomingSignal::Answer { sdp, .. }) => match self.role {
                Role::Offerer => NegotiationStep::RemoteDescription(sdp),
                Role::Answerer => NegotiationStep::Ignore,
            },
            Some(IncomingSignal::Offer { sdp, .. }) => match self.role {
                Role::Answerer => NegotiationStep::RemoteDescription(sdp),
                Role::Offerer => NegotiationStep::Ignore,
            },
            Some(_) => NegotiationStep::Ignore,
        }
    }

    /// The remote description is now set: hand back the held candidates, in
    /// arrival order, to be applied.
    pub fn remote_described(&mut self) -> (flushed: Vec<C>)
        ensures
            flushed@ == old(self).held(),
            final(self).remote_set(),
            final(self).held() == Seq::<C>::empty(),
            final(self).role() == old(self).role(),
            final(self).wf(),
            candidate_run(old(self).remote_set(), old(self).held(), seq![None::<C>]) == (
                flushed@,
                final(self).remote_set(),
                final(self).held(),
            ),
    {
        proof {
            lemma_run_single(self.remote_set, self.buffered@, None::<C>);
        }
        self.remote_set = true;
        let mut flushed: Vec<C> = Vec::new();
        std::mem::swap(&mut flushed, &mut self.buffered);
        flushed
    }

    /// A parsed candidate arrived: it is handed back to be applied at once if
    /// the remote description is set, and held back otherwise.
    pub fn on_candidate(&mut self, candidate: C) -> (apply: Option<C>)
        ensures
            final(self).role() == old(self).role(),
            final(self).remote_set() == old(self).remote_set(),
            old(self).remote_set() ==> apply == Some(candidate) && final(self).held() == old(
                self,
            ).held(),
            !old(self).remote_set() ==> apply is None && final(self).held() == old(self).held().push(
                candidate,
            ),
            old(self).wf() ==> final(self).wf(),
            candidate_run(old(self).remote_set(), old(self).held(), seq![Some(candidate)]) == (
                match apply {
                    Some(c) => seq![c],
                    None => Seq::<C>::empty(),
                },
                final(self).remote_set(),
                final(self).held(),
            ),
    {
        proof {
            lemma_run_single(self.remote_set, self.buffered@, Some(candidate));
        }
        if self.remote_set {
            Some(candidate)
        } else {
            self.buffered.push(candidate);
            None
        }
    }
}

/// One event of taking in candidates: `None` for the remote description
/// being set, `Some(c)` for a parsed candidate.
pub open spec fn candidate_run<C>(remote_set: bool, held: Seq<C>, events: Seq<Option<C>>) -> (
    Seq<C>,
    bool,
    Seq<C>,
)
    decreases events.len(),
{
    if events.len() == 0 {
        (Seq::empty(), remote_set, held)
    } else {
        match events[0] {
            None => {
                let r = candidate_run(true, Seq::empty(), events.drop_first());
                (held + r.0, r.1, r.2)
            },
            Some(c) => if remote_set {
                let r = candidate_run(remote_set, held, events.drop_first());
                (seq![c] + r.0, r.1, r.2)
            } else {
                candidate_run(remote_set, held.push(c), events.drop_first())
            },
        }
    }
}

/// A run of one event.
proof fn lemma_run_single<C>(remote_set: bool, held: Seq<C>, e: Option<C>)
    ensures
        candidate_run(remote_set, held, seq![e]) == match e {
            None => (held, true, Seq::<C>::empty()),
            Some(c) => if remote_set {
                (seq![c], remote_set, held)
            } else {
                (Seq::<C>::empty(), remote_set, held.push(c))
            },
        },
{
    let events = seq![e];
    assert(events.drop_first() =~= Seq::<Option<C>>::empty());
    assert(candidate_run(true, Seq::<C>::empty(), events.drop_first()) == (
        Seq::<C>::empty(),
        true,
        Seq::<C>::empty(),
    ));
    assert(candidate_run(remote_set, held, events.drop_first()) == (
        Seq::<C>::empty(),
        remote_set,
        held,
    ));
    if let Some(c) = e {
        assert(candidate_run(remote_set, held.push(c), events.drop_first()) == (
            Seq::<C>::empty(),
            remote_set,
            held.push(c),
        ));
    }
    assert(held + Seq::<C>::empty() =~= held);
    if let Some(c) = e {
        assert(seq![c] + Seq::<C>::empty() =~= seq![c]);
    }
}

/// The candidates among `events`, in order.
pub open spec fn candidates_in<C>(events: Seq<Option<C>>) -> Seq<C>
    decreases events.len(),
{
    if events.len() == 0 {
        Seq::empty()
    } else {
        match events[0] {
            None => candidates_in(events.drop_first()),
            Some(c) => seq![c] + candidates_in(events.drop_first()),
        }
    }
}

/// No candidate is lost, duplicated or reordered: over any run of
/// `remote_described` and `on_candidate` calls, the candidates handed back to
/// be applied, followed by those still held, are the ones held at the start
/// followed by the ones that arrived, in arrival order.
pub proof fn lemma_candidates_applied_in_order<C>(
    remote_set: bool,
    held: Seq<C>,
    events: Seq<Option<C>>,
)
    requires
        remote_set ==> held.len() == 0,
    ensures
        ({
            let r = candidate_run(remote_set, held, events);
            r.0 + r.2 == held + candidates_in(events) && (r.1 ==> r.2.len() == 0)
        }),
    decreases events.len(),
{
    if events.len() > 0 {
        let rest = events.drop_first();
        match events[0] {
            None => {
                lemma_candidates_applied_in_order(true, Seq::<C>::empty(), rest);
                let r = candidate_run(true, Seq::<C>::empty(), rest);
                assert(r.0 + r.2 =~= candidates_in(rest));
                assert(held + r.0 + r.2 =~= held + candidates_in(rest));
            },
            Some(c) => {
                if remote_set {
                    lemma_candidates_applied_in_order(remote_set, held, rest);
                    let r = candidate_run(remote_set, held, rest);
                    assert(held =~= Seq::<C>::empty());
                    assert(seq![c] + r.0 + r.2 =~= held + (seq![c] + candidates_in(rest)));
                } else {
                    lemma_candidates_applied_in_order(remote_set, held.push(c), rest);
                    assert(held.push(c) + candidates_in(rest) =~= held + (seq![c] + candidates_in(
                        rest,
                    )));
                }
            },
        }
    }
}

} // verus!
