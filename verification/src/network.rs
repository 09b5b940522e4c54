//! The negotiation of one peer, as a state machine.
//!
//! The manager never touches the transport. Each operation says in its
//! result which [`Command`] the owner has to perform on the live transport,
//! and the owner reports what the transport does as [`TransportEvent`]s.

use crate::b64::all_standard;
use crate::codec::{
    candidate_views, clone_candidates, decode, decoding, encodable, encode, encoding,
    ArtifactView, CandidateView, ConnectionString, DecodeError, IceCandidate,
};
use crate::state::{
    ChannelStatus, ConnectionState, ConnectionStateView, ConnectivityStatus, GatheringStatus,
    Role, State, StateView,
};
use vstd::prelude::*;

verus! {

/// How far the negotiation has come.
#[derive(Clone, Copy, Debug, PartialEq, Eq, Structural)]
pub enum Phase {
    Uninitialized,
    NegotiationStarted,
    OfferReady,
    AnswerReady,
    Negotiating,
    ChannelOpen,
    Closed,
}

/// Why an operation was refused.
#[derive(Clone, Copy, Debug, PartialEq, Eq, Structural)]
pub enum NetworkError {
    /// The negotiation has been started before.
    AlreadyStarted,
    /// The operation is not legal in the manager's present state.
    InvalidState,
    /// The text handed in as an offer is no connection code.
    InvalidOffer(DecodeError),
    /// The text handed in as an answer is no connection code.
    InvalidAnswer(DecodeError),
}

/// What the owner of the manager has to do on the live transport.
#[derive(Debug, PartialEq, Eq)]
pub enum Command {
    /// Create the local session description of a host and start gathering.
    CreateOffer,
    /// Apply the remote offer and its candidates, create the local answer
    /// and start gathering.
    AnswerOffer(ConnectionString),
    /// Apply the remote answer and its candidates.
    ApplyAnswer(ConnectionString),
    /// Send the bytes over the open channel.
    Transmit(Vec<u8>),
}

pub enum CommandView {
    CreateOffer,
    AnswerOffer(ArtifactView),
    ApplyAnswer(ArtifactView),
    Transmit(Seq<u8>),
}

impl View for Command {
    type V = CommandView;

    open spec fn view(&self) -> CommandView {
        match self {
            Command::CreateOffer => CommandView::CreateOffer,
            Command::AnswerOffer(a) => CommandView::AnswerOffer(a@),
            Command::ApplyAnswer(a) => CommandView::ApplyAnswer(a@),
            Command::Transmit(b) => CommandView::Transmit(b@),
        }
    }
}

/// What the transport reports.
#[derive(Debug, PartialEq, Eq)]
pub enum TransportEvent {
    /// The local session description exists.
    LocalDescription(String),
    /// A local candidate was discovered.
    CandidateDiscovered(IceCandidate),
    /// The gathering of candidates has a new status.
    GatheringChanged(GatheringStatus),
    /// The connectivity checks have a new status.
    ConnectivityChanged(ConnectivityStatus),
    /// The message channel has a new status.
    ChannelChanged(ChannelStatus),
    /// A message arrived on the channel.
    ChannelMessage(Vec<u8>),
}

pub enum EventView {
    LocalDescription(Seq<char>),
    CandidateDiscovered(CandidateView),
    GatheringChanged(GatheringStatus),
    ConnectivityChanged(ConnectivityStatus),
    ChannelChanged(ChannelStatus),
    ChannelMessage(Seq<u8>),
}

impl View for TransportEvent {
    type V = EventView;

    open spec fn view(&self) -> EventView {
        match self {
            TransportEvent::LocalDescription(d) => EventView::LocalDescription(d@),
            TransportEvent::CandidateDiscovered(c) => EventView::CandidateDiscovered(c@),
            TransportEvent::GatheringChanged(g) => EventView::GatheringChanged(*g),
            TransportEvent::ConnectivityChanged(c) => EventView::ConnectivityChanged(*c),
            TransportEvent::ChannelChanged(c) => EventView::ChannelChanged(*c),
            TransportEvent::ChannelMessage(b) => EventView::ChannelMessage(b@),
        }
    }
}

/// What the manager tells its owner after an event.
#[derive(Debug, PartialEq, Eq)]
pub enum Notification {
    /// The state is now this.
    StateChanged(State),
    /// The peer sent these bytes.
    MessageReceived(Vec<u8>),
}

pub enum NotificationView {
    StateChanged(StateView),
    MessageReceived(Seq<u8>),
}

impl View for Notification {
    type V = NotificationView;

    open spec fn view(&self) -> NotificationView {
        match self {
            Notification::StateChanged(s) => NotificationView::StateChanged(s@),
            Notification::MessageReceived(b) => NotificationView::MessageReceived(b@),
        }
    }
}

pub struct ManagerView {
    pub role: Option<Role>,
    pub phase: Phase,
    pub state: ConnectionStateView,
    pub local_description: Option<Seq<char>>,
}

// ------------------------------------------------------------ the model

/// A manager on which nothing has happened.
pub open spec fn fresh() -> ManagerView {
    ManagerView {
        role: None,
        phase: Phase::Uninitialized,
        state: ConnectionState::initial(),
        local_description: None,
    }
}

/// A manager that has just taken `role`.
pub open spec fn started(role: Role) -> ManagerView {
    ManagerView {
        role: Some(role),
        phase: Phase::NegotiationStarted,
        state: ConnectionState::initial(),
        local_description: None,
    }
}

/// What a manager's states have in common.
pub open spec fn well_formed(m: ManagerView) -> bool {
    &&& m.role is None <==> m.phase == Phase::Uninitialized
    &&& m.state.candidates.no_duplicates()
    &&& m.phase == Phase::OfferReady ==> m.role == Some(Role::Host) && m.local_description is Some
    &&& m.phase == Phase::AnswerReady ==> m.role == Some(Role::Joiner) && m.local_description
        is Some
    &&& m.phase == Phase::Negotiating ==> m.role == Some(Role::Host)
    &&& m.phase == Phase::ChannelOpen ==> m.state.channel_status == ChannelStatus::Open
}

/// The state tagged with the role.
pub open spec fn tagged(m: ManagerView) -> StateView {
    match m.role {
        None => StateView::Default,
        Some(Role::Host) => StateView::Server(m.state),
        Some(Role::Joiner) => StateView::Client(m.state),
    }
}

pub open spec fn begin_result(m: ManagerView) -> Result<CommandView, NetworkError> {
    if m.phase == Phase::Uninitialized {
        Ok(CommandView::CreateOffer)
    } else {
        Err(NetworkError::AlreadyStarted)
    }
}

pub open spec fn after_begin(m: ManagerView) -> ManagerView {
    if m.phase == Phase::Uninitialized {
        started(Role::Host)
    } else {
        m
    }
}

pub open spec fn offer_result(m: ManagerView, text: Seq<char>) -> Result<
    CommandView,
    NetworkError,
> {
    if m.phase != Phase::Uninitialized {
        Err(NetworkError::InvalidState)
    } else {
        match decoding(text) {
            Ok(a) => Ok(CommandView::AnswerOffer(a)),
            Err(e) => Err(NetworkError::InvalidOffer(e)),
        }
    }
}

pub open spec fn after_offer(m: ManagerView, text: Seq<char>) -> ManagerView {
    if offer_result(m, text) is Ok {
        started(Role::Joiner)
    } else {
        m
    }
}

/// An answer is legal for a host that has begun and has not yet taken one.
pub open spec fn awaits_answer(m: ManagerView) -> bool {
    m.role == Some(Role::Host) && (m.phase == Phase::NegotiationStarted || m.phase
        == Phase::OfferReady)
}

pub open spec fn answer_result(m: ManagerView, text: Seq<char>) -> Result<
    CommandView,
    NetworkError,
> {
    if !awaits_answer(m) {
        Err(NetworkError::InvalidState)
    } else {
        match decoding(text) {
            Ok(a) => Ok(CommandView::ApplyAnswer(a)),
            Err(e) => Err(NetworkError::InvalidAnswer(e)),
        }
    }
}

pub open spec fn after_answer(m: ManagerView, text: Seq<char>) -> ManagerView {
    if answer_result(m, text) is Ok {
        ManagerView { phase: Phase::Negotiating, ..m }
    } else {
        m
    }
}

pub open spec fn send_result(m: ManagerView, bytes: Seq<u8>) -> Result<CommandView, NetworkError> {
    if m.state.channel_status == ChannelStatus::Open {
        Ok(CommandView::Transmit(bytes))
    } else {
        Err(NetworkError::InvalidState)
    }
}

/// The candidates with `c` among them: appended where it is new.
pub open spec fn with_candidate(cs: Seq<CandidateView>, c: CandidateView) -> Seq<CandidateView> {
    if cs.contains(c) {
        cs
    } else {
        cs.push(c)
    }
}

/// The connection state after an event.
pub open spec fn state_after(s: ConnectionStateView, event: EventView) -> ConnectionStateView {
    match event {
        EventView::LocalDescription(_) => s,
        EventView::CandidateDiscovered(c) => ConnectionStateView {
            candidates: with_candidate(s.candidates, c),
            ..s
        },
        EventView::GatheringChanged(g) => ConnectionStateView { candidate_gathering_status: g, ..s },
        EventView::ConnectivityChanged(c) => ConnectionStateView { connectivity_status: c, ..s },
        EventView::ChannelChanged(c) => ConnectionStateView { channel_status: c, ..s },
        EventView::ChannelMessage(_) => s,
    }
}

/// The local description after an event.
pub open spec fn description_after(d: Option<Seq<char>>, event: EventView) -> Option<Seq<char>> {
    match event {
        EventView::LocalDescription(x) => Some(x),
        _ => d,
    }
}

/// The phase that a started manager is in, given where it was and what the
/// transport now reports. A closed transport closes the negotiation for
/// good; an open channel overrides every earlier phase; complete gathering
/// makes the local artifact ready.
pub open spec fn settled_phase(
    role: Option<Role>,
    phase: Phase,
    state: ConnectionStateView,
    has_description: bool,
) -> Phase {
    if phase == Phase::Uninitialized || phase == Phase::Closed {
        phase
    } else if state.channel_status == ChannelStatus::Closed || state.connectivity_status
        == ConnectivityStatus::Closed {
        Phase::Closed
    } else if state.channel_status == ChannelStatus::Open {
        Phase::ChannelOpen
    } else if phase == Phase::ChannelOpen {
        Phase::Closed
    } else if phase == Phase::NegotiationStarted && state.candidate_gathering_status
        == GatheringStatus::Complete && has_description {
        if role == Some(Role::Host) {
            Phase::OfferReady
        } else {
            Phase::AnswerReady
        }
    } else {
        phase
    }
}

/// The manager after an event. A manager that has not started ignores the
/// transport.
pub open spec fn after_event(m: ManagerView, event: EventView) -> ManagerView {
    if m.phase == Phase::Uninitialized {
        m
    } else {
        let state = state_after(m.state, event);
        let local_description = description_after(m.local_description, event);
        ManagerView {
            role: m.role,
            phase: settled_phase(m.role, m.phase, state, local_description is Some),
            state,
            local_description,
        }
    }
}

/// What the manager tells its owner after an event: the message, where one
/// arrived on the open channel; the new state otherwise.
pub open spec fn notification(m: ManagerView, event: EventView) -> NotificationView {
    match event {
        EventView::ChannelMessage(bytes) => if m.state.channel_status == ChannelStatus::Open {
            NotificationView::MessageReceived(bytes)
        } else {
            NotificationView::StateChanged(tagged(after_event(m, event)))
        },
        _ => NotificationView::StateChanged(tagged(after_event(m, event))),
    }
}

/// The artifact of this side: its description and the candidates gathered
/// so far. There is none before the description exists.
pub open spec fn local_artifact(m: ManagerView) -> Option<ArtifactView> {
    match m.local_description {
        Some(d) => Some(ArtifactView { ice_candidates: m.state.candidates, offer: d }),
        None => None,
    }
}

/// The connection code of this side.
pub open spec fn local_code(m: ManagerView) -> Option<Seq<char>> {
    match local_artifact(m) {
        Some(a) => if encodable(a) {
            Some(encoding(a))
        } else {
            None
        },
        None => None,
    }
}

// ------------------------------------------------------------ the laws

/// Every operation and every event keeps a manager well formed.
pub proof fn lemma_well_formed_kept(m: ManagerView, text: Seq<char>, event: EventView)
    requires
        well_formed(m),
    ensures
        well_formed(fresh()),
        well_formed(after_begin(m)),
        well_formed(after_offer(m, text)),
        well_formed(after_answer(m, text)),
        well_formed(after_event(m, event)),
{
    assert(Seq::<CandidateView>::empty().no_duplicates());
    match event {
        EventView::CandidateDiscovered(c) => {
            let cs = m.state.candidates;
            if !cs.contains(c) {
                assert(cs.push(c).no_duplicates()) by {
                    assert forall|i: int, j: int|
                        0 <= i < cs.len() + 1 && 0 <= j < cs.len() + 1 && i != j implies cs.push(
                        c,
                    )[i] != cs.push(c)[j] by {
                        if i == cs.len() {
                            assert(cs.contains(cs[j]));
                        } else if j == cs.len() {
                            assert(cs.contains(cs[i]));
                        }
                    }
                }
            }
        },
        _ => {},
    }
    // The parts of well-formedness, one by one.
    let n = after_event(m, event);
    assert(n.state.candidates.no_duplicates());
    assert(n.role is None <==> n.phase == Phase::Uninitialized);
    assert(n.phase == Phase::ChannelOpen ==> n.state.channel_status == ChannelStatus::Open);
    assert(n.phase == Phase::OfferReady ==> n.role == Some(Role::Host));
    assert(n.phase == Phase::OfferReady ==> n.local_description is Some);
    assert(n.phase == Phase::AnswerReady ==> n.role == Some(Role::Joiner));
    assert(n.phase == Phase::AnswerReady ==> n.local_description is Some);
    assert(n.phase == Phase::Negotiating ==> n.role == Some(Role::Host));
    assert(well_formed(n));
}

/// A role, once taken, stays: no operation and no event changes it.
pub proof fn lemma_role_fixed(m: ManagerView, text: Seq<char>, event: EventView)
    requires
        well_formed(m),
        m.role is Some,
    ensures
        after_begin(m).role == m.role,
        after_offer(m, text).role == m.role,
        after_answer(m, text).role == m.role,
        after_event(m, event).role == m.role,
{
}

/// A side has a code to share exactly when its description exists and the
/// envelope of its artifact is short enough.
pub proof fn lemma_code_needs_description(m: ManagerView)
    ensures
        m.local_description is None ==> local_code(m) is None,
        local_code(m) is Some <==> m.local_description is Some && encodable(local_artifact(m)->0),
        local_code(m) is Some ==> local_code(m) == Some(encoding(local_artifact(m)->0)),
{
}

/// A text that means an artifact is accepted where a code is awaited: as
/// an offer by a manager without a role, which becomes a joiner, and as an
/// answer by a host that awaits one, which goes on to negotiate. Both hand
/// the artifact on to the transport.
pub proof fn lemma_code_is_accepted(
    text: Seq<char>,
    a: ArtifactView,
    joiner: ManagerView,
    host: ManagerView,
)
    requires
        decoding(text) == Ok::<ArtifactView, DecodeError>(a),
    ensures
        joiner.phase == Phase::Uninitialized ==> offer_result(joiner, text) == Ok::<
            CommandView,
            NetworkError,
        >(CommandView::AnswerOffer(a)) && after_offer(joiner, text) == started(Role::Joiner),
        awaits_answer(host) ==> answer_result(host, text) == Ok::<CommandView, NetworkError>(
            CommandView::ApplyAnswer(a),
        ) && after_answer(host, text) == (ManagerView { phase: Phase::Negotiating, ..host }),
{
}

/// An answer before the host has begun is refused as `InvalidState`, and a
/// text that is no connection code is refused with the decode error; both
/// leave the manager as it was.
pub proof fn lemma_refusals_change_nothing(m: ManagerView, text: Seq<char>)
    requires
        well_formed(m),
    ensures
        m.phase == Phase::Uninitialized ==> answer_result(m, text) == Err::<
            CommandView,
            NetworkError,
        >(NetworkError::InvalidState),
        answer_result(m, text) is Err ==> after_answer(m, text) == m,
        offer_result(m, text) is Err ==> after_offer(m, text) == m,
        decoding(text) is Err && m.phase == Phase::Uninitialized ==> offer_result(m, text) == Err::<
            CommandView,
            NetworkError,
        >(NetworkError::InvalidOffer(decoding(text)->Err_0)),
        decoding(text) is Err && awaits_answer(m) ==> answer_result(m, text) == Err::<
            CommandView,
            NetworkError,
        >(NetworkError::InvalidAnswer(decoding(text)->Err_0)),
{
}

// ------------------------------------------------------------ the manager

/// The negotiation state of one peer.
#[derive(Debug)]
pub struct NetworkManager {
    role: Option<Role>,
    phase: Phase,
    state: ConnectionState,
    local_description: Option<String>,
}

impl View for NetworkManager {
    type V = ManagerView;

    closed spec fn view(&self) -> ManagerView {
        ManagerView {
            role: self.role,
            phase: self.phase,
            state: self.state@,
            local_description: match self.local_description {
                Some(d) => Some(d@),
                None => None,
            },
        }
    }
}

fn holds(cs: &Vec<IceCandidate>, c: &IceCandidate) -> (b: bool)
    ensures
        b == candidate_views(cs@).contains(c@),
{
    let mut i: usize = 0;
    while i < cs.len()
        invariant
            0 <= i <= cs@.len(),
            forall|j: int| 0 <= j < i ==> candidate_views(cs@)[j] != c@,
        decreases cs@.len() - i,
    {
        if cs[i].same(c) {
            assert(candidate_views(cs@)[i as int] == c@);
            return true;
        }
        i = i + 1;
    }
    false
}

fn settle(role: Option<Role>, phase: Phase, state: &ConnectionState, has_description: bool) -> (p:
    Phase)
    ensures
        p == settled_phase(role, phase, state@, has_description),
{
    if phase == Phase::Uninitialized || phase == Phase::Closed {
        phase
    } else if state.channel_status == ChannelStatus::Closed || state.connectivity_status
        == ConnectivityStatus::Closed {
        Phase::Closed
    } else if state.channel_status == ChannelStatus::Open {
        Phase::ChannelOpen
    } else if phase == Phase::ChannelOpen {
        Phase::Closed
    } else if phase == Phase::NegotiationStarted && state.candidate_gathering_status
        == GatheringStatus::Complete && has_description {
        if role == Some(Role::Host) {
            Phase::OfferReady
        } else {
            Phase::AnswerReady
        }
    } else {
        phase
    }
}

impl NetworkManager {
    #[verifier::type_invariant]
    spec fn consistent(self) -> bool {
        well_formed(self@)
    }

    /// A manager on which nothing has happened. Nothing is asked of the
    /// transport.
    pub fn new() -> (m: NetworkManager)
        ensures
            m@ == fresh(),
    {
        proof {
            lemma_well_formed_kept(fresh(), Seq::empty(), EventView::ChannelMessage(Seq::empty()));
        }
        NetworkManager {
            role: None,
            phase: Phase::Uninitialized,
            state: ConnectionState::new(),
            local_description: None,
        }
    }

    /// The connection state, as a copy.
    pub fn current_state(&self) -> (s: ConnectionState)
        ensures
            s@ == self@.state,
    {
        self.state.clone()
    }

    /// The connection state tagged with the role.
    pub fn get_state(&self) -> (s: State)
        ensures
            s@ == tagged(self@),
    {
        match self.role {
            None => State::Default,
            Some(Role::Host) => State::Server(self.state.clone()),
            Some(Role::Joiner) => State::Client(self.state.clone()),
        }
    }

    /// The role taken, if any. Every manager is well formed.
    pub fn role(&self) -> (r: Option<Role>)
        ensures
            r == self@.role,
            well_formed(self@),
    {
        proof {
            use_type_invariant(self);
        }
        self.role
    }

    /// How far the negotiation has come. Every manager is well formed.
    pub fn phase(&self) -> (p: Phase)
        ensures
            p == self@.phase,
            well_formed(self@),
    {
        proof {
            use_type_invariant(self);
        }
        self.phase
    }

    /// Whether the message channel is open.
    pub fn is_channel_open(&self) -> (b: bool)
        ensures
            b == (self@.state.channel_status == ChannelStatus::Open),
    {
        self.state.channel_status == ChannelStatus::Open
    }

    /// The local session description, once the transport has made it.
    pub fn get_offer(&self) -> (d: Option<String>)
        ensures
            match d {
                Some(text) => self@.local_description == Some(text@),
                None => self@.local_description is None,
            },
    {
        match &self.local_description {
            Some(d) => Some(d.clone()),
            None => None,
        }
    }

    /// The local candidates gathered so far.
    pub fn get_ice_candidates(&self) -> (cs: Vec<IceCandidate>)
        ensures
            candidate_views(cs@) == self@.state.candidates,
    {
        clone_candidates(&self.state.candidates)
    }

    /// The artifact of this side, once its description exists.
    pub fn local_artifact(&self) -> (r: Option<ConnectionString>)
        ensures
            match r {
                Some(a) => local_artifact(self@) == Some(a@),
                None => local_artifact(self@) is None,
            },
    {
        match &self.local_description {
            Some(d) => Some(
                ConnectionString {
                    ice_candidates: clone_candidates(&self.state.candidates),
                    offer: d.clone(),
                },
            ),
            None => None,
        }
    }

    /// The connection code of this side, once its description exists. The
    /// code means the artifact of this side as it is now.
    pub fn local_code(&self) -> (r: Option<String>)
        ensures
            match r {
                Some(text) => local_code(self@) == Some(text@) && decoding(text@) == Ok::<
                    ArtifactView,
                    DecodeError,
                >(local_artifact(self@)->0) && all_standard(text@),
                None => local_code(self@) is None,
            },
    {
        match self.local_artifact() {
            Some(a) => match encode(&a) {
                Ok(text) => Some(text),
                Err(_) => None,
            },
            None => None,
        }
    }

    /// Takes the host's role and asks for the offer to be created.
    /// Refused as `AlreadyStarted` on a manager that has a role.
    pub fn begin_as_host(&mut self) -> (r: Result<Command, NetworkError>)
        ensures
            final(self)@ == after_begin(old(self)@),
            match r {
                Ok(c) => begin_result(old(self)@) == Ok::<CommandView, NetworkError>(c@),
                Err(e) => begin_result(old(self)@) == Err::<CommandView, NetworkError>(e),
            },
    {
        if self.phase != Phase::Uninitialized {
            return Err(NetworkError::AlreadyStarted);
        }
        proof {
            use_type_invariant(&*self);
            lemma_well_formed_kept(self@, Seq::empty(), EventView::ChannelMessage(Seq::empty()));
        }
        *self = NetworkManager {
            role: Some(Role::Host),
            phase: Phase::NegotiationStarted,
            state: ConnectionState::new(),
            local_description: None,
        };
        Ok(Command::CreateOffer)
    }

    /// Takes the joiner's role on the host's connection code and asks for
    /// the answer to be created. Refused as `InvalidState` on a manager
    /// that has a role, as `InvalidOffer` on a text that is no connection
    /// code; a refusal changes nothing.
    pub fn accept_offer(&mut self, text: &str) -> (r: Result<Command, NetworkError>)
        ensures
            final(self)@ == after_offer(old(self)@, text@),
            match r {
                Ok(c) => offer_result(old(self)@, text@) == Ok::<CommandView, NetworkError>(c@),
                Err(e) => offer_result(old(self)@, text@) == Err::<CommandView, NetworkError>(e),
            },
    {
        if self.phase != Phase::Uninitialized {
            return Err(NetworkError::InvalidState);
        }
        match decode(text) {
            Err(e) => Err(NetworkError::InvalidOffer(e)),
            Ok(artifact) => {
                proof {
                    use_type_invariant(&*self);
                    lemma_well_formed_kept(self@, text@, EventView::ChannelMessage(Seq::empty()));
                }
                *self = NetworkManager {
                    role: Some(Role::Joiner),
                    phase: Phase::NegotiationStarted,
                    state: ConnectionState::new(),
                    local_description: None,
                };
                Ok(Command::AnswerOffer(artifact))
            },
        }
    }

    /// Takes the joiner's answer and asks for it to be applied. Refused as
    /// `InvalidState` unless the manager is a host that awaits an answer, as
    /// `InvalidAnswer` on a text that is no connection code; a refusal
    /// changes nothing.
    pub fn accept_answer(&mut self, text: &str) -> (r: Result<Command, NetworkError>)
        ensures
            final(self)@ == after_answer(old(self)@, text@),
            match r {
                Ok(c) => answer_result(old(self)@, text@) == Ok::<CommandView, NetworkError>(c@),
                Err(e) => answer_result(old(self)@, text@) == Err::<CommandView, NetworkError>(e),
            },
    {
        let awaits = match self.role {
            Some(Role::Host) => self.phase == Phase::NegotiationStarted || self.phase
                == Phase::OfferReady,
            _ => false,
        };
        if !awaits {
            return Err(NetworkError::InvalidState);
        }
        match decode(text) {
            Err(e) => Err(NetworkError::InvalidAnswer(e)),
            Ok(artifact) => {
                proof {
                    use_type_invariant(&*self);
                    lemma_well_formed_kept(self@, text@, EventView::ChannelMessage(Seq::empty()));
                }
                self.phase = Phase::Negotiating;
                Ok(Command::ApplyAnswer(artifact))
            },
        }
    }

    /// Asks for the bytes to be sent. Refused as `InvalidState` unless the
    /// channel is open.
    pub fn send(&self, bytes: &[u8]) -> (r: Result<Command, NetworkError>)
        ensures
            match r {
                Ok(c) => send_result(self@, bytes@) == Ok::<CommandView, NetworkError>(c@),
                Err(e) => send_result(self@, bytes@) == Err::<CommandView, NetworkError>(e),
            },
    {
        if self.state.channel_status == ChannelStatus::Open {
            Ok(Command::Transmit(vstd::slice::slice_to_vec(bytes)))
        } else {
            Err(NetworkError::InvalidState)
        }
    }

    /// Takes note of what the transport reports and says what the owner has
    /// to learn of it.
    pub fn on_event(&mut self, event: TransportEvent) -> (n: Notification)
        ensures
            final(self)@ == after_event(old(self)@, event@),
            n@ == notification(old(self)@, event@),
    {
        proof {
            use_type_invariant(&*self);
            lemma_well_formed_kept(self@, Seq::empty(), event@);
        }
        if self.phase == Phase::Uninitialized {
            return match event {
                TransportEvent::ChannelMessage(bytes) => {
                    if self.state.channel_status == ChannelStatus::Open {
                        Notification::MessageReceived(bytes)
                    } else {
                        Notification::StateChanged(self.get_state())
                    }
                },
                _ => Notification::StateChanged(self.get_state()),
            };
        }
        let mut state = self.state.clone();
        let mut local_description = match &self.local_description {
            Some(d) => Some(d.clone()),
            None => None,
        };
        let mut message: Option<Vec<u8>> = None;
        match event {
            TransportEvent::LocalDescription(d) => {
                local_description = Some(d);
            },
            TransportEvent::CandidateDiscovered(c) => {
                if !holds(&state.candidates, &c) {
                    let ghost before = state.candidates@;
                    state.candidates.push(c);
                    assert(candidate_views(state.candidates@) =~= candidate_views(before).push(
                        c@,
                    ));
                }
            },
            TransportEvent::GatheringChanged(g) => {
                state.candidate_gathering_status = g;
            },
            TransportEvent::ConnectivityChanged(c) => {
                state.connectivity_status = c;
            },
            TransportEvent::ChannelChanged(c) => {
                state.channel_status = c;
            },
            TransportEvent::ChannelMessage(bytes) => {
                if self.state.channel_status == ChannelStatus::Open {
                    message = Some(bytes);
                }
            },
        }
        let phase = settle(self.role, self.phase, &state, local_description.is_some());
        *self = NetworkManager { role: self.role, phase, state, local_description };
        match message {
            Some(bytes) => Notification::MessageReceived(bytes),
            None => Notification::StateChanged(self.get_state()),
        }
    }
}

} // verus!
