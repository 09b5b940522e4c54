//! A transport that exists in memory only: it answers every command at
//! once and always in the same way, so that two sessions can be connected
//! without a network. With it stand the two hand-overs of a connection code
//! from one peer to the other.

use crate::codec::{candidate_views, CandidateView, IceCandidate};
use crate::network::{
    after_answer, after_offer, answer_result, awaits_answer, lemma_code_is_accepted,
    local_artifact, local_code, offer_result, started, Command, CommandView, EventView,
    ManagerView, NetworkError, NetworkManager, Phase, TransportEvent,
};
use crate::state::{ChannelStatus, ConnectivityStatus, GatheringStatus, Role};
use vstd::prelude::*;

verus! {

/// The transport of one peer: the description and the candidates that it
/// will come up with.
#[derive(Debug)]
pub struct FakeTransport {
    description: String,
    candidates: Vec<IceCandidate>,
}

pub struct FakeTransportView {
    pub description: Seq<char>,
    pub candidates: Seq<CandidateView>,
}

impl View for FakeTransport {
    type V = FakeTransportView;

    closed spec fn view(&self) -> FakeTransportView {
        FakeTransportView {
            description: self.description@,
            candidates: candidate_views(self.candidates@),
        }
    }
}

pub open spec fn event_views(v: Seq<TransportEvent>) -> Seq<EventView> {
    v.map_values(|e: TransportEvent| e@)
}

/// What a transport reports while it makes its description and gathers its
/// candidates.
pub open spec fn harvest_events(t: FakeTransportView) -> Seq<EventView> {
    seq![
        EventView::LocalDescription(t.description),
        EventView::GatheringChanged(GatheringStatus::InProgress),
    ] + t.candidates.map_values(|c: CandidateView| EventView::CandidateDiscovered(c)) + seq![
        EventView::GatheringChanged(GatheringStatus::Complete),
    ]
}

/// What a transport reports while the two peers find each other and the
/// channel opens.
pub open spec fn opening_events() -> Seq<EventView> {
    seq![
        EventView::ConnectivityChanged(ConnectivityStatus::Checking),
        EventView::ConnectivityChanged(ConnectivityStatus::Connected),
        EventView::ChannelChanged(ChannelStatus::Open),
    ]
}

/// What the transport of the peer that gave the command reports.
pub open spec fn own_events(t: FakeTransportView, command: CommandView) -> Seq<EventView> {
    match command {
        CommandView::CreateOffer => harvest_events(t),
        CommandView::AnswerOffer(_) => harvest_events(t),
        CommandView::ApplyAnswer(_) => opening_events(),
        CommandView::Transmit(_) => Seq::empty(),
    }
}

/// What the transport of the other peer reports.
pub open spec fn peer_events(command: CommandView) -> Seq<EventView> {
    match command {
        CommandView::CreateOffer => Seq::empty(),
        CommandView::AnswerOffer(_) => Seq::empty(),
        CommandView::ApplyAnswer(_) => opening_events(),
        CommandView::Transmit(bytes) => seq![EventView::ChannelMessage(bytes)],
    }
}

fn opening() -> (events: Vec<TransportEvent>)
    ensures
        event_views(events@) == opening_events(),
{
    let mut events: Vec<TransportEvent> = Vec::new();
    events.push(TransportEvent::ConnectivityChanged(ConnectivityStatus::Checking));
    events.push(TransportEvent::ConnectivityChanged(ConnectivityStatus::Connected));
    events.push(TransportEvent::ChannelChanged(ChannelStatus::Open));
    assert(event_views(events@) =~= opening_events());
    events
}

impl FakeTransport {
    /// A transport that will come up with the given description and
    /// candidates.
    pub fn new(description: String, candidates: Vec<IceCandidate>) -> (t: FakeTransport)
        ensures
            t@ == (FakeTransportView {
                description: description@,
                candidates: candidate_views(candidates@),
            }),
    {
        FakeTransport { description, candidates }
    }

    fn harvest(&self) -> (events: Vec<TransportEvent>)
        ensures
            event_views(events@) == harvest_events(self@),
    {
        let ghost found = self@.candidates.map_values(
            |c: CandidateView| EventView::CandidateDiscovered(c),
        );
        let ghost head = seq![
            EventView::LocalDescription(self@.description),
            EventView::GatheringChanged(GatheringStatus::InProgress),
        ];
        let mut events: Vec<TransportEvent> = Vec::new();
        events.push(TransportEvent::LocalDescription(self.description.clone()));
        events.push(TransportEvent::GatheringChanged(GatheringStatus::InProgress));
        assert(event_views(events@) =~= head + found.take(0));
        let mut i: usize = 0;
        while i < self.candidates.len()
            invariant
                0 <= i <= self.candidates@.len(),
                found == self@.candidates.map_values(
                    |c: CandidateView| EventView::CandidateDiscovered(c),
                ),
                head == seq![
                    EventView::LocalDescription(self@.description),
                    EventView::GatheringChanged(GatheringStatus::InProgress),
                ],
                events@.len() == 2 + i,
                event_views(events@) == head + found.take(i as int),
            decreases self.candidates@.len() - i,
        {
            let ghost before = event_views(events@);
            let c = self.candidates[i].clone();
            assert(c@ == self@.candidates[i as int]);
            events.push(TransportEvent::CandidateDiscovered(c));
            assert(event_views(events@) =~= before.push(found[i as int]));
            assert(before.push(found[i as int]) =~= head + found.take(i + 1));
            i = i + 1;
        }
        let ghost before = event_views(events@);
        events.push(TransportEvent::GatheringChanged(GatheringStatus::Complete));
        assert(found.take(i as int) =~= found);
        assert(event_views(events@) =~= before.push(
            EventView::GatheringChanged(GatheringStatus::Complete),
        ));
        assert(event_views(events@) =~= harvest_events(self@));
        events
    }

    /// What this transport reports to its peer after the peer gave the
    /// command.
    pub fn perform(&self, command: &Command) -> (events: Vec<TransportEvent>)
        ensures
            event_views(events@) == own_events(self@, command@),
    {
        match command {
            Command::CreateOffer => self.harvest(),
            Command::AnswerOffer(_) => self.harvest(),
            Command::ApplyAnswer(_) => opening(),
            Command::Transmit(_) => {
                let events: Vec<TransportEvent> = Vec::new();
                assert(event_views(events@) =~= Seq::<EventView>::empty());
                events
            },
        }
    }

    /// What the transport of the other peer reports after this peer gave
    /// the command.
    pub fn reach_peer(command: &Command) -> (events: Vec<TransportEvent>)
        ensures
            event_views(events@) == peer_events(command@),
    {
        match command {
            Command::ApplyAnswer(_) => opening(),
            Command::Transmit(bytes) => {
                let mut events: Vec<TransportEvent> = Vec::new();
                events.push(TransportEvent::ChannelMessage(bytes.clone()));
                assert(event_views(events@) =~= peer_events(command@));
                events
            },
            _ => {
                let events: Vec<TransportEvent> = Vec::new();
                assert(event_views(events@) =~= Seq::<EventView>::empty());
                events
            },
        }
    }
}

/// Hands the host's present code to the other manager as an offer, as the
/// two users do by hand. Where the host has a code and the other manager
/// has no role yet, the offer is accepted: the manager becomes a joiner and
/// is told to answer the host's present description and candidates.
pub fn relay_offer(host: &NetworkManager, joiner: &mut NetworkManager) -> (r: Option<
    Result<Command, NetworkError>,
>)
    ensures
        local_code(host@) is None ==> r is None && final(joiner)@ == old(joiner)@,
        local_code(host@) is Some ==> r is Some && final(joiner)@ == after_offer(
            old(joiner)@,
            local_code(host@)->0,
        ),
        r matches Some(Ok(c)) ==> offer_result(old(joiner)@, local_code(host@)->0) == Ok::<
            CommandView,
            NetworkError,
        >(c@),
        r matches Some(Err(e)) ==> offer_result(old(joiner)@, local_code(host@)->0) == Err::<
            CommandView,
            NetworkError,
        >(e),
        local_code(host@) is Some && old(joiner)@.phase == Phase::Uninitialized ==> {
            &&& final(joiner)@ == started(Role::Joiner)
            &&& r matches Some(Ok(c))
            &&& c@ == CommandView::AnswerOffer(local_artifact(host@)->0)
        },
{
    match host.local_code() {
        None => None,
        Some(code) => {
            proof {
                lemma_code_is_accepted(code@, local_artifact(host@)->0, joiner@, joiner@);
            }
            Some(joiner.accept_offer(code.as_str()))
        },
    }
}

/// Hands the joiner's present code to the host as an answer, as the two
/// users do by hand. Where the joiner has a code and the host awaits an
/// answer, the answer is accepted: the host goes on to negotiate and is
/// told to apply the joiner's present description and candidates.
pub fn relay_answer(joiner: &NetworkManager, host: &mut NetworkManager) -> (r: Option<
    Result<Command, NetworkError>,
>)
    ensures
        local_code(joiner@) is None ==> r is None && final(host)@ == old(host)@,
        local_code(joiner@) is Some ==> r is Some && final(host)@ == after_answer(
            old(host)@,
            local_code(joiner@)->0,
        ),
        r matches Some(Ok(c)) ==> answer_result(old(host)@, local_code(joiner@)->0) == Ok::<
            CommandView,
            NetworkError,
        >(c@),
        r matches Some(Err(e)) ==> answer_result(old(host)@, local_code(joiner@)->0) == Err::<
            CommandView,
            NetworkError,
        >(e),
        local_code(joiner@) is Some && awaits_answer(old(host)@) ==> {
            &&& final(host)@ == (ManagerView { phase: Phase::Negotiating, ..old(host)@ })
            &&& r matches Some(Ok(c))
            &&& c@ == CommandView::ApplyAnswer(local_artifact(joiner@)->0)
        },
{
    match joiner.local_code() {
        None => None,
        Some(code) => {
            proof {
                lemma_code_is_accepted(code@, local_artifact(joiner@)->0, host@, host@);
            }
            Some(host.accept_answer(code.as_str()))
        },
    }
}

} // verus!
