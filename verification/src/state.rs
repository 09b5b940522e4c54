//! Snapshot of what the transport has reported so far.

use crate::codec::{candidate_views, clone_candidates, CandidateView, IceCandidate};
use vstd::prelude::*;
use vstd::string::*;

verus! {

/// Which side of the negotiation a peer is on. Fixed once chosen.
#[derive(Clone, Copy, Debug, PartialEq, Eq, Structural)]
pub enum Role {
    /// Originates the offer.
    Host,
    /// Originates the answer.
    Joiner,
}

/// Progress of the discovery of local candidates.
#[derive(Clone, Copy, Debug, PartialEq, Eq, Structural)]
pub enum GatheringStatus {
    NotStarted,
    InProgress,
    Complete,
}

/// Progress of the connectivity checks between the two peers.
#[derive(Clone, Copy, Debug, PartialEq, Eq, Structural)]
pub enum ConnectivityStatus {
    New,
    Checking,
    Connected,
    Failed,
    Disconnected,
    Closed,
}

/// State of the message channel.
#[derive(Clone, Copy, Debug, PartialEq, Eq, Structural)]
pub enum ChannelStatus {
    Connecting,
    Open,
    Closing,
    Closed,
}

impl GatheringStatus {
    /// The variant's name, as `Debug` prints it.
    pub open spec fn name(self) -> Seq<char> {
        match self {
            GatheringStatus::NotStarted => "NotStarted"@,
            GatheringStatus::InProgress => "InProgress"@,
            GatheringStatus::Complete => "Complete"@,
        }
    }

    pub fn as_str(self) -> (s: &'static str)
        ensures
            s@ == self.name(),
    {
        match self {
            GatheringStatus::NotStarted => "NotStarted",
            GatheringStatus::InProgress => "InProgress",
            GatheringStatus::Complete => "Complete",
        }
    }
}

impl ConnectivityStatus {
    /// The variant's name, as `Debug` prints it.
    pub open spec fn name(self) -> Seq<char> {
        match self {
            ConnectivityStatus::New => "New"@,
            ConnectivityStatus::Checking => "Checking"@,
            ConnectivityStatus::Connected => "Connected"@,
            ConnectivityStatus::Failed => "Failed"@,
            ConnectivityStatus::Disconnected => "Disconnected"@,
            ConnectivityStatus::Closed => "Closed"@,
        }
    }

    pub fn as_str(self) -> (s: &'static str)
        ensures
            s@ == self.name(),
    {
        match self {
            ConnectivityStatus::New => "New",
            ConnectivityStatus::Checking => "Checking",
            ConnectivityStatus::Connected => "Connected",
            ConnectivityStatus::Failed => "Failed",
            ConnectivityStatus::Disconnected => "Disconnected",
            ConnectivityStatus::Closed => "Closed",
        }
    }
}

impl ChannelStatus {
    /// The variant's name, as `Debug` prints it.
    pub open spec fn name(self) -> Seq<char> {
        match self {
            ChannelStatus::Connecting => "Connecting"@,
            ChannelStatus::Open => "Open"@,
            ChannelStatus::Closing => "Closing"@,
            ChannelStatus::Closed => "Closed"@,
        }
    }

    pub fn as_str(self) -> (s: &'static str)
        ensures
            s@ == self.name(),
    {
        match self {
            ChannelStatus::Connecting => "Connecting",
            ChannelStatus::Open => "Open",
            ChannelStatus::Closing => "Closing",
            ChannelStatus::Closed => "Closed",
        }
    }
}

/// What the transport has reported of one session: its three statuses and
/// the local candidates gathered so far.
#[derive(Debug, PartialEq, Eq)]
pub struct ConnectionState {
    pub candidate_gathering_status: GatheringStatus,
    pub connectivity_status: ConnectivityStatus,
    pub channel_status: ChannelStatus,
    pub candidates: Vec<IceCandidate>,
}

pub struct ConnectionStateView {
    pub candidate_gathering_status: GatheringStatus,
    pub connectivity_status: ConnectivityStatus,
    pub channel_status: ChannelStatus,
    pub candidates: Seq<CandidateView>,
}

impl View for ConnectionState {
    type V = ConnectionStateView;

    open spec fn view(&self) -> ConnectionStateView {
        ConnectionStateView {
            candidate_gathering_status: self.candidate_gathering_status,
            connectivity_status: self.connectivity_status,
            channel_status: self.channel_status,
            candidates: candidate_views(self.candidates@),
        }
    }
}

impl Clone for ConnectionState {
    fn clone(&self) -> (c: ConnectionState)
        ensures
            c@ == self@,
            c.candidates@ == self.candidates@,
    {
        ConnectionState {
            candidate_gathering_status: self.candidate_gathering_status,
            connectivity_status: self.connectivity_status,
            channel_status: self.channel_status,
            candidates: clone_candidates(&self.candidates),
        }
    }
}

impl ConnectionState {
    /// The state of a session on which nothing has happened yet.
    pub open spec fn initial() -> ConnectionStateView {
        ConnectionStateView {
            candidate_gathering_status: GatheringStatus::NotStarted,
            connectivity_status: ConnectivityStatus::New,
            channel_status: ChannelStatus::Connecting,
            candidates: Seq::empty(),
        }
    }

    pub fn new() -> (s: ConnectionState)
        ensures
            s@ == ConnectionState::initial(),
    {
        let s = ConnectionState {
            candidate_gathering_status: GatheringStatus::NotStarted,
            connectivity_status: ConnectivityStatus::New,
            channel_status: ChannelStatus::Connecting,
            candidates: Vec::new(),
        };
        assert(s@.candidates =~= Seq::<CandidateView>::empty());
        s
    }
}

/// A connection state tagged with the role of the peer it belongs to.
#[derive(Debug, PartialEq, Eq)]
pub enum State {
    /// No role has been taken yet.
    Default,
    /// The peer hosts.
    Server(ConnectionState),
    /// The peer joins.
    Client(ConnectionState),
}

pub enum StateView {
    Default,
    Server(ConnectionStateView),
    Client(ConnectionStateView),
}

impl View for State {
    type V = StateView;

    open spec fn view(&self) -> StateView {
        match self {
            State::Default => StateView::Default,
            State::Server(c) => StateView::Server(c@),
            State::Client(c) => StateView::Client(c@),
        }
    }
}

impl Clone for State {
    fn clone(&self) -> (c: State)
        ensures
            c@ == self@,
    {
        match self {
            State::Default => State::Default,
            State::Server(c) => State::Server(c.clone()),
            State::Client(c) => State::Client(c.clone()),
        }
    }
}

impl StateView {
    /// The role that the state is tagged with.
    pub open spec fn role(self) -> Option<Role> {
        match self {
            StateView::Default => None,
            StateView::Server(_) => Some(Role::Host),
            StateView::Client(_) => Some(Role::Joiner),
        }
    }

    /// Whether the message channel is reported open.
    pub open spec fn channel_open(self) -> bool {
        match self {
            StateView::Default => false,
            StateView::Server(c) => c.channel_status == ChannelStatus::Open,
            StateView::Client(c) => c.channel_status == ChannelStatus::Open,
        }
    }

    /// Whether the gathering of candidates is reported complete.
    pub open spec fn gathering_complete(self) -> bool {
        match self {
            StateView::Default => false,
            StateView::Server(c) => c.candidate_gathering_status == GatheringStatus::Complete,
            StateView::Client(c) => c.candidate_gathering_status == GatheringStatus::Complete,
        }
    }
}

impl State {
    pub fn role(&self) -> (r: Option<Role>)
        ensures
            r == self@.role(),
    {
        match self {
            State::Default => None,
            State::Server(_) => Some(Role::Host),
            State::Client(_) => Some(Role::Joiner),
        }
    }

    pub fn channel_open(&self) -> (b: bool)
        ensures
            b == self@.channel_open(),
    {
        match self {
            State::Default => false,
            State::Server(c) => c.channel_status == ChannelStatus::Open,
            State::Client(c) => c.channel_status == ChannelStatus::Open,
        }
    }

    pub fn gathering_complete(&self) -> (b: bool)
        ensures
            b == self@.gathering_complete(),
    {
        match self {
            State::Default => false,
            State::Server(c) => c.candidate_gathering_status == GatheringStatus::Complete,
            State::Client(c) => c.candidate_gathering_status == GatheringStatus::Complete,
        }
    }
}

/// The three status lines that follow the role in the debug text.
pub open spec fn status_lines(c: ConnectionStateView) -> Seq<char> {
    "\nice gathering: "@ + c.candidate_gathering_status.name() + "\nice connection: "@
        + c.connectivity_status.name() + "\ndata channel: "@ + c.channel_status.name() + "\n"@
}

/// The text that [`get_debug_state_string`] returns.
pub open spec fn debug_state_text(state: StateView) -> Seq<char> {
    match state {
        StateView::Default => "Default State"@,
        StateView::Server(c) => "Server"@ + status_lines(c),
        StateView::Client(c) => "Client"@ + status_lines(c),
    }
}

fn push_status_lines(out: String, c: &ConnectionState) -> (r: String)
    ensures
        r@ == out@ + status_lines(c@),
{
    let r = out.concat("\nice gathering: ");
    let r = r.concat(c.candidate_gathering_status.as_str());
    let r = r.concat("\nice connection: ");
    let r = r.concat(c.connectivity_status.as_str());
    let r = r.concat("\ndata channel: ");
    let r = r.concat(c.channel_status.as_str());
    let r = r.concat("\n");
    r
}

/// One line for the role, then one line per transport status.
pub fn get_debug_state_string(state: &State) -> (s: String)
    ensures
        s@ == debug_state_text(state@),
{
    match state {
        State::Default => String::from_str("Default State"),
        State::Server(c) => push_status_lines(String::from_str("Server"), c),
        State::Client(c) => push_status_lines(String::from_str("Client"), c),
    }
}

} // verus!
