//! One chat session: the steps of the connection wizard, the negotiation
//! behind them and the log of messages.
//!
//! The session is a state machine. [`ChatModel::update`] takes what the
//! user did, [`ChatModel::on_transport_event`] what the transport did; both
//! say in their [`Outcome`] what the owner has to do next.

use crate::chunker::{after_ingest, ingest_result, Chunk, FileChunker, TransferView};
use crate::b64::all_standard;
use crate::codec::{decoding, ArtifactView, DecodeError};
use crate::network::{
    after_answer, after_begin, after_event, after_offer, answer_result, begin_result, fresh,
    local_artifact, local_code, notification, offer_result, Command, CommandView, EventView,
    ManagerView, NetworkError, NetworkManager, Notification, NotificationView, TransportEvent,
};
use crate::qr_code::{qr_data_url, QrCodeGenerator, QrFailure};
use crate::state::{ChannelStatus, Role, State, StateView};
use crate::text::{
    ascii_chars, ascii_string, decimal, lemma_decimal_ascii, push_decimal, string_from_utf8,
    utf8_bytes,
};
use vstd::prelude::*;
use vstd::string::*;
use vstd::utf8::{decode_utf8, encode_utf8, valid_utf8};

verus! {

/// Who wrote a message.
#[derive(Clone, Copy, Debug, PartialEq, Eq, Structural)]
pub enum MessageSender {
    Me,
    Other,
}

/// The steps of the connection wizard.
#[derive(Clone, Copy, Debug, PartialEq, Eq, Structural)]
pub enum ConnectionStep {
    Welcome,
    ChooseRole,
    GeneratingCode,
    SharingCode,
    WaitingForConnection,
    /// The host waits for the joiner's answer.
    WaitingForAnswer,
    Connected,
}

/// Whether the peer is typing, and when that was last heard of.
#[derive(Clone, Copy, Debug, PartialEq, Eq, Structural)]
pub struct TypingState {
    pub is_typing: bool,
    pub last_activity: u64,
}

/// One message of the session. It does not change once it is made.
#[derive(Debug, PartialEq, Eq)]
pub struct Message {
    sender: MessageSender,
    content: String,
    timestamp: u64,
    id: String,
}

pub struct MessageView {
    pub sender: MessageSender,
    pub content: Seq<char>,
    pub timestamp: u64,
    pub id: Seq<char>,
}

impl View for Message {
    type V = MessageView;

    closed spec fn view(&self) -> MessageView {
        MessageView {
            sender: self.sender,
            content: self.content@,
            timestamp: self.timestamp,
            id: self.id@,
        }
    }
}

/// The message with the given content, sender and time.
pub open spec fn message_of(content: Seq<char>, sender: MessageSender, timestamp: u64) -> MessageView {
    MessageView {
        sender,
        content,
        timestamp,
        id: "msg_"@ + ascii_chars(decimal(timestamp as nat)),
    }
}

impl Message {
    /// A message written at `timestamp`, in milliseconds.
    pub fn new(content: String, sender: MessageSender, timestamp: u64) -> (m: Message)
        ensures
            m@ == message_of(content@, sender, timestamp),
    {
        let mut digits: Vec<u8> = Vec::new();
        push_decimal(&mut digits, timestamp);
        proof {
            lemma_decimal_ascii(timestamp as nat);
            assert(digits@ =~= decimal(timestamp as nat));
        }
        let number = ascii_string(digits);
        let id = String::from_str("msg_").concat(number.as_str());
        Message { sender, content, timestamp, id }
    }

    pub fn sender(&self) -> (s: MessageSender)
        ensures
            s == self@.sender,
    {
        self.sender
    }

    pub fn content(&self) -> (s: &str)
        ensures
            s@ == self@.content,
    {
        self.content.as_str()
    }

    pub fn timestamp(&self) -> (t: u64)
        ensures
            t == self@.timestamp,
    {
        self.timestamp
    }

    pub fn id(&self) -> (s: &str)
        ensures
            s@ == self@.id,
    {
        self.id.as_str()
    }
}

impl Clone for Message {
    fn clone(&self) -> (m: Message)
        ensures
            m@ == self@,
    {
        Message {
            sender: self.sender,
            content: self.content.clone(),
            timestamp: self.timestamp,
            id: self.id.clone(),
        }
    }
}

pub open spec fn message_views(v: Seq<Message>) -> Seq<MessageView> {
    v.map_values(|m: Message| m@)
}

/// What the user did, or what the application tells the session.
#[derive(Debug, PartialEq, Eq)]
pub enum Msg {
    StartAsServer,
    ConnectToServer,
    UpdateWebRTCState(State),
    Disconnect,
    Send,
    NewMessage(Message),
    UpdateInputValue(String),
    UpdateInputChatValue(String),
    /// A key was released; the number is its key code.
    OnKeyUp(u32),
    CopyToClipboard,
    ValidateOffer,
    ResetWebRTC,
    SetConnectionStep(ConnectionStep),
    ChooseHost,
    ChooseJoin,
    GenerateQRCode,
    StartTyping,
    StopTyping,
    UpdateTypingState(bool),
    CloseQRModal,
}

pub enum MsgView {
    StartAsServer,
    ConnectToServer,
    UpdateWebRTCState(StateView),
    Disconnect,
    Send,
    NewMessage(MessageView),
    UpdateInputValue(Seq<char>),
    UpdateInputChatValue(Seq<char>),
    OnKeyUp(u32),
    CopyToClipboard,
    ValidateOffer,
    ResetWebRTC,
    SetConnectionStep(ConnectionStep),
    ChooseHost,
    ChooseJoin,
    GenerateQRCode,
    StartTyping,
    StopTyping,
    UpdateTypingState(bool),
    CloseQRModal,
}

impl View for Msg {
    type V = MsgView;

    open spec fn view(&self) -> MsgView {
        match self {
            Msg::StartAsServer => MsgView::StartAsServer,
            Msg::ConnectToServer => MsgView::ConnectToServer,
            Msg::UpdateWebRTCState(s) => MsgView::UpdateWebRTCState(s@),
            Msg::Disconnect => MsgView::Disconnect,
            Msg::Send => MsgView::Send,
            Msg::NewMessage(m) => MsgView::NewMessage(m@),
            Msg::UpdateInputValue(v) => MsgView::UpdateInputValue(v@),
            Msg::UpdateInputChatValue(v) => MsgView::UpdateInputChatValue(v@),
            Msg::OnKeyUp(k) => MsgView::OnKeyUp(*k),
            Msg::CopyToClipboard => MsgView::CopyToClipboard,
            Msg::ValidateOffer => MsgView::ValidateOffer,
            Msg::ResetWebRTC => MsgView::ResetWebRTC,
            Msg::SetConnectionStep(s) => MsgView::SetConnectionStep(*s),
            Msg::ChooseHost => MsgView::ChooseHost,
            Msg::ChooseJoin => MsgView::ChooseJoin,
            Msg::GenerateQRCode => MsgView::GenerateQRCode,
            Msg::StartTyping => MsgView::StartTyping,
            Msg::StopTyping => MsgView::StopTyping,
            Msg::UpdateTypingState(b) => MsgView::UpdateTypingState(*b),
            Msg::CloseQRModal => MsgView::CloseQRModal,
        }
    }
}

/// What the session tells the user.
#[derive(Clone, Copy, Debug, PartialEq, Eq, Structural)]
pub enum Notice {
    /// The answer cannot be used.
    InvalidAnswer(NetworkError),
    /// The offer cannot be used.
    InvalidOffer(NetworkError),
    /// The negotiation could not be started.
    StartFailed(NetworkError),
    /// What was asked for is not possible at this step.
    InvalidState,
    /// The channel is not open.
    SendRefused,
    /// A message arrived that is no text.
    NotText,
    /// No QR code was made.
    QrFailed(QrFailure),
}

/// What the owner of the session has to do after an update.
#[derive(Debug, PartialEq, Eq)]
pub struct Outcome {
    /// To be performed on the transport.
    pub command: Option<Command>,
    /// To be shown to the user.
    pub notice: Option<Notice>,
    /// The view of the messages is to be scrolled to the latest.
    pub scroll: bool,
    /// The connection code is to be copied to the clipboard.
    pub copy: bool,
    /// The transport is to be released.
    pub release: bool,
}

pub struct OutcomeView {
    pub command: Option<CommandView>,
    pub notice: Option<Notice>,
    pub scroll: bool,
    pub copy: bool,
    pub release: bool,
}

impl View for Outcome {
    type V = OutcomeView;

    open spec fn view(&self) -> OutcomeView {
        OutcomeView {
            command: match self.command {
                Some(c) => Some(c@),
                None => None,
            },
            notice: self.notice,
            scroll: self.scroll,
            copy: self.copy,
            release: self.release,
        }
    }
}

pub struct ModelView {
    pub manager: ManagerView,
    pub messages: Seq<MessageView>,
    pub value: Seq<char>,
    pub chat_value: Seq<char>,
    pub connection_step: ConnectionStep,
    pub typing_state: TypingState,
    pub connection_code: Option<Seq<char>>,
    pub last_typing_time: u64,
    pub qr_code_data_url: Option<Seq<char>>,
    pub show_qr_modal: bool,
    pub transfers: Seq<TransferView>,
}

// ------------------------------------------------------------ the model

/// The key code of the enter key.
pub const ENTER_KEY: u32 = 13;

/// How many milliseconds lie between two reports that the user is typing.
pub const TYPING_INTERVAL_MS: u64 = 2000;

/// A session in which nothing has happened.
pub open spec fn initial_model() -> ModelView {
    ModelView {
        manager: fresh(),
        messages: Seq::empty(),
        value: Seq::empty(),
        chat_value: Seq::empty(),
        connection_step: ConnectionStep::Welcome,
        typing_state: TypingState { is_typing: false, last_activity: 0 },
        connection_code: None,
        last_typing_time: 0,
        qr_code_data_url: None,
        show_qr_modal: false,
        transfers: Seq::empty(),
    }
}

/// How far a step is into the wizard.
pub open spec fn step_rank(step: ConnectionStep) -> nat {
    match step {
        ConnectionStep::Welcome => 0,
        ConnectionStep::ChooseRole => 1,
        ConnectionStep::GeneratingCode => 2,
        ConnectionStep::WaitingForConnection => 2,
        ConnectionStep::SharingCode => 3,
        ConnectionStep::WaitingForAnswer => 4,
        ConnectionStep::Connected => 5,
    }
}

/// Nothing to do.
pub open spec fn quiet() -> OutcomeView {
    OutcomeView { command: None, notice: None, scroll: false, copy: false, release: false }
}

pub open spec fn with_notice(n: Notice) -> OutcomeView {
    OutcomeView { notice: Some(n), ..quiet() }
}

pub open spec fn with_command(c: CommandView) -> OutcomeView {
    OutcomeView { command: Some(c), ..quiet() }
}

/// The chat is open: the session has a role and its channel is open.
pub open spec fn chat_enabled(m: ModelView) -> bool {
    m.manager.role is Some && m.manager.state.channel_status == ChannelStatus::Open
}

/// The steps that the user may ask for: on from the welcome, and, as a
/// host, on from sharing the code to waiting for the answer.
pub open spec fn may_set_step(m: ModelView, step: ConnectionStep) -> bool {
    ||| m.connection_step == ConnectionStep::Welcome && step == ConnectionStep::ChooseRole
    ||| m.connection_step == ConnectionStep::SharingCode && step == ConnectionStep::WaitingForAnswer
        && m.manager.role == Some(Role::Host)
}

pub open spec fn set_step(m: ModelView, step: ConnectionStep) -> (ModelView, OutcomeView) {
    if may_set_step(m, step) {
        (ModelView { connection_step: step, ..m }, quiet())
    } else {
        (m, with_notice(Notice::InvalidState))
    }
}

pub open spec fn start_as_server(m: ModelView) -> (ModelView, OutcomeView) {
    match begin_result(m.manager) {
        Ok(c) => (ModelView { manager: after_begin(m.manager), ..m }, with_command(c)),
        Err(e) => (m, with_notice(Notice::StartFailed(e))),
    }
}

pub open spec fn choose_host(m: ModelView) -> (ModelView, OutcomeView) {
    if m.connection_step != ConnectionStep::ChooseRole {
        (m, with_notice(Notice::InvalidState))
    } else {
        match begin_result(m.manager) {
            Ok(c) => (
                ModelView {
                    manager: after_begin(m.manager),
                    connection_step: ConnectionStep::GeneratingCode,
                    ..m
                },
                with_command(c),
            ),
            Err(e) => (m, with_notice(Notice::StartFailed(e))),
        }
    }
}

pub open spec fn choose_join(m: ModelView) -> (ModelView, OutcomeView) {
    if m.connection_step != ConnectionStep::ChooseRole {
        (m, with_notice(Notice::InvalidState))
    } else {
        (ModelView { connection_step: ConnectionStep::WaitingForConnection, ..m }, quiet())
    }
}

/// The local artifact is ready to be shown: the state reports complete
/// gathering for the side that the wizard is generating or sharing a code
/// for, and the code exists.
pub open spec fn code_ready(m: ModelView, s: StateView) -> bool {
    &&& s.gathering_complete()
    &&& local_code(m.manager) is Some
    &&& {
        ||| m.connection_step == ConnectionStep::GeneratingCode && s.role() == Some(Role::Host)
        ||| m.connection_step == ConnectionStep::SharingCode && s.role() == Some(Role::Joiner)
            && m.connection_code is None
    }
}

/// The step after the transport has reported a state: an open channel
/// leads to the chat from every step; a host's complete gathering leads on
/// from generating the code to sharing it.
pub open spec fn step_on_state(m: ModelView, s: StateView) -> ConnectionStep {
    if s.channel_open() {
        ConnectionStep::Connected
    } else if m.connection_step == ConnectionStep::GeneratingCode && code_ready(m, s) {
        ConnectionStep::SharingCode
    } else {
        m.connection_step
    }
}

pub open spec fn state_changed(m: ModelView, s: StateView) -> (ModelView, OutcomeView) {
    (
        ModelView {
            value: Seq::empty(),
            connection_step: step_on_state(m, s),
            connection_code: if code_ready(m, s) {
                local_code(m.manager)
            } else {
                m.connection_code
            },
            ..m
        },
        quiet(),
    )
}

pub open spec fn validate_offer(m: ModelView) -> (ModelView, OutcomeView) {
    if m.manager.role == Some(Role::Host) && m.connection_step == ConnectionStep::WaitingForAnswer {
        (
            ModelView { manager: after_answer(m.manager, m.value), ..m },
            match answer_result(m.manager, m.value) {
                Ok(c) => with_command(c),
                Err(e) => with_notice(Notice::InvalidAnswer(e)),
            },
        )
    } else if m.connection_step == ConnectionStep::WaitingForConnection {
        match offer_result(m.manager, m.value) {
            Ok(c) => (
                ModelView {
                    manager: after_offer(m.manager, m.value),
                    connection_step: ConnectionStep::SharingCode,
                    ..m
                },
                with_command(c),
            ),
            Err(e) => (m, with_notice(Notice::InvalidOffer(e))),
        }
    } else {
        (m, with_notice(Notice::InvalidState))
    }
}

pub open spec fn new_message(m: ModelView, message: MessageView) -> (ModelView, OutcomeView) {
    (
        ModelView { messages: m.messages.push(message), ..m },
        OutcomeView { scroll: true, ..quiet() },
    )
}

/// Sending what the chat input holds: the message is logged at once and
/// handed to the transport, where the chat is open.
pub open spec fn send_text(m: ModelView, now: u64) -> (ModelView, OutcomeView) {
    if !chat_enabled(m) {
        (m, with_notice(Notice::SendRefused))
    } else {
        (
            ModelView {
                messages: m.messages.push(message_of(m.chat_value, MessageSender::Me, now)),
                chat_value: Seq::empty(),
                ..m
            },
            OutcomeView {
                command: Some(CommandView::Transmit(encode_utf8(m.chat_value))),
                scroll: true,
                ..quiet()
            },
        )
    }
}

/// Sending a given text: refused, with the session left as it was, unless
/// the chat is open; else as if the chat input held the text.
pub open spec fn send_given(m: ModelView, text: Seq<char>, now: u64) -> (ModelView, OutcomeView) {
    if !chat_enabled(m) {
        (m, with_notice(Notice::SendRefused))
    } else {
        send_text(ModelView { chat_value: text, ..m }, now)
    }
}

pub open spec fn key_up(m: ModelView, key_code: u32, now: u64) -> (ModelView, OutcomeView) {
    if key_code == ENTER_KEY && m.chat_value.len() > 0 {
        send_text(m, now)
    } else {
        (m, quiet())
    }
}

/// The code that a QR code is made of: the one on show, or else the local
/// one.
pub open spec fn code_for_qr(m: ModelView) -> Option<Seq<char>> {
    match m.connection_code {
        Some(c) => Some(c),
        None => local_code(m.manager),
    }
}

pub open spec fn generate_qr(m: ModelView) -> (ModelView, OutcomeView) {
    match code_for_qr(m) {
        None => (m, with_notice(Notice::InvalidState)),
        Some(code) => match qr_data_url(code) {
            Ok(url) => (
                ModelView { qr_code_data_url: Some(url), show_qr_modal: true, ..m },
                quiet(),
            ),
            Err(e) => (m, with_notice(Notice::QrFailed(e))),
        },
    }
}

pub open spec fn start_typing(m: ModelView, now: u64) -> (ModelView, OutcomeView) {
    if now > m.last_typing_time + TYPING_INTERVAL_MS {
        (ModelView { last_typing_time: now, ..m }, quiet())
    } else {
        (m, quiet())
    }
}

/// The session and what is to be done after `msg` at the time `now`.
pub open spec fn step_model(m: ModelView, msg: MsgView, now: u64) -> (ModelView, OutcomeView) {
    match msg {
        MsgView::StartAsServer => start_as_server(m),
        MsgView::ConnectToServer => (m, quiet()),
        MsgView::UpdateWebRTCState(s) => state_changed(m, s),
        MsgView::Disconnect => (initial_model(), OutcomeView { release: true, ..quiet() }),
        MsgView::Send => send_text(m, now),
        MsgView::NewMessage(message) => new_message(m, message),
        MsgView::UpdateInputValue(v) => (ModelView { value: v, ..m }, quiet()),
        MsgView::UpdateInputChatValue(v) => (ModelView { chat_value: v, ..m }, quiet()),
        MsgView::OnKeyUp(key_code) => key_up(m, key_code, now),
        MsgView::CopyToClipboard => (m, OutcomeView { copy: true, ..quiet() }),
        MsgView::ValidateOffer => validate_offer(m),
        MsgView::ResetWebRTC => (initial_model(), OutcomeView { release: true, ..quiet() }),
        MsgView::SetConnectionStep(step) => set_step(m, step),
        MsgView::ChooseHost => choose_host(m),
        MsgView::ChooseJoin => choose_join(m),
        MsgView::GenerateQRCode => generate_qr(m),
        MsgView::StartTyping => start_typing(m, now),
        MsgView::StopTyping => (m, quiet()),
        MsgView::UpdateTypingState(is_typing) => (
            ModelView { typing_state: TypingState { is_typing, last_activity: now }, ..m },
            quiet(),
        ),
        MsgView::CloseQRModal => (ModelView { show_qr_modal: false, ..m }, quiet()),
    }
}

/// The session after bytes have arrived from the peer: a text is logged as
/// the peer's message, anything else is told.
pub open spec fn received(m: ModelView, bytes: Seq<u8>, now: u64) -> (ModelView, OutcomeView) {
    if valid_utf8(bytes) {
        new_message(m, message_of(decode_utf8(bytes), MessageSender::Other, now))
    } else {
        (m, with_notice(Notice::NotText))
    }
}

/// The session and what is to be done after the transport has reported
/// `event` at the time `now`: the manager takes note of the event; then a
/// new state moves the wizard, and a message that is a text is logged as
/// the peer's.
pub open spec fn step_transport(m: ModelView, event: EventView, now: u64) -> (
    ModelView,
    OutcomeView,
) {
    let noted = ModelView { manager: after_event(m.manager, event), ..m };
    match notification(m.manager, event) {
        NotificationView::StateChanged(s) => state_changed(noted, s),
        NotificationView::MessageReceived(bytes) => received(noted, bytes, now),
    }
}

// ------------------------------------------------------------ the laws

/// The wizard only moves on: unless it is reset, a step that changes
/// changes to a later one.
pub proof fn lemma_wizard_moves_on(m: ModelView, msg: MsgView, event: EventView, now: u64)
    ensures
        !(msg is Disconnect || msg is ResetWebRTC) ==> step_model(m, msg, now).0.connection_step
            == m.connection_step || step_rank(step_model(m, msg, now).0.connection_step)
            > step_rank(m.connection_step),
        step_transport(m, event, now).0.connection_step == m.connection_step || step_rank(
            step_transport(m, event, now).0.connection_step,
        ) > step_rank(m.connection_step),
{
}

/// An open channel always leads to the chat, whatever the step before:
/// by a state that reports it, and by every event, other than a message,
/// after which the channel of a session that has taken a role is open.
pub proof fn lemma_open_channel_connects(m: ModelView, s: StateView, event: EventView, now: u64)
    ensures
        s.channel_open() ==> step_model(m, MsgView::UpdateWebRTCState(s), now).0.connection_step
            == ConnectionStep::Connected,
        m.manager.role is Some && after_event(m.manager, event).state.channel_status
            == ChannelStatus::Open && !(event is ChannelMessage) ==> step_transport(
            m,
            event,
            now,
        ).0.connection_step == ConnectionStep::Connected,
{
}

/// Only an open channel leads to the chat: the wizard reaches its last
/// step by no message but a state with an open channel.
pub proof fn lemma_only_open_channel_connects(m: ModelView, msg: MsgView, event: EventView, now: u64)
    requires
        m.connection_step != ConnectionStep::Connected,
    ensures
        step_model(m, msg, now).0.connection_step == ConnectionStep::Connected ==> (
        msg matches MsgView::UpdateWebRTCState(s) && s.channel_open()),
        step_transport(m, event, now).0.connection_step == ConnectionStep::Connected
            ==> after_event(m.manager, event).state.channel_status == ChannelStatus::Open,
{
}

/// A code that means an artifact is accepted at the step that awaits it. A
/// joiner that waits for the connection and has no role yet takes it as the
/// offer, goes on to sharing its own code and is told to answer the
/// artifact. A host that waits for the answer takes it as the answer, goes
/// on to negotiate and is told to apply the artifact.
pub proof fn lemma_pasted_code_is_accepted(m: ModelView, a: ArtifactView)
    requires
        decoding(m.value) == Ok::<ArtifactView, DecodeError>(a),
    ensures
        m.connection_step == ConnectionStep::WaitingForConnection && m.manager.phase
            == crate::network::Phase::Uninitialized && m.manager.role is None ==> validate_offer(m)
            == (
            ModelView {
                manager: crate::network::started(Role::Joiner),
                connection_step: ConnectionStep::SharingCode,
                ..m
            },
            with_command(CommandView::AnswerOffer(a)),
        ),
        m.connection_step == ConnectionStep::WaitingForAnswer && crate::network::awaits_answer(
            m.manager,
        ) ==> validate_offer(m) == (
            ModelView {
                manager: ManagerView { phase: crate::network::Phase::Negotiating, ..m.manager },
                ..m
            },
            with_command(CommandView::ApplyAnswer(a)),
        ),
{
}

/// A reset forgets the session: what follows is what follows in a session
/// in which nothing has happened.
pub proof fn lemma_reset_forgets(m: ModelView, now: u64)
    ensures
        step_model(m, MsgView::ResetWebRTC, now).0 == initial_model(),
        step_model(m, MsgView::Disconnect, now).0 == initial_model(),
        answer_result(initial_model().manager, m.value) == Err::<CommandView, NetworkError>(
            NetworkError::InvalidState,
        ),
{
}

/// The chat is open at the last step only: a session in which this holds
/// keeps it, whatever the user and the transport do.
pub proof fn lemma_chat_at_last_step(m: ModelView, msg: MsgView, event: EventView, now: u64)
    requires
        chat_enabled(m) ==> m.connection_step == ConnectionStep::Connected,
    ensures
        chat_enabled(step_model(m, msg, now).0) ==> step_model(m, msg, now).0.connection_step
            == ConnectionStep::Connected,
        chat_enabled(step_transport(m, event, now).0) ==> step_transport(
            m,
            event,
            now,
        ).0.connection_step == ConnectionStep::Connected,
{
}

// ------------------------------------------------------------ what is shown

/// The name under which a message is shown.
pub open spec fn sender_name_text(sender: MessageSender) -> Seq<char> {
    match sender {
        MessageSender::Other => "Friend"@,
        MessageSender::Me => "Me"@,
    }
}

/// The name under which a message is shown.
pub fn sender_name(sender: MessageSender) -> (name: &'static str)
    ensures
        name@ == sender_name_text(sender),
{
    match sender {
        MessageSender::Other => "Friend",
        MessageSender::Me => "Me",
    }
}

/// The title, the advice and the line below the code, at the step at which
/// the code is shared: they differ with the role.
pub open spec fn sharing_caption_texts(role: Option<Role>) -> (Seq<char>, Seq<char>, Seq<char>) {
    match role {
        Some(Role::Host) => (
            "Connection Code Ready!"@,
            "Share this code with your friend to start chatting"@,
            "Waiting for your friend to connect..."@,
        ),
        Some(Role::Joiner) => (
            "Answer Generated!"@,
            "Send this answer back to your friend who shared the first code"@,
            "Waiting for connection to establish..."@,
        ),
        None => ("Code Ready!"@, "Share this code"@, "Waiting..."@),
    }
}

/// The title, the advice and the line below the code, at the step at which
/// the code is shared.
pub fn sharing_captions(role: Option<Role>) -> (captions: (&'static str, &'static str, &'static str))
    ensures
        (captions.0@, captions.1@, captions.2@) == sharing_caption_texts(role),
{
    match role {
        Some(Role::Host) => (
            "Connection Code Ready!",
            "Share this code with your friend to start chatting",
            "Waiting for your friend to connect...",
        ),
        Some(Role::Joiner) => (
            "Answer Generated!",
            "Send this answer back to your friend who shared the first code",
            "Waiting for connection to establish...",
        ),
        None => ("Code Ready!", "Share this code", "Waiting..."),
    }
}

// ------------------------------------------------------------ the session

pub open spec fn text_view(o: Option<String>) -> Option<Seq<char>> {
    match o {
        Some(s) => Some(s@),
        None => None,
    }
}

/// One chat session.
#[derive(Debug)]
pub struct ChatModel {
    web_rtc_manager: NetworkManager,
    messages: Vec<Message>,
    value: String,
    chat_value: String,
    connection_step: ConnectionStep,
    typing_state: TypingState,
    connection_code: Option<String>,
    last_typing_time: u64,
    qr_code_data_url: Option<String>,
    show_qr_modal: bool,
    transfers: FileChunker,
}

impl View for ChatModel {
    type V = ModelView;

    closed spec fn view(&self) -> ModelView {
        ModelView {
            manager: self.web_rtc_manager@,
            messages: message_views(self.messages@),
            value: self.value@,
            chat_value: self.chat_value@,
            connection_step: self.connection_step,
            typing_state: self.typing_state,
            connection_code: text_view(self.connection_code),
            last_typing_time: self.last_typing_time,
            qr_code_data_url: text_view(self.qr_code_data_url),
            show_qr_modal: self.show_qr_modal,
            transfers: self.transfers@,
        }
    }
}

fn quiet_outcome() -> (o: Outcome)
    ensures
        o@ == quiet(),
{
    Outcome { command: None, notice: None, scroll: false, copy: false, release: false }
}

fn notice_outcome(n: Notice) -> (o: Outcome)
    ensures
        o@ == with_notice(n),
{
    Outcome { command: None, notice: Some(n), scroll: false, copy: false, release: false }
}

fn command_outcome(c: Command) -> (o: Outcome)
    ensures
        o@ == with_command(c@),
{
    Outcome { command: Some(c), notice: None, scroll: false, copy: false, release: false }
}

impl ChatModel {
    /// A session in which nothing has happened.
    pub fn create() -> (model: ChatModel)
        ensures
            model@ == initial_model(),
    {
        let model = ChatModel {
            web_rtc_manager: NetworkManager::new(),
            messages: Vec::new(),
            value: String::new(),
            chat_value: String::new(),
            connection_step: ConnectionStep::Welcome,
            typing_state: TypingState { is_typing: false, last_activity: 0 },
            connection_code: None,
            last_typing_time: 0,
            qr_code_data_url: None,
            show_qr_modal: false,
            transfers: FileChunker::new(),
        };
        assert(model@.messages =~= Seq::<MessageView>::empty());
        model
    }

    /// The step that the wizard is at.
    pub fn connection_step(&self) -> (step: ConnectionStep)
        ensures
            step == self@.connection_step,
    {
        self.connection_step
    }

    /// The state of the transport, tagged with the role.
    pub fn state(&self) -> (s: State)
        ensures
            s@ == crate::network::tagged(self@.manager),
    {
        self.web_rtc_manager.get_state()
    }

    /// The negotiation of this session.
    pub fn manager(&self) -> (m: &NetworkManager)
        ensures
            m@ == self@.manager,
    {
        &self.web_rtc_manager
    }

    /// The messages of the session, oldest first.
    pub fn messages(&self) -> (log: &Vec<Message>)
        ensures
            message_views(log@) == self@.messages,
    {
        &self.messages
    }

    /// What the code input holds.
    pub fn value(&self) -> (s: &str)
        ensures
            s@ == self@.value,
    {
        self.value.as_str()
    }

    /// What the chat input holds.
    pub fn chat_value(&self) -> (s: &str)
        ensures
            s@ == self@.chat_value,
    {
        self.chat_value.as_str()
    }

    pub fn typing_state(&self) -> (t: TypingState)
        ensures
            t == self@.typing_state,
    {
        self.typing_state
    }

    /// The connection code on show, if there is one.
    pub fn connection_code(&self) -> (code: Option<&str>)
        ensures
            match code {
                Some(c) => self@.connection_code == Some(c@),
                None => self@.connection_code is None,
            },
    {
        match &self.connection_code {
            Some(c) => Some(c.as_str()),
            None => None,
        }
    }

    /// The QR code on show, as a data URL, if one was made.
    pub fn qr_code_data_url(&self) -> (url: Option<&str>)
        ensures
            match url {
                Some(u) => self@.qr_code_data_url == Some(u@),
                None => self@.qr_code_data_url is None,
            },
    {
        match &self.qr_code_data_url {
            Some(u) => Some(u.as_str()),
            None => None,
        }
    }

    pub fn show_qr_modal(&self) -> (b: bool)
        ensures
            b == self@.show_qr_modal,
    {
        self.show_qr_modal
    }

    /// Whether the chat is open: the session has a role and its channel is
    /// open.
    pub fn is_chat_enabled(&self) -> (b: bool)
        ensures
            b == chat_enabled(self@),
    {
        self.web_rtc_manager.role().is_some() && self.web_rtc_manager.is_channel_open()
    }

    /// Whether there is something to send: the chat is open and its input is
    /// not empty.
    pub fn is_send_button_enabled(&self) -> (b: bool)
        ensures
            b == (chat_enabled(self@) && self@.chat_value.len() > 0),
    {
        self.is_chat_enabled() && self.chat_value.as_str().unicode_len() > 0
    }

    /// Whether there is something to disconnect from: the session has taken
    /// a role.
    pub fn is_disconnect_button_visible(&self) -> (b: bool)
        ensures
            b == self@.manager.role is Some,
    {
        self.web_rtc_manager.role().is_some()
    }

    /// The connection code of this side as it is now: the code of the
    /// manager's present description and candidates, which means them again.
    /// There is none before the description exists.
    pub fn get_serialized_offer_and_candidates(&self) -> (code: Option<String>)
        ensures
            match code {
                Some(c) => local_code(self@.manager) == Some(c@) && decoding(c@) == Ok::<
                    ArtifactView,
                    DecodeError,
                >(local_artifact(self@.manager)->0) && all_standard(c@),
                None => local_code(self@.manager) is None,
            },
    {
        self.web_rtc_manager.local_code()
    }

    /// The connection code to share: the one on show, or else the one of
    /// the manager's present description and candidates.
    pub fn code_to_share(&self) -> (code: Option<String>)
        ensures
            match code {
                Some(c) => code_for_qr(self@) == Some(c@),
                None => code_for_qr(self@) is None,
            },
    {
        match &self.connection_code {
            Some(c) => Some(c.clone()),
            None => self.web_rtc_manager.local_code(),
        }
    }

    fn reset(&mut self) -> (o: Outcome)
        ensures
            final(self)@ == initial_model(),
            o@ == (OutcomeView { release: true, ..quiet() }),
    {
        *self = ChatModel::create();
        Outcome { command: None, notice: None, scroll: false, copy: false, release: true }
    }

    fn send_text(&mut self, now: u64) -> (o: Outcome)
        ensures
            (final(self)@, o@) == send_text(old(self)@, now),
    {
        if !self.is_chat_enabled() {
            return notice_outcome(Notice::SendRefused);
        }
        let bytes = utf8_bytes(self.chat_value.as_str());
        let command = match self.web_rtc_manager.send(bytes.as_slice()) {
            Ok(c) => c,
            Err(_) => {
                return notice_outcome(Notice::SendRefused);
            },
        };
        let message = Message::new(self.chat_value.clone(), MessageSender::Me, now);
        let ghost before = message_views(self.messages@);
        self.messages.push(message);
        assert(message_views(self.messages@) =~= before.push(message@));
        self.chat_value = String::new();
        Outcome { command: Some(command), notice: None, scroll: true, copy: false, release: false }
    }

    fn log(&mut self, message: Message) -> (o: Outcome)
        ensures
            (final(self)@, o@) == new_message(old(self)@, message@),
    {
        let ghost before = message_views(self.messages@);
        self.messages.push(message);
        assert(message_views(self.messages@) =~= before.push(message@));
        Outcome { command: None, notice: None, scroll: true, copy: false, release: false }
    }

    fn state_changed(&mut self, state: &State) -> (o: Outcome)
        ensures
            (final(self)@, o@) == state_changed(old(self)@, state@),
    {
        self.value = String::new();
        let role = state.role();
        let side = match role {
            Some(Role::Host) => self.connection_step == ConnectionStep::GeneratingCode,
            Some(Role::Joiner) => self.connection_step == ConnectionStep::SharingCode
                && self.connection_code.is_none(),
            None => false,
        };
        let mut ready = false;
        if side && state.gathering_complete() {
            match self.web_rtc_manager.local_code() {
                Some(code) => {
                    self.connection_code = Some(code);
                    ready = true;
                },
                None => {},
            }
        }
        if state.channel_open() {
            self.connection_step = ConnectionStep::Connected;
        } else if ready && self.connection_step == ConnectionStep::GeneratingCode {
            self.connection_step = ConnectionStep::SharingCode;
        }
        quiet_outcome()
    }

    fn validate_offer(&mut self) -> (o: Outcome)
        ensures
            (final(self)@, o@) == validate_offer(old(self)@),
    {
        let hosting = match self.web_rtc_manager.role() {
            Some(Role::Host) => true,
            _ => false,
        };
        if hosting && self.connection_step == ConnectionStep::WaitingForAnswer {
            match self.web_rtc_manager.accept_answer(self.value.as_str()) {
                Ok(c) => command_outcome(c),
                Err(e) => notice_outcome(Notice::InvalidAnswer(e)),
            }
        } else if self.connection_step == ConnectionStep::WaitingForConnection {
            match self.web_rtc_manager.accept_offer(self.value.as_str()) {
                Ok(c) => {
                    self.connection_step = ConnectionStep::SharingCode;
                    command_outcome(c)
                },
                Err(e) => notice_outcome(Notice::InvalidOffer(e)),
            }
        } else {
            notice_outcome(Notice::InvalidState)
        }
    }

    fn generate_qr(&mut self) -> (o: Outcome)
        ensures
            (final(self)@, o@) == generate_qr(old(self)@),
    {
        match self.code_to_share() {
            None => notice_outcome(Notice::InvalidState),
            Some(code) => match QrCodeGenerator::generate_qr_code_data_url(code.as_str()) {
                Ok(url) => {
                    self.qr_code_data_url = Some(url);
                    self.show_qr_modal = true;
                    quiet_outcome()
                },
                Err(e) => notice_outcome(Notice::QrFailed(e)),
            },
        }
    }

    /// Takes what the user did at the time `now`, in milliseconds, and says
    /// what is to be done.
    pub fn update(&mut self, msg: Msg, now: u64) -> (o: Outcome)
        ensures
            (final(self)@, o@) == step_model(old(self)@, msg@, now),
    {
        match msg {
            Msg::StartAsServer => match self.web_rtc_manager.begin_as_host() {
                Ok(c) => command_outcome(c),
                Err(e) => notice_outcome(Notice::StartFailed(e)),
            },
            Msg::ConnectToServer => quiet_outcome(),
            Msg::UpdateWebRTCState(state) => self.state_changed(&state),
            Msg::Disconnect => self.reset(),
            Msg::Send => self.send_text(now),
            Msg::NewMessage(message) => self.log(message),
            Msg::UpdateInputValue(v) => {
                self.value = v;
                quiet_outcome()
            },
            Msg::UpdateInputChatValue(v) => {
                self.chat_value = v;
                quiet_outcome()
            },
            Msg::OnKeyUp(key_code) => {
                if key_code == ENTER_KEY && self.chat_value.as_str().unicode_len() > 0 {
                    self.send_text(now)
                } else {
                    quiet_outcome()
                }
            },
            Msg::CopyToClipboard => Outcome {
                command: None,
                notice: None,
                scroll: false,
                copy: true,
                release: false,
            },
            Msg::ValidateOffer => self.validate_offer(),
            Msg::ResetWebRTC => self.reset(),
            Msg::SetConnectionStep(step) => {
                let hosting = match self.web_rtc_manager.role() {
                    Some(Role::Host) => true,
                    _ => false,
                };
                let allowed = (self.connection_step == ConnectionStep::Welcome && step
                    == ConnectionStep::ChooseRole) || (self.connection_step
                    == ConnectionStep::SharingCode && step == ConnectionStep::WaitingForAnswer
                    && hosting);
                if allowed {
                    self.connection_step = step;
                    quiet_outcome()
                } else {
                    notice_outcome(Notice::InvalidState)
                }
            },
            Msg::ChooseHost => {
                if self.connection_step != ConnectionStep::ChooseRole {
                    notice_outcome(Notice::InvalidState)
                } else {
                    match self.web_rtc_manager.begin_as_host() {
                        Ok(c) => {
                            self.connection_step = ConnectionStep::GeneratingCode;
                            command_outcome(c)
                        },
                        Err(e) => notice_outcome(Notice::StartFailed(e)),
                    }
                }
            },
            Msg::ChooseJoin => {
                if self.connection_step != ConnectionStep::ChooseRole {
                    notice_outcome(Notice::InvalidState)
                } else {
                    self.connection_step = ConnectionStep::WaitingForConnection;
                    quiet_outcome()
                }
            },
            Msg::GenerateQRCode => self.generate_qr(),
            Msg::StartTyping => {
                if now > self.last_typing_time && now - self.last_typing_time > TYPING_INTERVAL_MS {
                    self.last_typing_time = now;
                }
                quiet_outcome()
            },
            Msg::StopTyping => quiet_outcome(),
            Msg::UpdateTypingState(is_typing) => {
                self.typing_state = TypingState { is_typing, last_activity: now };
                quiet_outcome()
            },
            Msg::CloseQRModal => {
                self.show_qr_modal = false;
                quiet_outcome()
            },
        }
    }

    /// Takes what the transport did at the time `now`, in milliseconds, and
    /// says what is to be done.
    pub fn on_transport_event(&mut self, event: TransportEvent, now: u64) -> (o: Outcome)
        ensures
            (final(self)@, o@) == step_transport(old(self)@, event@, now),
    {
        match self.web_rtc_manager.on_event(event) {
            Notification::StateChanged(state) => self.state_changed(&state),
            Notification::MessageReceived(bytes) => self.on_receive(bytes, now),
        }
    }

    /// Sends a text to the peer: the text is logged at once as the user's
    /// and handed to the transport. Refused, with nothing logged, unless the
    /// chat is open.
    pub fn send(&mut self, text: String, now: u64) -> (o: Outcome)
        ensures
            (final(self)@, o@) == send_given(old(self)@, text@, now),
    {
        if !self.is_chat_enabled() {
            return notice_outcome(Notice::SendRefused);
        }
        self.chat_value = text;
        self.send_text(now)
    }

    /// Takes what arrived on the channel: a text is logged as the peer's,
    /// in the order of arrival.
    pub fn on_receive(&mut self, bytes: Vec<u8>, now: u64) -> (o: Outcome)
        ensures
            (final(self)@, o@) == received(old(self)@, bytes@, now),
    {
        match string_from_utf8(bytes) {
            Some(text) => self.log(Message::new(text, MessageSender::Other, now)),
            None => notice_outcome(Notice::NotText),
        }
    }

    /// Takes a chunk of a payload that arrived and hands out the payload
    /// where the chunk brings its last missing piece.
    pub fn receive_chunk(&mut self, chunk: Chunk) -> (r: Option<Vec<u8>>)
        ensures
            final(self)@ == (ModelView {
                transfers: after_ingest(old(self)@.transfers, chunk@),
                ..old(self)@
            }),
            match r {
                Some(payload) => ingest_result(old(self)@.transfers, chunk@) == Some(payload@),
                None => ingest_result(old(self)@.transfers, chunk@) is None,
            },
    {
        self.transfers.ingest(chunk)
    }
}

} // verus!
