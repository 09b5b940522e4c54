use webrtc_chat::chat_model::{
    sender_name, sharing_captions, ChatModel, ConnectionStep, Message, MessageSender, Msg, Notice,
    Outcome, TypingState,
};
use webrtc_chat::qr_code::QrFailure;
use webrtc_chat::chunker::FileChunker;
use webrtc_chat::codec::{decode, encode, ConnectionString, DecodeError, IceCandidate};
use webrtc_chat::loopback::{relay_answer, relay_offer, FakeTransport};
use webrtc_chat::network::{
    Command, NetworkError, NetworkManager, Notification, Phase, TransportEvent,
};
use webrtc_chat::state::{
    get_debug_state_string, ChannelStatus, ConnectionState, ConnectivityStatus, GatheringStatus,
    Role, State,
};

fn candidate(n: u16) -> IceCandidate {
    IceCandidate {
        candidate: format!("candidate:{} 1 UDP 2122252543 10.0.0.{} 5000{} typ host", n, n, n),
        sdp_mid: "0".to_string(),
        sdp_m_line_index: 0,
    }
}

fn quiet() -> Outcome {
    Outcome { command: None, notice: None, scroll: false, copy: false, release: false }
}

fn notice(n: Notice) -> Outcome {
    Outcome { notice: Some(n), ..quiet() }
}

/// Reports to a manager what a transport does after it was asked to create
/// a description: the description, two candidates and the end of gathering.
fn harvest(manager: &mut NetworkManager, description: &str, first: u16) {
    manager.on_event(TransportEvent::LocalDescription(description.to_string()));
    manager.on_event(TransportEvent::GatheringChanged(GatheringStatus::InProgress));
    manager.on_event(TransportEvent::CandidateDiscovered(candidate(first)));
    manager.on_event(TransportEvent::CandidateDiscovered(candidate(first + 1)));
    manager.on_event(TransportEvent::GatheringChanged(GatheringStatus::Complete));
}

fn harvest_session(model: &mut ChatModel, description: &str, first: u16) {
    model.on_transport_event(TransportEvent::LocalDescription(description.to_string()), 1);
    model.on_transport_event(TransportEvent::GatheringChanged(GatheringStatus::InProgress), 2);
    model.on_transport_event(TransportEvent::CandidateDiscovered(candidate(first)), 3);
    model.on_transport_event(TransportEvent::CandidateDiscovered(candidate(first + 1)), 4);
    model.on_transport_event(TransportEvent::GatheringChanged(GatheringStatus::Complete), 5);
}

#[test]
fn a_new_manager_has_done_nothing() {
    let manager = NetworkManager::new();
    assert_eq!(manager.phase(), Phase::Uninitialized);
    assert_eq!(manager.role(), None);
    assert_eq!(manager.get_state(), State::Default);
    assert_eq!(manager.current_state(), ConnectionState::new());
    assert_eq!(manager.get_offer(), None);
    assert_eq!(manager.local_code(), None);
    assert!(!manager.is_channel_open());
}

#[test]
fn begin_as_host_twice_is_already_started() {
    let mut manager = NetworkManager::new();
    assert_eq!(manager.begin_as_host(), Ok(Command::CreateOffer));
    assert_eq!(manager.phase(), Phase::NegotiationStarted);
    assert_eq!(manager.role(), Some(Role::Host));
    assert_eq!(manager.begin_as_host(), Err(NetworkError::AlreadyStarted));
    assert_eq!(manager.phase(), Phase::NegotiationStarted);
}

#[test]
fn accept_answer_before_begin_is_invalid_state() {
    let mut manager = NetworkManager::new();
    let answer = encode(&ConnectionString { ice_candidates: vec![], offer: "a".to_string() }).unwrap();
    assert_eq!(manager.accept_answer(&answer), Err(NetworkError::InvalidState));
    assert_eq!(manager.accept_answer("nonsense"), Err(NetworkError::InvalidState));
    assert_eq!(manager.current_state(), ConnectionState::new());
    assert_eq!(manager.phase(), Phase::Uninitialized);
}

#[test]
fn undecodable_input_is_a_decode_error_and_changes_nothing() {
    let mut joiner = NetworkManager::new();
    assert_eq!(
        joiner.accept_offer("nonsense"),
        Err(NetworkError::InvalidOffer(DecodeError::Malformed))
    );
    assert_eq!(joiner.phase(), Phase::Uninitialized);
    assert_eq!(joiner.get_state(), State::Default);

    let mut host = NetworkManager::new();
    host.begin_as_host().unwrap();
    harvest(&mut host, "offer", 1);
    let before = host.current_state();
    assert_eq!(
        host.accept_answer("e30="),
        Err(NetworkError::InvalidAnswer(DecodeError::Incomplete))
    );
    assert_eq!(
        host.accept_answer("???"),
        Err(NetworkError::InvalidAnswer(DecodeError::Malformed))
    );
    assert_eq!(host.current_state(), before);
    assert_eq!(host.phase(), Phase::OfferReady);
}

#[test]
fn a_joiner_cannot_take_an_answer_nor_a_second_offer() {
    let offer = encode(&ConnectionString { ice_candidates: vec![], offer: "o".to_string() }).unwrap();
    let mut joiner = NetworkManager::new();
    assert!(joiner.accept_offer(&offer).is_ok());
    assert_eq!(joiner.role(), Some(Role::Joiner));
    assert_eq!(joiner.accept_answer(&offer), Err(NetworkError::InvalidState));
    assert_eq!(joiner.accept_offer(&offer), Err(NetworkError::InvalidState));
    assert_eq!(joiner.begin_as_host(), Err(NetworkError::AlreadyStarted));
}

#[test]
fn gathering_makes_the_offer_ready() {
    let mut host = NetworkManager::new();
    host.begin_as_host().unwrap();
    host.on_event(TransportEvent::GatheringChanged(GatheringStatus::Complete));
    assert_eq!(host.phase(), Phase::NegotiationStarted);
    host.on_event(TransportEvent::LocalDescription("offer".to_string()));
    assert_eq!(host.phase(), Phase::OfferReady);
    assert_eq!(host.get_offer(), Some("offer".to_string()));
}

#[test]
fn candidates_are_kept_once() {
    let mut host = NetworkManager::new();
    host.begin_as_host().unwrap();
    host.on_event(TransportEvent::CandidateDiscovered(candidate(1)));
    host.on_event(TransportEvent::CandidateDiscovered(candidate(2)));
    let n = host.on_event(TransportEvent::CandidateDiscovered(candidate(1)));
    assert_eq!(host.get_ice_candidates(), vec![candidate(1), candidate(2)]);
    assert_eq!(n, Notification::StateChanged(host.get_state()));
}

#[test]
fn a_manager_without_role_ignores_the_transport() {
    let mut manager = NetworkManager::new();
    let n = manager.on_event(TransportEvent::ChannelChanged(ChannelStatus::Open));
    assert_eq!(n, Notification::StateChanged(State::Default));
    assert_eq!(manager.current_state(), ConnectionState::new());
    assert!(manager.send(b"x").is_err());
}

#[test]
fn send_needs_an_open_channel() {
    let mut host = NetworkManager::new();
    assert_eq!(host.send(b"hi"), Err(NetworkError::InvalidState));
    host.begin_as_host().unwrap();
    assert_eq!(host.send(b"hi"), Err(NetworkError::InvalidState));
    host.on_event(TransportEvent::ChannelChanged(ChannelStatus::Open));
    assert_eq!(host.phase(), Phase::ChannelOpen);
    assert_eq!(host.send(b"hi"), Ok(Command::Transmit(b"hi".to_vec())));
    host.on_event(TransportEvent::ChannelChanged(ChannelStatus::Closing));
    assert_eq!(host.phase(), Phase::Closed);
    assert_eq!(host.send(b"hi"), Err(NetworkError::InvalidState));
}

#[test]
fn failures_of_the_transport_show_in_the_state() {
    let mut host = NetworkManager::new();
    host.begin_as_host().unwrap();
    host.on_event(TransportEvent::ConnectivityChanged(ConnectivityStatus::Checking));
    host.on_event(TransportEvent::ConnectivityChanged(ConnectivityStatus::Failed));
    assert_eq!(host.current_state().connectivity_status, ConnectivityStatus::Failed);
    assert_eq!(host.phase(), Phase::NegotiationStarted);
    host.on_event(TransportEvent::ChannelChanged(ChannelStatus::Closed));
    assert_eq!(host.current_state().channel_status, ChannelStatus::Closed);
    assert_eq!(host.phase(), Phase::Closed);
    host.on_event(TransportEvent::ChannelChanged(ChannelStatus::Open));
    assert_eq!(host.phase(), Phase::Closed);
}

#[test]
fn messages_arrive_on_an_open_channel_only() {
    let mut host = NetworkManager::new();
    host.begin_as_host().unwrap();
    let early = host.on_event(TransportEvent::ChannelMessage(b"x".to_vec()));
    assert_eq!(early, Notification::StateChanged(host.get_state()));
    host.on_event(TransportEvent::ChannelChanged(ChannelStatus::Open));
    let n = host.on_event(TransportEvent::ChannelMessage(b"x".to_vec()));
    assert_eq!(n, Notification::MessageReceived(b"x".to_vec()));
}

#[test]
fn the_local_code_holds_description_and_candidates() {
    let mut host = NetworkManager::new();
    host.begin_as_host().unwrap();
    harvest(&mut host, "the offer", 1);
    let code = host.local_code().unwrap();
    assert_eq!(
        decode(&code),
        Ok(ConnectionString {
            ice_candidates: vec![candidate(1), candidate(2)],
            offer: "the offer".to_string(),
        })
    );
    assert_eq!(host.local_artifact().unwrap().offer, "the offer");
}

#[test]
fn debug_text_names_role_and_statuses() {
    assert_eq!(get_debug_state_string(&State::Default), "Default State");
    let mut state = ConnectionState::new();
    assert_eq!(
        get_debug_state_string(&State::Server(state.clone())),
        "Server\nice gathering: NotStarted\nice connection: New\ndata channel: Connecting\n"
    );
    state.candidate_gathering_status = GatheringStatus::Complete;
    state.connectivity_status = ConnectivityStatus::Connected;
    state.channel_status = ChannelStatus::Open;
    assert_eq!(
        get_debug_state_string(&State::Client(state)),
        "Client\nice gathering: Complete\nice connection: Connected\ndata channel: Open\n"
    );
}

#[test]
fn status_names() {
    assert_eq!(GatheringStatus::InProgress.as_str(), "InProgress");
    assert_eq!(ConnectivityStatus::Disconnected.as_str(), "Disconnected");
    assert_eq!(ConnectivityStatus::Checking.as_str(), "Checking");
    assert_eq!(ChannelStatus::Closing.as_str(), "Closing");
    assert_eq!(ChannelStatus::Closed.as_str(), "Closed");
}

#[test]
fn a_message_has_its_time_in_its_id() {
    let m = Message::new("hello".to_string(), MessageSender::Me, 1700000000123);
    assert_eq!(m.id(), "msg_1700000000123");
    assert_eq!(m.content(), "hello");
    assert_eq!(m.sender(), MessageSender::Me);
    assert_eq!(m.timestamp(), 1700000000123);
    assert_eq!(Message::new(String::new(), MessageSender::Other, 0).id(), "msg_0");
    assert_eq!(
        Message::new(String::new(), MessageSender::Other, u64::MAX).id(),
        "msg_18446744073709551615"
    );
}

#[test]
fn the_wizard_starts_at_the_welcome() {
    let model = ChatModel::create();
    assert_eq!(model.connection_step(), ConnectionStep::Welcome);
    assert_eq!(model.state(), State::Default);
    assert!(model.messages().is_empty());
    assert!(!model.is_chat_enabled());
    assert_eq!(model.connection_code(), None);
    assert_eq!(model.value(), "");
    assert_eq!(model.chat_value(), "");
    assert_eq!(model.typing_state(), TypingState { is_typing: false, last_activity: 0 });
    assert_eq!(model.qr_code_data_url(), None);
    assert!(!model.show_qr_modal());
}

#[test]
fn the_user_may_only_move_on() {
    let mut model = ChatModel::create();
    assert_eq!(model.update(Msg::SetConnectionStep(ConnectionStep::Connected), 0), notice(Notice::InvalidState));
    assert_eq!(model.update(Msg::SetConnectionStep(ConnectionStep::SharingCode), 0), notice(Notice::InvalidState));
    assert_eq!(model.update(Msg::ChooseHost, 0), notice(Notice::InvalidState));
    assert_eq!(model.update(Msg::ChooseJoin, 0), notice(Notice::InvalidState));
    assert_eq!(model.connection_step(), ConnectionStep::Welcome);
    assert_eq!(model.update(Msg::SetConnectionStep(ConnectionStep::ChooseRole), 0), quiet());
    assert_eq!(model.connection_step(), ConnectionStep::ChooseRole);
    assert_eq!(model.update(Msg::SetConnectionStep(ConnectionStep::Welcome), 0), notice(Notice::InvalidState));
    assert_eq!(model.connection_step(), ConnectionStep::ChooseRole);
}

#[test]
fn the_host_walks_through_the_wizard() {
    let mut host = ChatModel::create();
    host.update(Msg::SetConnectionStep(ConnectionStep::ChooseRole), 0);
    let o = host.update(Msg::ChooseHost, 0);
    assert_eq!(o.command, Some(Command::CreateOffer));
    assert_eq!(host.connection_step(), ConnectionStep::GeneratingCode);
    assert_eq!(host.update(Msg::SetConnectionStep(ConnectionStep::WaitingForAnswer), 0), notice(Notice::InvalidState));
    host.on_transport_event(TransportEvent::LocalDescription("offer".to_string()), 1);
    host.on_transport_event(TransportEvent::CandidateDiscovered(candidate(1)), 2);
    assert_eq!(host.connection_step(), ConnectionStep::GeneratingCode);
    assert_eq!(host.connection_code(), None);
    host.on_transport_event(TransportEvent::GatheringChanged(GatheringStatus::Complete), 3);
    assert_eq!(host.connection_step(), ConnectionStep::SharingCode);
    let code = host.connection_code().unwrap().to_string();
    assert_eq!(
        decode(&code),
        Ok(ConnectionString { ice_candidates: vec![candidate(1)], offer: "offer".to_string() })
    );
    assert_eq!(host.update(Msg::SetConnectionStep(ConnectionStep::WaitingForAnswer), 4), quiet());
    assert_eq!(host.connection_step(), ConnectionStep::WaitingForAnswer);
    assert_eq!(host.update(Msg::SetConnectionStep(ConnectionStep::SharingCode), 5), notice(Notice::InvalidState));
    assert_eq!(host.connection_step(), ConnectionStep::WaitingForAnswer);
}

#[test]
fn an_open_channel_connects_from_every_step() {
    let open = || {
        let mut s = ConnectionState::new();
        s.channel_status = ChannelStatus::Open;
        State::Client(s)
    };
    let mut at_welcome = ChatModel::create();
    at_welcome.update(Msg::UpdateWebRTCState(open()), 0);
    assert_eq!(at_welcome.connection_step(), ConnectionStep::Connected);

    let mut generating = ChatModel::create();
    generating.update(Msg::SetConnectionStep(ConnectionStep::ChooseRole), 0);
    generating.update(Msg::ChooseHost, 0);
    generating.on_transport_event(TransportEvent::ChannelChanged(ChannelStatus::Open), 1);
    assert_eq!(generating.connection_step(), ConnectionStep::Connected);
    assert!(generating.is_chat_enabled());

    let mut not_open = ChatModel::create();
    let mut s = ConnectionState::new();
    s.channel_status = ChannelStatus::Closing;
    s.candidate_gathering_status = GatheringStatus::Complete;
    not_open.update(Msg::UpdateWebRTCState(State::Server(s)), 0);
    assert_eq!(not_open.connection_step(), ConnectionStep::Welcome);
}

#[test]
fn the_chat_stays_on_show_when_the_channel_closes() {
    let mut model = ChatModel::create();
    model.update(Msg::SetConnectionStep(ConnectionStep::ChooseRole), 0);
    model.update(Msg::ChooseHost, 0);
    model.on_transport_event(TransportEvent::ChannelChanged(ChannelStatus::Open), 1);
    model.on_transport_event(TransportEvent::ChannelChanged(ChannelStatus::Closed), 2);
    assert_eq!(model.connection_step(), ConnectionStep::Connected);
    assert!(!model.is_chat_enabled());
    model.update(Msg::UpdateInputChatValue("late".to_string()), 3);
    assert_eq!(model.update(Msg::Send, 4), notice(Notice::SendRefused));
    assert!(model.messages().is_empty());
    assert_eq!(model.chat_value(), "late");
}

#[test]
fn a_bad_offer_is_told_and_changes_nothing() {
    let mut joiner = ChatModel::create();
    joiner.update(Msg::SetConnectionStep(ConnectionStep::ChooseRole), 0);
    assert_eq!(joiner.update(Msg::ChooseJoin, 0), quiet());
    assert_eq!(joiner.connection_step(), ConnectionStep::WaitingForConnection);
    joiner.update(Msg::UpdateInputValue("garbage".to_string()), 1);
    assert_eq!(
        joiner.update(Msg::ValidateOffer, 2),
        notice(Notice::InvalidOffer(NetworkError::InvalidOffer(DecodeError::Malformed)))
    );
    assert_eq!(joiner.connection_step(), ConnectionStep::WaitingForConnection);
    assert_eq!(joiner.state(), State::Default);
    assert_eq!(joiner.value(), "garbage");
}

#[test]
fn validating_at_the_wrong_step_is_invalid_state() {
    let mut model = ChatModel::create();
    assert_eq!(model.update(Msg::ValidateOffer, 0), notice(Notice::InvalidState));
    model.update(Msg::SetConnectionStep(ConnectionStep::ChooseRole), 0);
    model.update(Msg::ChooseHost, 0);
    assert_eq!(model.update(Msg::ValidateOffer, 0), notice(Notice::InvalidState));
}

#[test]
fn happy_path() {
    let mut host = ChatModel::create();
    host.update(Msg::SetConnectionStep(ConnectionStep::ChooseRole), 0);
    assert_eq!(host.update(Msg::ChooseHost, 0).command, Some(Command::CreateOffer));
    harvest_session(&mut host, "offer of the host", 1);
    let code_a = host.connection_code().unwrap().to_string();
    host.update(Msg::SetConnectionStep(ConnectionStep::WaitingForAnswer), 6);

    let mut joiner = ChatModel::create();
    joiner.update(Msg::SetConnectionStep(ConnectionStep::ChooseRole), 0);
    joiner.update(Msg::ChooseJoin, 0);
    joiner.update(Msg::UpdateInputValue(code_a), 1);
    let o = joiner.update(Msg::ValidateOffer, 2);
    assert_eq!(
        o.command,
        Some(Command::AnswerOffer(ConnectionString {
            ice_candidates: vec![candidate(1), candidate(2)],
            offer: "offer of the host".to_string(),
        }))
    );
    assert_eq!(joiner.connection_step(), ConnectionStep::SharingCode);
    assert_eq!(joiner.manager().phase(), Phase::NegotiationStarted);
    harvest_session(&mut joiner, "answer of the joiner", 7);
    assert_eq!(joiner.manager().phase(), Phase::AnswerReady);
    let code_b = joiner.connection_code().unwrap().to_string();

    host.update(Msg::UpdateInputValue(code_b), 7);
    let o = host.update(Msg::ValidateOffer, 8);
    assert_eq!(
        o.command,
        Some(Command::ApplyAnswer(ConnectionString {
            ice_candidates: vec![candidate(7), candidate(8)],
            offer: "answer of the joiner".to_string(),
        }))
    );
    assert_eq!(host.manager().phase(), Phase::Negotiating);

    for side in [&mut host, &mut joiner] {
        side.on_transport_event(TransportEvent::ConnectivityChanged(ConnectivityStatus::Checking), 9);
        side.on_transport_event(TransportEvent::ConnectivityChanged(ConnectivityStatus::Connected), 10);
        side.on_transport_event(TransportEvent::ChannelChanged(ChannelStatus::Open), 11);
        assert_eq!(side.manager().current_state().channel_status, ChannelStatus::Open);
        assert_eq!(side.manager().phase(), Phase::ChannelOpen);
        assert_eq!(side.connection_step(), ConnectionStep::Connected);
        assert!(side.is_chat_enabled());
    }

    host.update(Msg::UpdateInputChatValue("hi".to_string()), 12);
    let sent = host.update(Msg::Send, 13);
    assert_eq!(sent.command, Some(Command::Transmit(b"hi".to_vec())));
    assert!(sent.scroll);
    assert_eq!(host.chat_value(), "");
    assert_eq!(host.messages().len(), 1);
    assert_eq!(host.messages()[0], Message::new("hi".to_string(), MessageSender::Me, 13));

    let bytes = match sent.command {
        Some(Command::Transmit(bytes)) => bytes,
        _ => unreachable!(),
    };
    let received = joiner.on_transport_event(TransportEvent::ChannelMessage(bytes), 14);
    assert!(received.scroll);
    assert_eq!(joiner.messages().len(), 1);
    assert_eq!(joiner.messages()[0].sender(), MessageSender::Other);
    assert_eq!(joiner.messages()[0].content(), "hi");
    assert_eq!(joiner.messages()[0].timestamp(), 14);
}

#[test]
fn reset_mid_negotiation() {
    let mut host = ChatModel::create();
    host.update(Msg::SetConnectionStep(ConnectionStep::ChooseRole), 0);
    host.update(Msg::ChooseHost, 0);
    harvest_session(&mut host, "offer", 1);
    let code_a = host.connection_code().unwrap().to_string();
    host.update(Msg::NewMessage(Message::new("x".to_string(), MessageSender::Other, 1)), 1);
    let o = host.update(Msg::ResetWebRTC, 6);
    assert!(o.release);
    assert_eq!(host.connection_step(), ConnectionStep::Welcome);
    assert_eq!(host.state(), State::Default);
    assert_eq!(host.connection_code(), None);
    assert!(host.messages().is_empty());

    let answer = encode(&ConnectionString { ice_candidates: vec![], offer: "answer".to_string() }).unwrap();
    let mut manager = NetworkManager::new();
    assert_eq!(manager.accept_answer(&answer), Err(NetworkError::InvalidState));
    assert_eq!(manager.accept_answer(&code_a), Err(NetworkError::InvalidState));
    host.update(Msg::UpdateInputValue(answer), 7);
    assert_eq!(host.update(Msg::ValidateOffer, 8), notice(Notice::InvalidState));
    assert_eq!(host.manager().phase(), Phase::Uninitialized);
}

#[test]
fn disconnect_forgets_the_session() {
    let mut model = ChatModel::create();
    model.update(Msg::SetConnectionStep(ConnectionStep::ChooseRole), 0);
    model.update(Msg::ChooseHost, 0);
    model.on_transport_event(TransportEvent::ChannelChanged(ChannelStatus::Open), 1);
    model.update(Msg::UpdateInputChatValue("a".to_string()), 2);
    model.update(Msg::Send, 3);
    model.update(Msg::UpdateTypingState(true), 4);
    let o = model.update(Msg::Disconnect, 5);
    assert_eq!(o, Outcome { release: true, ..quiet() });
    assert_eq!(model.connection_step(), ConnectionStep::Welcome);
    assert!(model.messages().is_empty());
    assert_eq!(model.typing_state(), TypingState { is_typing: false, last_activity: 0 });
    assert_eq!(model.manager().phase(), Phase::Uninitialized);
}

#[test]
fn enter_sends_what_the_input_holds() {
    let mut model = ChatModel::create();
    model.update(Msg::StartAsServer, 0);
    model.on_transport_event(TransportEvent::ChannelChanged(ChannelStatus::Open), 1);
    assert_eq!(model.update(Msg::OnKeyUp(13), 2), quiet());
    model.update(Msg::UpdateInputChatValue("yo".to_string()), 3);
    assert_eq!(model.update(Msg::OnKeyUp(65), 4), quiet());
    assert_eq!(model.chat_value(), "yo");
    let o = model.update(Msg::OnKeyUp(13), 5);
    assert_eq!(o.command, Some(Command::Transmit(b"yo".to_vec())));
    assert_eq!(model.messages().len(), 1);
    assert_eq!(model.chat_value(), "");
}

#[test]
fn messages_are_logged_in_the_order_of_arrival() {
    let mut model = ChatModel::create();
    model.update(Msg::StartAsServer, 0);
    model.on_transport_event(TransportEvent::ChannelChanged(ChannelStatus::Open), 1);
    model.on_transport_event(TransportEvent::ChannelMessage(b"one".to_vec()), 2);
    model.update(Msg::UpdateInputChatValue("two".to_string()), 3);
    model.update(Msg::Send, 3);
    model.on_transport_event(TransportEvent::ChannelMessage("dr\u{e9}i".as_bytes().to_vec()), 4);
    let o = model.on_transport_event(TransportEvent::ChannelMessage(vec![0xff, 0xfe]), 5);
    assert_eq!(o, notice(Notice::NotText));
    let log: Vec<(MessageSender, String)> =
        model.messages().iter().map(|m| (m.sender(), m.content().to_string())).collect();
    assert_eq!(
        log,
        vec![
            (MessageSender::Other, "one".to_string()),
            (MessageSender::Me, "two".to_string()),
            (MessageSender::Other, "dr\u{e9}i".to_string()),
        ]
    );
}

#[test]
fn typing_is_reported_every_two_seconds() {
    let mut model = ChatModel::create();
    model.update(Msg::StartTyping, 2000);
    model.update(Msg::UpdateTypingState(true), 2000);
    assert_eq!(model.typing_state(), TypingState { is_typing: true, last_activity: 2000 });
    assert_eq!(model.update(Msg::StopTyping, 2001), quiet());
    assert_eq!(model.update(Msg::ConnectToServer, 2001), quiet());
    assert_eq!(model.update(Msg::CopyToClipboard, 2001), Outcome { copy: true, ..quiet() });
}

#[test]
fn the_qr_code_needs_a_code() {
    let mut model = ChatModel::create();
    assert_eq!(model.update(Msg::GenerateQRCode, 0), notice(Notice::InvalidState));
    model.update(Msg::SetConnectionStep(ConnectionStep::ChooseRole), 0);
    model.update(Msg::ChooseHost, 0);
    harvest_session(&mut model, "offer", 1);
    assert_eq!(model.update(Msg::GenerateQRCode, 6), quiet());
    assert!(model.show_qr_modal());
    assert!(model.qr_code_data_url().unwrap().starts_with("data:image/png;base64,iVBOR"));
    assert_eq!(model.update(Msg::CloseQRModal, 7), quiet());
    assert!(!model.show_qr_modal());
    assert_eq!(
        model.get_serialized_offer_and_candidates().as_deref(),
        model.connection_code()
    );
}

#[test]
fn chunks_reach_the_session() {
    let data: Vec<u8> = (0..20).collect();
    let chunks = FileChunker::split(1, &data, 8);
    let mut model = ChatModel::create();
    assert_eq!(model.receive_chunk(chunks[2].clone()), None);
    assert_eq!(model.receive_chunk(chunks[0].clone()), None);
    model.update(Msg::ResetWebRTC, 0);
    assert_eq!(model.receive_chunk(chunks[1].clone()), None);
    assert_eq!(model.receive_chunk(chunks[0].clone()), None);
    assert_eq!(model.receive_chunk(chunks[2].clone()), Some(data));
}

#[test]
fn a_bad_answer_is_told_and_changes_nothing() {
    let mut host = ChatModel::create();
    host.update(Msg::SetConnectionStep(ConnectionStep::ChooseRole), 0);
    host.update(Msg::ChooseHost, 0);
    harvest_session(&mut host, "offer", 1);
    host.update(Msg::SetConnectionStep(ConnectionStep::WaitingForAnswer), 6);
    let before = host.state();
    host.update(Msg::UpdateInputValue("garbage".to_string()), 7);
    assert_eq!(
        host.update(Msg::ValidateOffer, 8),
        notice(Notice::InvalidAnswer(NetworkError::InvalidAnswer(DecodeError::Malformed)))
    );
    assert_eq!(host.state(), before);
    assert_eq!(host.manager().phase(), Phase::OfferReady);
    assert_eq!(host.connection_step(), ConnectionStep::WaitingForAnswer);
}

#[test]
fn starting_twice_is_told() {
    let mut model = ChatModel::create();
    assert_eq!(model.update(Msg::StartAsServer, 0).command, Some(Command::CreateOffer));
    assert_eq!(
        model.update(Msg::StartAsServer, 1),
        notice(Notice::StartFailed(NetworkError::AlreadyStarted))
    );
    model.update(Msg::SetConnectionStep(ConnectionStep::ChooseRole), 2);
    assert_eq!(
        model.update(Msg::ChooseHost, 3),
        notice(Notice::StartFailed(NetworkError::AlreadyStarted))
    );
    assert_eq!(model.connection_step(), ConnectionStep::ChooseRole);
}

#[test]
fn a_code_too_long_for_a_qr_code_is_told() {
    let mut model = ChatModel::create();
    model.update(Msg::SetConnectionStep(ConnectionStep::ChooseRole), 0);
    model.update(Msg::ChooseHost, 0);
    model.on_transport_event(TransportEvent::LocalDescription("x".repeat(4000)), 1);
    model.on_transport_event(TransportEvent::GatheringChanged(GatheringStatus::Complete), 2);
    assert_eq!(model.connection_step(), ConnectionStep::SharingCode);
    assert_eq!(
        model.update(Msg::GenerateQRCode, 3),
        notice(Notice::QrFailed(QrFailure::DataTooLong))
    );
    assert!(!model.show_qr_modal());
    assert_eq!(model.qr_code_data_url(), None);
}

#[test]
fn what_is_shown_follows_the_session() {
    assert_eq!(sender_name(MessageSender::Me), "Me");
    assert_eq!(sender_name(MessageSender::Other), "Friend");
    assert_eq!(sharing_captions(Some(Role::Host)).0, "Connection Code Ready!");
    assert_eq!(sharing_captions(Some(Role::Joiner)).0, "Answer Generated!");
    assert_eq!(sharing_captions(None), ("Code Ready!", "Share this code", "Waiting..."));
    let mut model = ChatModel::create();
    assert!(!model.is_disconnect_button_visible());
    assert!(!model.is_send_button_enabled());
    model.update(Msg::StartAsServer, 0);
    assert!(model.is_disconnect_button_visible());
    model.on_transport_event(TransportEvent::ChannelChanged(ChannelStatus::Open), 1);
    assert!(!model.is_send_button_enabled());
    model.update(Msg::UpdateInputChatValue("x".to_string()), 2);
    assert!(model.is_send_button_enabled());
}

#[test]
fn send_and_on_receive_log_in_turn() {
    let mut model = ChatModel::create();
    model.update(Msg::UpdateInputChatValue("draft".to_string()), 0);
    assert_eq!(model.send("early".to_string(), 0), notice(Notice::SendRefused));
    assert!(model.messages().is_empty());
    assert_eq!(model.chat_value(), "draft");
    model.update(Msg::StartAsServer, 0);
    model.on_transport_event(TransportEvent::ChannelChanged(ChannelStatus::Open), 1);
    let sent = model.send("ping".to_string(), 2);
    assert_eq!(sent.command, Some(Command::Transmit(b"ping".to_vec())));
    let got = model.on_receive(b"pong".to_vec(), 3);
    assert!(got.scroll);
    assert_eq!(model.on_receive(vec![0x80], 4), notice(Notice::NotText));
    assert_eq!(model.messages().len(), 2);
    assert_eq!(model.messages()[1], Message::new("pong".to_string(), MessageSender::Other, 3));
}

/// Performs what a session asked for on the two fake transports and lets
/// both sessions know.
fn carry_out(
    outcome: Outcome,
    transport: &FakeTransport,
    own: &mut ChatModel,
    peer: &mut ChatModel,
    now: u64,
) {
    if let Some(command) = outcome.command {
        for event in transport.perform(&command) {
            own.on_transport_event(event, now);
        }
        for event in FakeTransport::reach_peer(&command) {
            peer.on_transport_event(event, now);
        }
    }
}

#[test]
fn the_fake_transport_answers_every_command() {
    let transport = FakeTransport::new("d".to_string(), vec![candidate(1), candidate(2)]);
    let harvest = vec![
        TransportEvent::LocalDescription("d".to_string()),
        TransportEvent::GatheringChanged(GatheringStatus::InProgress),
        TransportEvent::CandidateDiscovered(candidate(1)),
        TransportEvent::CandidateDiscovered(candidate(2)),
        TransportEvent::GatheringChanged(GatheringStatus::Complete),
    ];
    let opening = vec![
        TransportEvent::ConnectivityChanged(ConnectivityStatus::Checking),
        TransportEvent::ConnectivityChanged(ConnectivityStatus::Connected),
        TransportEvent::ChannelChanged(ChannelStatus::Open),
    ];
    let artifact = ConnectionString { ice_candidates: vec![], offer: "o".to_string() };
    assert_eq!(transport.perform(&Command::CreateOffer), harvest);
    assert_eq!(transport.perform(&Command::AnswerOffer(artifact.clone())), harvest);
    assert_eq!(transport.perform(&Command::ApplyAnswer(artifact.clone())), opening);
    assert_eq!(transport.perform(&Command::Transmit(vec![1])), vec![]);
    assert_eq!(FakeTransport::reach_peer(&Command::CreateOffer), vec![]);
    assert_eq!(FakeTransport::reach_peer(&Command::AnswerOffer(artifact.clone())), vec![]);
    assert_eq!(FakeTransport::reach_peer(&Command::ApplyAnswer(artifact)), opening);
    assert_eq!(
        FakeTransport::reach_peer(&Command::Transmit(vec![1, 2])),
        vec![TransportEvent::ChannelMessage(vec![1, 2])]
    );
}

#[test]
fn happy_path_over_the_fake_transport() {
    let host_transport = FakeTransport::new("offer".to_string(), vec![candidate(1)]);
    let joiner_transport = FakeTransport::new("answer".to_string(), vec![candidate(2), candidate(3)]);
    let mut host = ChatModel::create();
    let mut joiner = ChatModel::create();

    host.update(Msg::SetConnectionStep(ConnectionStep::ChooseRole), 0);
    let o = host.update(Msg::ChooseHost, 1);
    carry_out(o, &host_transport, &mut host, &mut joiner, 2);
    assert_eq!(host.connection_step(), ConnectionStep::SharingCode);
    let code_a = host.connection_code().unwrap().to_string();
    host.update(Msg::SetConnectionStep(ConnectionStep::WaitingForAnswer), 3);

    joiner.update(Msg::SetConnectionStep(ConnectionStep::ChooseRole), 4);
    joiner.update(Msg::ChooseJoin, 5);
    joiner.update(Msg::UpdateInputValue(code_a), 6);
    let o = joiner.update(Msg::ValidateOffer, 7);
    carry_out(o, &joiner_transport, &mut joiner, &mut host, 8);
    assert_eq!(joiner.connection_step(), ConnectionStep::SharingCode);
    let code_b = joiner.connection_code().unwrap().to_string();
    assert_eq!(
        decode(&code_b),
        Ok(ConnectionString {
            ice_candidates: vec![candidate(2), candidate(3)],
            offer: "answer".to_string(),
        })
    );

    host.update(Msg::UpdateInputValue(code_b), 9);
    let o = host.update(Msg::ValidateOffer, 10);
    carry_out(o, &host_transport, &mut host, &mut joiner, 11);
    assert_eq!(host.manager().current_state().channel_status, ChannelStatus::Open);
    assert_eq!(joiner.manager().current_state().channel_status, ChannelStatus::Open);
    assert_eq!(host.connection_step(), ConnectionStep::Connected);
    assert_eq!(joiner.connection_step(), ConnectionStep::Connected);

    let o = host.send("hi".to_string(), 12);
    carry_out(o, &host_transport, &mut host, &mut joiner, 13);
    assert_eq!(joiner.messages().len(), 1);
    assert_eq!(joiner.messages()[0], Message::new("hi".to_string(), MessageSender::Other, 13));
    assert_eq!(host.messages()[0], Message::new("hi".to_string(), MessageSender::Me, 12));
    let o = joiner.send("hello".to_string(), 14);
    carry_out(o, &joiner_transport, &mut joiner, &mut host, 15);
    assert_eq!(host.messages().len(), 2);
    assert_eq!(host.messages()[1].content(), "hello");
    assert_eq!(host.messages()[1].sender(), MessageSender::Other);
}

#[test]
fn the_present_code_holds_a_late_candidate() {
    let mut host = ChatModel::create();
    host.update(Msg::SetConnectionStep(ConnectionStep::ChooseRole), 0);
    host.update(Msg::ChooseHost, 0);
    assert_eq!(host.get_serialized_offer_and_candidates(), None);
    assert_eq!(host.code_to_share(), None);
    host.on_transport_event(TransportEvent::LocalDescription("offer".to_string()), 1);
    host.on_transport_event(TransportEvent::GatheringChanged(GatheringStatus::Complete), 2);
    let shown = host.connection_code().unwrap().to_string();
    assert_eq!(
        decode(&shown),
        Ok(ConnectionString { ice_candidates: vec![], offer: "offer".to_string() })
    );
    assert_eq!(host.get_serialized_offer_and_candidates(), Some(shown.clone()));

    host.on_transport_event(TransportEvent::CandidateDiscovered(candidate(9)), 3);
    let present = host.get_serialized_offer_and_candidates().unwrap();
    assert_eq!(
        decode(&present),
        Ok(ConnectionString { ice_candidates: vec![candidate(9)], offer: "offer".to_string() })
    );
    assert_eq!(host.manager().get_ice_candidates(), vec![candidate(9)]);
    assert_eq!(host.connection_code(), Some(shown.as_str()));
    assert_eq!(host.code_to_share(), Some(shown));
}

#[test]
fn the_present_code_is_one_run_of_base64() {
    let mut host = NetworkManager::new();
    host.begin_as_host().unwrap();
    harvest(&mut host, "v=0\r\n o=\"x\" \u{e9}", 1);
    let code = host.local_code().unwrap();
    assert_eq!(code.len() % 4, 0);
    assert!(code.bytes().all(|b| b.is_ascii_alphanumeric() || b == b'+' || b == b'/' || b == b'='));
}

#[test]
fn codes_are_handed_over() {
    let mut host = NetworkManager::new();
    let mut joiner = NetworkManager::new();
    assert_eq!(relay_offer(&host, &mut joiner), None);
    host.begin_as_host().unwrap();
    assert_eq!(relay_offer(&host, &mut joiner), None);
    assert_eq!(joiner.phase(), Phase::Uninitialized);
    harvest(&mut host, "offer", 1);
    assert_eq!(
        relay_offer(&host, &mut joiner),
        Some(Ok(Command::AnswerOffer(ConnectionString {
            ice_candidates: vec![candidate(1), candidate(2)],
            offer: "offer".to_string(),
        })))
    );
    assert_eq!(joiner.role(), Some(Role::Joiner));
    assert_eq!(joiner.phase(), Phase::NegotiationStarted);
    assert_eq!(relay_offer(&host, &mut joiner), Some(Err(NetworkError::InvalidState)));

    assert_eq!(relay_answer(&joiner, &mut host), None);
    harvest(&mut joiner, "answer", 5);
    host.on_event(TransportEvent::CandidateDiscovered(candidate(3)));
    assert_eq!(
        relay_answer(&joiner, &mut host),
        Some(Ok(Command::ApplyAnswer(ConnectionString {
            ice_candidates: vec![candidate(5), candidate(6)],
            offer: "answer".to_string(),
        })))
    );
    assert_eq!(host.phase(), Phase::Negotiating);
    assert_eq!(relay_answer(&joiner, &mut host), Some(Err(NetworkError::InvalidState)));
    assert_eq!(relay_answer(&host, &mut joiner), Some(Err(NetworkError::InvalidState)));
}
