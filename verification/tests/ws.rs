use axum::http::header;
use axum::http::HeaderMap;
use devbit::auth;
use devbit::clock::Duration;
use devbit::clock::Instant;
use devbit::clock::NANOS_PER_SECOND;
use devbit::message::parse_application_message;
use devbit::message::ClientMessage;
use devbit::message::ServerMessage;
use devbit::outbound::Frame;
use devbit::outbound::SendOutcome;
use devbit::receipt::Delivery;
use devbit::receipt::History;
use devbit::session::compatible_redundant_identity;
use devbit::session::finish;
use devbit::session::first_expiry;
use devbit::session::identity_of_user;
use devbit::session::perform;
use devbit::session::Action;
use devbit::session::Event;
use devbit::session::Performed;
use devbit::session::Session;
use devbit::ws::enqueue_server_message;
use devbit::ws::register_authenticated_connection;
use devbit::ws::unregister_authenticated_connection;
use devbit::ws::WsState;
use serde_json::Value;
use tokio::sync::mpsc;
use tokio::sync::watch;

fn client_message(text: &str) -> Option<ClientMessage> {
    let value: Value = serde_json::from_str(text).ok()?;
    let field = |name: &str| value.get(name).and_then(Value::as_str).map(str::to_owned);
    match value.get("type")?.as_str()? {
        "auth" => Some(ClientMessage::Auth { token: field("token")? }),
        "ping" => Some(ClientMessage::Ping),
        "subscribe" => Some(ClientMessage::Subscribe { channel: field("channel")? }),
        "unsubscribe" => Some(ClientMessage::Unsubscribe { channel: field("channel")? }),
        _ => None,
    }
}

fn enqueue(sender: &mpsc::Sender<Frame>, frame: Frame) -> Delivery {
    devbit::outbound::enqueue(&mut History::new(), sender, frame)
}

fn text_frame(text: &str) -> Frame {
    Frame::Text(text.to_owned())
}

fn holds_text(frame: Result<Frame, mpsc::error::TryRecvError>, part: &str) -> bool {
    matches!(frame, Ok(Frame::Text(text)) if text.contains(part))
}

fn at(seconds: u64) -> Instant {
    Instant { nanos: u128::from(seconds) * NANOS_PER_SECOND }
}

fn refusal_in(actions: &[Action]) -> Option<&str> {
    match actions {
        [Action::Tell(ServerMessage::AuthError { reason })] => Some(reason),
        _ => None,
    }
}

fn opened_for(user_id: i32) -> Session {
    Session::open(Some(auth::AuthIdentity { user_id, expires_at: 500 }), at(0)).0
}

#[test]
fn authentication_must_be_first_application_message() {
    assert!(matches!(
        parse_application_message(client_message(r#"{"type":"auth","token":"token"}"#), false),
        Ok(ClientMessage::Auth { .. })
    ));
    assert_eq!(
        parse_application_message(client_message(r#"{"type":"ping"}"#), false).unwrap_err(),
        "Authentication must be the first message"
    );
    assert_eq!(
        parse_application_message(client_message(r#"{"type":"auth","token":"token"}"#), true)
            .unwrap_err(),
        "Already authenticated"
    );
}

#[test]
fn upgrade_cookie_establishes_an_identity() {
    let token = auth::generate_token(42, "websocket@example.com", None).unwrap();
    let mut headers = HeaderMap::new();
    headers.insert(
        header::COOKIE,
        format!("theme=dark; {}={token}", auth::AUTH_COOKIE_NAME).parse().unwrap(),
    );

    assert_eq!(auth::user_id_from_headers(&headers, None), Some(42));
    assert_eq!(
        compatible_redundant_identity(
            &client_message(&format!(r#"{{"type":"auth","token":"{token}"}}"#)),
            Some(42),
            None,
        )
        .map(|identity| identity.user_id),
        Some(42)
    );
}

#[test]
fn auth_ok_precedes_the_online_broadcast() {
    let mut state = WsState::new();
    let (sender, mut receiver) = mpsc::channel(4);
    let (disconnect, _disconnect_receiver) = watch::channel(false);

    register_authenticated_connection(&mut state, &sender, &disconnect, 7);

    assert!(holds_text(receiver.try_recv(), r#""type":"auth_ok""#));
    assert!(holds_text(receiver.try_recv(), r#""type":"user_online""#));
}

#[test]
fn second_tab_does_not_create_another_online_transition() {
    let mut state = WsState::new();
    let (first_sender, _first_receiver) = mpsc::channel(1);
    let (second_sender, _second_receiver) = mpsc::channel(1);
    let (first_disconnect, _first_disconnect_receiver) = watch::channel(false);
    let (second_disconnect, _second_disconnect_receiver) = watch::channel(false);

    assert!(state.register(7, first_sender.clone(), first_disconnect));
    assert!(!state.register(7, second_sender.clone(), second_disconnect));
    assert!(!state.unregister(7, &first_sender));
    assert!(state.unregister(7, &second_sender));
}

#[test]
fn reconnect_transition_follows_offline_broadcast() {
    let mut state = WsState::new();
    let (observer, mut observer_messages) = mpsc::channel(4);
    let (first_sender, _first_messages) = mpsc::channel(1);
    let (second_sender, _second_messages) = mpsc::channel(1);
    let (observer_disconnect, _observer_disconnect_receiver) = watch::channel(false);
    let (first_disconnect, _first_disconnect_receiver) = watch::channel(false);
    let (second_disconnect, _second_disconnect_receiver) = watch::channel(false);
    state.register(99, observer, observer_disconnect);
    state.register(7, first_sender.clone(), first_disconnect);

    assert!(unregister_authenticated_connection(&mut state, &first_sender, 7).is_some());
    register_authenticated_connection(&mut state, &second_sender, &second_disconnect, 7);

    assert!(holds_text(observer_messages.try_recv(), r#""type":"user_offline""#));
    assert!(holds_text(observer_messages.try_recv(), r#""type":"user_online""#));
}

#[test]
fn disconnect_user_closes_all_tabs_and_broadcasts_offline() {
    let mut state = WsState::new();
    let (observer, mut observer_messages) = mpsc::channel(2);
    let (first_sender, _first_messages) = mpsc::channel(1);
    let (second_sender, _second_messages) = mpsc::channel(1);
    let (observer_disconnect, _observer_disconnect_receiver) = watch::channel(false);
    let (first_disconnect, first_disconnect_receiver) = watch::channel(false);
    let (second_disconnect, second_disconnect_receiver) = watch::channel(false);
    // The receivers outlive the senders that the state drops.
    let _first_kept = first_disconnect.clone();
    let _second_kept = second_disconnect.clone();
    state.register(99, observer, observer_disconnect);
    state.register(7, first_sender.clone(), first_disconnect);
    state.register(7, second_sender, second_disconnect);

    // A full data queue must not prevent the control-plane disconnect.
    assert!(enqueue(&first_sender, text_frame("queued")).keeps_connection());

    let departure = state.disconnect_user(7).unwrap();

    assert!(first_disconnect_receiver.has_changed().unwrap());
    assert!(second_disconnect_receiver.has_changed().unwrap());
    assert!(*first_disconnect_receiver.borrow());
    assert!(*second_disconnect_receiver.borrow());
    assert!(holds_text(observer_messages.try_recv(), r#""type":"user_offline""#));
    assert!(!state.has_entry(7));
    assert_eq!(departure.signals.len(), 2);
    assert!(departure.signals.iter().all(|signal| signal.value()));
    assert_eq!(departure.announcement.len(), 1);
    assert_eq!(departure.announcement[0].user_id, 99);
}

#[test]
fn full_queue_drops_message_without_discarding_sender() {
    let (sender, mut receiver) = mpsc::channel(1);
    assert!(enqueue(&sender, text_frame("first")).keeps_connection());
    assert!(enqueue(&sender, text_frame("dropped")).keeps_connection());
    assert!(matches!(receiver.try_recv(), Ok(Frame::Text(text)) if text == "first"));
    assert!(enqueue(&sender, text_frame("next")).keeps_connection());
}

#[test]
fn closed_queue_discards_sender() {
    let (sender, receiver) = mpsc::channel(1);
    drop(receiver);
    assert!(!enqueue(&sender, text_frame("message")).keeps_connection());
}

#[test]
fn receipts_say_what_became_of_a_frame() {
    let (sender, receiver) = mpsc::channel(1);
    let sent = enqueue(&sender, text_frame("a"));
    assert_eq!(sent.outcome(), SendOutcome::Sent);
    assert_eq!(*sent.frame(), text_frame("a"));
    assert_eq!(enqueue(&sender, Frame::Ping).outcome(), SendOutcome::Full);
    drop(receiver);
    assert_eq!(enqueue(&sender, Frame::Ping).outcome(), SendOutcome::Closed);
}

#[test]
fn messages_are_written_as_json() {
    assert_eq!(ServerMessage::Pong.to_json(), r#"{"type":"pong"}"#);
    assert_eq!(
        ServerMessage::AuthOk { user_id: -7 }.to_json(),
        r#"{"type":"auth_ok","user_id":-7}"#
    );
    assert_eq!(
        ServerMessage::AuthError { reason: "bad \"token\"\n\u{1}".to_owned() }.to_json(),
        "{\"type\":\"auth_error\",\"reason\":\"bad \\\"token\\\"\\n\\u0001\"}"
    );
    assert_eq!(
        ServerMessage::UserOnline { user_id: i32::MAX }.to_json(),
        r#"{"type":"user_online","user_id":2147483647}"#
    );
    assert_eq!(
        ServerMessage::UserOffline { user_id: i32::MIN }.to_json(),
        r#"{"type":"user_offline","user_id":-2147483648}"#
    );
    assert_eq!(
        ServerMessage::Subscribed { channel: "né/ws\\".to_owned() }.to_json(),
        "{\"type\":\"subscribed\",\"channel\":\"né/ws\\\\\"}"
    );
}

#[test]
fn unreadable_text_is_refused_by_state() {
    assert_eq!(
        parse_application_message(client_message("nonsense"), false).unwrap_err(),
        "Authentication must be the first message"
    );
    assert_eq!(
        parse_application_message(client_message("nonsense"), true).unwrap_err(),
        "Invalid message"
    );
    assert!(parse_application_message(client_message(r#"{"type":"ping"}"#), true).is_ok());
}

#[test]
fn texts_reach_every_tab_of_a_user() {
    let mut state = WsState::default();
    let (first, mut first_messages) = mpsc::channel(2);
    let (second, mut second_messages) = mpsc::channel(2);
    let (other, mut other_messages) = mpsc::channel(2);
    let (disconnect, _disconnect_receiver) = watch::channel(false);
    state.register(7, first, disconnect.clone());
    state.register(7, second, disconnect.clone());
    state.register(8, other, disconnect);

    assert_eq!(state.send_to_user(7, "hello").len(), 2);
    assert_eq!(first_messages.try_recv(), Ok(text_frame("hello")));
    assert_eq!(second_messages.try_recv(), Ok(text_frame("hello")));
    assert!(other_messages.try_recv().is_err());
    assert_eq!(state.send_to_user(9, "hello").len(), 0);

    let fanouts = state.broadcast("all");
    assert_eq!(fanouts.len(), 2);
    assert_eq!(first_messages.try_recv(), Ok(text_frame("all")));
    assert_eq!(second_messages.try_recv(), Ok(text_frame("all")));
    assert_eq!(other_messages.try_recv(), Ok(text_frame("all")));
}

#[test]
fn closed_queues_lose_their_place_and_full_ones_keep_it() {
    let mut state = WsState::new();
    let (full, _full_messages) = mpsc::channel(1);
    let (closed, closed_messages) = mpsc::channel(1);
    let (disconnect, _disconnect_receiver) = watch::channel(false);
    state.register(7, full, disconnect.clone());
    state.register(7, closed, disconnect);
    drop(closed_messages);

    assert_eq!(state.send_to_user(7, "one").len(), 2);
    assert_eq!(state.send_to_user(7, "two").len(), 1);
    assert_eq!(state.send_to_user(7, "three").len(), 1);
}

#[test]
fn a_visit_leaves_no_trace() {
    let mut state = WsState::new();
    let (sender, _messages) = mpsc::channel(4);
    let (disconnect, _disconnect_receiver) = watch::channel(false);
    let arrival = register_authenticated_connection(&mut state, &sender, &disconnect, 7);
    assert!(arrival.announcement.is_some());
    assert!(unregister_authenticated_connection(&mut state, &sender, 7).is_some());
    assert!(!state.has_entry(7));
    assert!(unregister_authenticated_connection(&mut state, &sender, 7).is_none());
    assert!(state.disconnect_user(7).is_none());
}

#[test]
fn messages_of_the_server_are_queued_as_json() {
    let mut state = WsState::new();
    let (sender, mut messages) = mpsc::channel(1);
    enqueue_server_message(&mut state, &sender, &ServerMessage::Pong);
    assert_eq!(messages.try_recv(), Ok(text_frame(r#"{"type":"pong"}"#)));
}

#[test]
fn unknown_clients_have_to_authenticate_in_time() {
    let (mut session, reply) = Session::open(None, at(0));
    assert!(reply.actions.is_empty() && !reply.closes);
    assert!(!session.is_authenticated());
    let reply = session.on_event(Event::TokenExpiry, at(5));
    assert!(reply.actions.is_empty() && !reply.closes);
    let reply = session.on_event(Event::AuthDeadline, at(10));
    assert_eq!(refusal_in(&reply.actions), Some("Authentication timed out"));
    assert!(reply.closes);
}

#[test]
fn known_clients_are_refused_once_their_token_expires() {
    let (mut session, reply) =
        Session::open(Some(auth::AuthIdentity { user_id: 7, expires_at: 500 }), at(0));
    assert!(matches!(reply.actions[..], [Action::Register(7)]));
    let reply = session.on_event(Event::AuthDeadline, at(10));
    assert!(reply.actions.is_empty() && !reply.closes);
    let reply = session.on_event(Event::TokenExpiry, at(500));
    assert_eq!(refusal_in(&reply.actions), Some("Token expired"));
    assert!(reply.closes);
}

#[test]
fn a_repeated_authentication_is_accepted_once() {
    let token = auth::generate_token(7, "seven@example.com", None).unwrap();
    let message = || Some(ClientMessage::Auth { token: token.clone() });
    let mut session = opened_for(7);
    let reply = session.on_text(message(), None, at(1));
    assert!(matches!(reply.actions[..], [Action::Expire(named)] if named.user_id == 7));
    assert!(!reply.closes);
    let reply = session.on_text(message(), None, at(2));
    assert_eq!(refusal_in(&reply.actions), Some("Already authenticated"));
    assert!(reply.closes);

    let mut session = opened_for(8);
    let reply = session.on_text(message(), None, at(1));
    assert_eq!(refusal_in(&reply.actions), Some("Already authenticated"));
    assert!(reply.closes);
}

#[test]
fn the_first_text_authenticates_or_ends() {
    let token = auth::generate_token(7, "seven@example.com", None).unwrap();
    let (mut session, _) = Session::open(None, at(0));
    let reply = session.on_text(Some(ClientMessage::Auth { token }), None, at(1));
    assert!(matches!(
        reply.actions[..],
        [Action::Expire(named), Action::Register(7)] if named.user_id == 7
    ));
    assert_eq!(session.user_id, Some(7));

    let (mut session, _) = Session::open(None, at(0));
    let wrong = ClientMessage::Auth { token: "wrong".to_owned() };
    let reply = session.on_text(Some(wrong), None, at(1));
    assert_eq!(refusal_in(&reply.actions), Some("Invalid token"));
    assert!(reply.closes);

    let (mut session, _) = Session::open(None, at(0));
    let reply = session.on_text(Some(ClientMessage::Ping), None, at(1));
    assert_eq!(refusal_in(&reply.actions), Some("Authentication must be the first message"));
    assert!(reply.closes);

    let (mut session, _) = Session::open(None, at(0));
    let reply = session.on_event(Event::Binary, at(1));
    assert_eq!(refusal_in(&reply.actions), Some("Authentication must be the first message"));
    assert!(reply.closes);
}

#[test]
fn known_clients_are_answered() {
    let mut session = opened_for(7);
    let reply = session.on_text(Some(ClientMessage::Ping), None, at(3));
    assert!(matches!(reply.actions[..], [Action::Tell(ServerMessage::Pong)]));
    assert_eq!(session.last_heartbeat, at(3));
    let subscribe = ClientMessage::Subscribe { channel: "news".to_owned() };
    let reply = session.on_text(Some(subscribe), None, at(4));
    assert!(matches!(
        &reply.actions[..],
        [Action::Tell(ServerMessage::Subscribed { channel })] if channel == "news"
    ));
    assert_eq!(session.last_heartbeat, at(3));
    let unsubscribe = ClientMessage::Unsubscribe { channel: "news".to_owned() };
    let reply = session.on_text(Some(unsubscribe), None, at(5));
    assert!(reply.actions.is_empty() && !reply.closes);
    let reply = session.on_text(None, None, at(6));
    assert_eq!(refusal_in(&reply.actions), Some("Invalid message"));
    assert!(reply.closes);
    let reply = session.on_event(Event::Binary, at(7));
    assert!(reply.actions.is_empty() && !reply.closes);
}

#[test]
fn silent_clients_are_given_up() {
    let mut session = opened_for(7);
    let reply = session.on_event(Event::Heartbeat, at(90));
    assert!(matches!(reply.actions[..], [Action::Heartbeat]));
    let reply = session.on_event(Event::Pong, at(90));
    assert!(reply.actions.is_empty() && !reply.closes);
    let reply = session.on_event(Event::Heartbeat, at(180));
    assert!(!reply.closes);
    let reply = session.on_event(Event::Ping(vec![1, 2]), at(181));
    assert!(matches!(&reply.actions[..], [Action::Answer(bytes)] if *bytes == [1, 2]));
    let late = Instant { nanos: at(271).nanos + 1 };
    let reply = session.on_event(Event::Heartbeat, late);
    assert!(reply.actions.is_empty() && reply.closes);
}

#[test]
fn connections_end_without_a_word_where_the_client_or_the_server_ends_them() {
    for event in [Event::DisconnectRequested, Event::Closed, Event::Failed] {
        let reply = opened_for(7).on_event(event, at(1));
        assert!(reply.actions.is_empty() && reply.closes);
    }
}

#[test]
fn actions_are_performed_at_the_connection() {
    let mut state = WsState::new();
    let (sender, mut messages) = mpsc::channel(8);
    let (disconnect, _disconnect_receiver) = watch::channel(false);
    let registered = perform(&mut state, &sender, &disconnect, Action::Register(7));
    assert!(matches!(registered, Performed::Registered(_)));
    assert!(state.has_entry(7));
    assert!(holds_text(messages.try_recv(), "auth_ok"));
    assert!(holds_text(messages.try_recv(), "user_online"));
    let offered = perform(&mut state, &sender, &disconnect, Action::Heartbeat);
    assert!(matches!(offered, Performed::Offered(_)));
    assert_eq!(messages.try_recv(), Ok(Frame::Ping));
    perform(&mut state, &sender, &disconnect, Action::Answer(vec![9]));
    assert_eq!(messages.try_recv(), Ok(Frame::Pong(vec![9])));
    perform(&mut state, &sender, &disconnect, Action::Tell(ServerMessage::Pong));
    assert_eq!(messages.try_recv(), Ok(text_frame(r#"{"type":"pong"}"#)));
    let expired = auth::AuthIdentity { user_id: 7, expires_at: 0 };
    let timer = perform(&mut state, &sender, &disconnect, Action::Expire(expired));
    assert!(matches!(timer, Performed::Timer(Duration { nanos: 0 })));

    assert!(finish(&mut state, &sender, &Session::open(None, at(0)).0).is_none());
    assert!(state.has_entry(7));
    assert!(finish(&mut state, &sender, &opened_for(7)).is_some());
    assert!(!state.has_entry(7));
}

#[test]
fn the_first_timer_is_the_deadline_or_the_token() {
    assert_eq!(first_expiry(None), Duration::from_secs(10));
    let expired = auth::AuthIdentity { user_id: 7, expires_at: 0 };
    assert_eq!(first_expiry(Some(expired)), Duration::from_secs(0));
}

#[test]
fn identities_of_other_users_are_not_compatible() {
    let named = auth::AuthIdentity { user_id: 7, expires_at: 0 };
    assert_eq!(identity_of_user(Some(named), Some(7)), Some(named));
    assert_eq!(identity_of_user(Some(named), Some(8)), None);
    assert_eq!(identity_of_user(Some(named), None), None);
    assert_eq!(identity_of_user(None, Some(7)), None);
    assert_eq!(compatible_redundant_identity(&Some(ClientMessage::Ping), Some(7), None), None);
    assert_eq!(compatible_redundant_identity(&None, Some(7), None), None);
}

#[test]
fn ended_connections_close_silently_and_the_user_can_come_back() {
    let mut state = WsState::new();
    let (observer, mut observer_messages) = mpsc::channel(8);
    let (first, _first_messages) = mpsc::channel(8);
    let (second, _second_messages) = mpsc::channel(8);
    let (disconnect, _disconnect_receiver) = watch::channel(false);
    state.register(99, observer, disconnect.clone());
    register_authenticated_connection(&mut state, &first, &disconnect, 7);
    register_authenticated_connection(&mut state, &second, &disconnect, 7);
    assert!(state.disconnect_user(7).is_some());
    assert!(unregister_authenticated_connection(&mut state, &first, 7).is_none());
    assert!(unregister_authenticated_connection(&mut state, &second, 7).is_none());
    register_authenticated_connection(&mut state, &first, &disconnect, 7);

    assert!(holds_text(observer_messages.try_recv(), "user_online"));
    assert!(holds_text(observer_messages.try_recv(), "user_offline"));
    assert!(holds_text(observer_messages.try_recv(), "user_online"));
    assert!(observer_messages.try_recv().is_err());
}

#[test]
fn a_lost_tab_among_others_announces_nothing() {
    let mut state = WsState::new();
    let (lost, lost_messages) = mpsc::channel(8);
    let (kept, mut kept_messages) = mpsc::channel(8);
    let (disconnect, _disconnect_receiver) = watch::channel(false);
    register_authenticated_connection(&mut state, &lost, &disconnect, 7);
    register_authenticated_connection(&mut state, &kept, &disconnect, 7);
    drop(lost_messages);
    state.broadcast("all");
    assert!(unregister_authenticated_connection(&mut state, &lost, 7).is_none());
    assert!(holds_text(kept_messages.try_recv(), "auth_ok"));
    assert_eq!(kept_messages.try_recv(), Ok(text_frame("all")));
    assert!(kept_messages.try_recv().is_err());
    assert!(unregister_authenticated_connection(&mut state, &kept, 7).is_some());
}
