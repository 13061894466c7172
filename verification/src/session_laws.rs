//! What each event does to a connection, and what each action comes to.
use crate::clock::Instant;
use crate::message::ClientMessage;
use crate::message::ServerMessage;
use crate::message::ServerMessageView;
use crate::outbound::Frame;
use crate::outbound::FrameView;
use crate::receipt::Offer;
use crate::session::Action;
use crate::session::ActionView;
use crate::session::Event;
use crate::session::Performed;
use crate::session::Reaction;
use crate::session::Reply;
use crate::session::Session;
use crate::token::AuthIdentity;
use crate::ws::WsState;
use vstd::prelude::*;

verus! {

/// A reaction does nothing but tell the client why it is refused, and close.
pub open spec fn only_refuses(after: Reaction, session: Session, reason: Seq<char>) -> bool {
    &&& after.session == session
    &&& after.actions.len() == 1
    &&& after.actions[0] == ActionView::Tell(ServerMessageView::AuthError { reason })
    &&& after.closes
}

/// A reaction does nothing at all.
pub open spec fn only_ignores(after: Reaction, session: Session) -> bool {
    after.session == session && after.actions.len() == 0 && !after.closes
}

/// How many of a row of actions set the expiry timer.
pub open spec fn timers_set(actions: Seq<ActionView>) -> nat
    decreases actions.len(),
{
    if actions.len() == 0 {
        0
    } else {
        timers_set(actions.drop_last()) + if actions.last() is Expire {
            1nat
        } else {
            0nat
        }
    }
}

proof fn lemma_timers_of_short_rows(actions: Seq<ActionView>)
    requires
        actions.len() <= 2,
    ensures
        actions.len() == 0 ==> timers_set(actions) == 0,
        actions.len() == 1 ==> timers_set(actions) == (if actions[0] is Expire {
            1nat
        } else {
            0nat
        }),
        actions.len() == 2 ==> timers_set(actions) == (if actions[0] is Expire {
            1nat
        } else {
            0nat
        }) + (if actions[1] is Expire {
            1nat
        } else {
            0nat
        }),
{
    reveal_with_fuel(timers_set, 3);
}

/// The expiry timer follows the token that was accepted: a text sets it exactly
/// where it makes the user known or repeats the authentication, once, and to
/// the very identity of the token. No other event sets it.
pub proof fn law_the_timer_follows_the_accepted_token(
    session: Session,
    event: Event,
    now: Instant,
    i: int,
)
    ensures
        ({
            let after = crate::session::reaction(session, event, now);
            &&& timers_set(after.actions) == (if event is Text && event->Text_0 is Some
                && event->Text_0->0 is Auth && event->Text_1 is Some && (session.user_id is None || (
            session.accepts_repeat && session.user_id == Some(event->Text_1->0.user_id))) {
                1nat
            } else {
                0nat
            })
            &&& 0 <= i < after.actions.len() && after.actions[i] is Expire ==> event is Text
                && event->Text_1 is Some && after.actions[i] == ActionView::Expire(
                event->Text_1->0,
            )
        }),
{
    let after = crate::session::reaction(session, event, now);
    lemma_timers_of_short_rows(after.actions);
}

/// The first accepted authentication makes the user of its token known: the
/// timer is set to that token, then the connection is counted for that user,
/// and it stays open.
pub proof fn law_an_accepted_token_settles_the_user(
    session: Session,
    token: String,
    identity: AuthIdentity,
    now: Instant,
)
    requires
        session.user_id is None,
    ensures
        ({
            let after = crate::session::reaction(
                session,
                Event::Text(Some(ClientMessage::Auth { token }), Some(identity)),
                now,
            );
            &&& after.session.user_id == Some(identity.user_id)
            &&& after.session.last_heartbeat == session.last_heartbeat
            &&& !after.session.accepts_repeat
            &&& after.actions.len() == 2
            &&& after.actions[0] == ActionView::Expire(identity)
            &&& after.actions[1] == ActionView::Register(identity.user_id)
            &&& !after.closes
        }),
{
}

/// An authentication whose token is not accepted is refused as such.
pub proof fn law_a_rejected_token_is_refused(session: Session, token: String, now: Instant)
    requires
        session.user_id is None,
    ensures
        only_refuses(
            crate::session::reaction(
                session,
                Event::Text(Some(ClientMessage::Auth { token }), None),
                now,
            ),
            Session { accepts_repeat: false, ..session },
            "Invalid token"@,
        ),
{
}

/// The first text after an authenticated upgrade may repeat the authentication
/// for the same user: the timer is set to its token, and nothing else happens.
/// A second authentication in any other place is refused.
pub proof fn law_a_repeated_authentication_only_sets_the_timer(
    session: Session,
    token: String,
    identity: Option<AuthIdentity>,
    now: Instant,
)
    requires
        session.user_id is Some,
    ensures
        ({
            let after = crate::session::reaction(
                session,
                Event::Text(Some(ClientMessage::Auth { token }), identity),
                now,
            );
            let later = Session { accepts_repeat: false, ..session };
            if session.accepts_repeat && identity is Some && identity->0.user_id
                == session.user_id->0 {
                &&& after.session == later
                &&& after.actions.len() == 1
                &&& after.actions[0] == ActionView::Expire(identity->0)
                &&& !after.closes
            } else {
                only_refuses(after, later, "Already authenticated"@)
            }
        }),
{
}

/// A known client is answered: a ping counts as a sign of life and gets a pong,
/// a subscription is confirmed with the name of its channel, the end of one is
/// taken in silence, and text that is no message ends the connection.
pub proof fn law_known_clients_are_answered(
    session: Session,
    message: Option<ClientMessage>,
    identity: Option<AuthIdentity>,
    now: Instant,
)
    requires
        session.user_id is Some,
    ensures
        ({
            let after = crate::session::reaction(session, Event::Text(message, identity), now);
            let later = Session { accepts_repeat: false, ..session };
            match message {
                None => only_refuses(after, later, "Invalid message"@),
                Some(ClientMessage::Auth { .. }) => true,
                Some(ClientMessage::Ping) => after.session == (Session {
                    last_heartbeat: now,
                    ..later
                }) && after.actions.len() == 1 && after.actions[0] == ActionView::Tell(
                    ServerMessageView::Pong,
                ) && !after.closes,
                Some(ClientMessage::Subscribe { channel }) => after.session == later
                    && after.actions.len() == 1 && after.actions[0] == ActionView::Tell(
                    ServerMessageView::Subscribed { channel: channel@ },
                ) && !after.closes,
                Some(ClientMessage::Unsubscribe { .. }) => only_ignores(after, later),
            }
        }),
{
}

/// A client that is not known may only authenticate: any other text, and any
/// bytes, end the connection with the reason.
pub proof fn law_unknown_clients_must_authenticate(
    session: Session,
    message: Option<ClientMessage>,
    identity: Option<AuthIdentity>,
    now: Instant,
)
    requires
        session.user_id is None,
        message is None || !(message->0 is Auth),
    ensures
        only_refuses(
            crate::session::reaction(session, Event::Text(message, identity), now),
            Session { accepts_repeat: false, ..session },
            "Authentication must be the first message"@,
        ),
        only_refuses(
            crate::session::reaction(session, Event::Binary, now),
            session,
            "Authentication must be the first message"@,
        ),
{
}

/// The time to authenticate matters only until the user is known, the expiry
/// of the token and bytes only after.
pub proof fn law_deadlines_have_their_time(session: Session, now: Instant)
    ensures
        session.user_id is None ==> only_refuses(
            crate::session::reaction(session, Event::AuthDeadline, now),
            session,
            "Authentication timed out"@,
        ),
        session.user_id is Some ==> only_ignores(
            crate::session::reaction(session, Event::AuthDeadline, now),
            session,
        ),
        session.user_id is Some ==> only_refuses(
            crate::session::reaction(session, Event::TokenExpiry, now),
            session,
            "Token expired"@,
        ),
        session.user_id is None ==> only_ignores(
            crate::session::reaction(session, Event::TokenExpiry, now),
            session,
        ),
        session.user_id is Some ==> only_ignores(
            crate::session::reaction(session, Event::Binary, now),
            session,
        ),
{
}

/// A connection that the server wants closed, or that the client closed, or
/// that failed, ends without a word.
pub proof fn law_ends_are_silent(session: Session, event: Event, now: Instant)
    requires
        event is DisconnectRequested || event is Closed || event is Failed,
    ensures
        crate::session::reaction(session, event, now).session == session,
        crate::session::reaction(session, event, now).actions.len() == 0,
        crate::session::reaction(session, event, now).closes,
{
}

/// A sign of life of the client counts from the moment it came: a heartbeat is
/// answered with its own bytes, an answer is taken in silence.
pub proof fn law_signs_of_life_count(session: Session, bytes: Vec<u8>, now: Instant)
    ensures
        ({
            let after = crate::session::reaction(session, Event::Ping(bytes), now);
            &&& after.session == (Session { last_heartbeat: now, ..session })
            &&& after.actions.len() == 1
            &&& after.actions[0] == ActionView::Answer(bytes@)
            &&& !after.closes
        }),
        only_ignores(
            crate::session::reaction(session, Event::Pong, now),
            Session { last_heartbeat: now, ..session },
        ),
{
}

/// A client is given up once it has been silent for more than ninety seconds;
/// up to then each heartbeat that is due is sent.
pub proof fn law_ninety_seconds_of_silence_end_a_connection(session: Session, now: Instant)
    ensures
        ({
            let after = crate::session::reaction(session, Event::Heartbeat, now);
            &&& after.session == session
            &&& now.nanos - session.last_heartbeat.nanos > 90_000_000_000 ==> after.closes
                && after.actions.len() == 0
            &&& now.nanos - session.last_heartbeat.nanos <= 90_000_000_000 ==> !after.closes
                && after.actions.len() == 1 && after.actions[0] == ActionView::Heartbeat
        }),
{
}

/// A connection opens with the user of the upgrade, where there is one: it is
/// counted for that user, and the first text may repeat the authentication.
pub proof fn law_upgrades_open_connections(initial: Option<AuthIdentity>, now: Instant)
    ensures
        ({
            let after = Session::opened(initial, now);
            &&& after.session.last_heartbeat == now
            &&& after.session.accepts_repeat == initial is Some
            &&& !after.closes
            &&& match initial {
                Some(identity) => after.session.user_id == Some(identity.user_id)
                    && after.actions.len() == 1 && after.actions[0] == ActionView::Register(
                    identity.user_id,
                ),
                None => after.session.user_id is None && after.actions.len() == 0,
            }
        }),
{
}

/// A reply that fits a reaction holds the same actions in the same order, and
/// closes exactly where the reaction does.
pub proof fn law_replies_hold_the_actions(reply: Reply, expected: Reaction, i: int)
    requires
        reply.fits(expected),
    ensures
        reply.actions@.len() == expected.actions.len(),
        0 <= i < expected.actions.len() ==> (match reply.actions@[i] {
            Action::Tell(message) => expected.actions[i] == ActionView::Tell(message@),
            Action::Heartbeat => expected.actions[i] == ActionView::Heartbeat,
            Action::Answer(bytes) => expected.actions[i] == ActionView::Answer(bytes@),
            Action::Expire(identity) => expected.actions[i] == ActionView::Expire(identity),
            Action::Register(user_id) => expected.actions[i] == ActionView::Register(user_id),
        }),
        reply.closes == expected.closes,
{
    assert(crate::session::action_views(reply.actions@).len() == reply.actions@.len());
    if 0 <= i < expected.actions.len() {
        assert(crate::session::action_views(reply.actions@)[i] == reply.actions@[i]@);
    }
}

/// What messages and frames say is what they hold.
pub proof fn law_messages_say_what_they_hold(message: ServerMessage, frame: Frame)
    ensures
        match message {
            ServerMessage::Pong => message@ == ServerMessageView::Pong,
            ServerMessage::AuthOk { user_id } => message@ == (ServerMessageView::AuthOk {
                user_id,
            }),
            ServerMessage::AuthError { reason } => message@ == (ServerMessageView::AuthError {
                reason: reason@,
            }),
            ServerMessage::UserOnline { user_id } => message@ == (ServerMessageView::UserOnline {
                user_id,
            }),
            ServerMessage::UserOffline { user_id } => message@ == (ServerMessageView::UserOffline {
                user_id,
            }),
            ServerMessage::Subscribed { channel } => message@ == (ServerMessageView::Subscribed {
                channel: channel@,
            }),
        },
        match frame {
            Frame::Text(text) => frame@ == FrameView::Text(text@),
            Frame::Ping => frame@ == FrameView::Ping,
            Frame::Pong(bytes) => frame@ == FrameView::Pong(bytes@),
        },
{
}

/// A repeated authentication names the same user: an identity is kept as it is
/// where it is that of the user, and dropped otherwise.
pub proof fn law_only_the_same_user_repeats(identity: Option<AuthIdentity>, user_id: Option<i32>)
    ensures
        match crate::session::same_user(identity, user_id) {
            Some(kept) => identity == Some(kept) && user_id == Some(kept.user_id),
            None => identity is None || user_id != Some(identity->0.user_id),
        },
{
}

/// Only an authentication names somebody, and it names the holder of its own
/// token under the secret.
pub proof fn law_messages_name_the_holder_of_their_token(
    message: ClientMessage,
    secret: Seq<char>,
)
    ensures
        crate::session::named_in(None, secret) is None,
        crate::session::named_in(Some(message), secret) == (match message {
            ClientMessage::Auth { token } => crate::token::token_identity(token@, secret),
            _ => None,
        }),
{
}

/// What was performed is one frame that was offered to the queue: nothing else
/// was handed out, and the connections stay.
pub open spec fn one_frame(
    before: WsState,
    after: WsState,
    queue: nat,
    frame: FrameView,
    performed: Performed,
) -> bool {
    &&& after.connections() == before.connections()
    &&& after.history().len() == before.history().len() + 1
    &&& after.history().drop_last() == before.history()
    &&& after.history().last() == Offer::Frame(queue, frame)
    &&& performed is Offered
    &&& performed->Offered_0.to() == queue
    &&& performed->Offered_0.content() == frame
}

/// A message is offered to the queue of its connection in JSON, a heartbeat as
/// one, and the answer to a heartbeat with the bytes of that.
pub proof fn law_actions_offer_their_frame(
    before: WsState,
    after: WsState,
    queue: nat,
    signal: nat,
    action: Action,
    performed: Performed,
)
    requires
        crate::session::performed_rightly(before, after, queue, signal, action@, performed),
    ensures
        match action {
            Action::Tell(message) => one_frame(
                before,
                after,
                queue,
                FrameView::Text(crate::message::server_json(message@)),
                performed,
            ),
            Action::Heartbeat => one_frame(before, after, queue, FrameView::Ping, performed),
            Action::Answer(bytes) => one_frame(
                before,
                after,
                queue,
                FrameView::Pong(bytes@),
                performed,
            ),
            _ => true,
        },
{
    assert(after.history().len() == before.history().len() + 1 ==> after.history().drop_last()
        =~= after.history().take(before.history().len() as int));
    match action {
        Action::Expire(_) => {},
        Action::Register(_) => {},
        _ => {
            assert(after.history().drop_last() =~= before.history());
        },
    }
}

/// Setting the timer hands nothing out and moves no connection: the timer runs
/// for the seconds between what the clock showed and the expiry of the token,
/// and not at all where the token has expired. A time that `usize` cannot hold
/// counts as the epoch.
pub proof fn law_timers_run_until_the_expiry(
    before: WsState,
    after: WsState,
    queue: nat,
    signal: nat,
    identity: AuthIdentity,
    performed: Performed,
)
    requires
        crate::session::performed_rightly(
            before,
            after,
            queue,
            signal,
            Action::Expire(identity)@,
            performed,
        ),
    ensures
        after.connections() == before.connections(),
        after.history() == before.history(),
        performed is Timer,
        exists|reading: crate::clock::Reading|
            runs_until(performed->Timer_0.nanos as nat, identity, #[trigger] reading.seconds()),
{
    let duration = performed->Timer_0;
    let reading = choose|reading: crate::clock::Reading|
        crate::token::is_reading(reading.seconds()) && duration.nanos
            == #[trigger] crate::token::seconds_left(identity, reading.seconds())
            * crate::clock::NANOS_PER_SECOND;
    assert(runs_until(duration.nanos as nat, identity, reading.seconds()));
}

/// A number of nanoseconds leads from a time to the expiry of a token.
pub open spec fn runs_until(nanos: nat, identity: AuthIdentity, now: i64) -> bool {
    &&& now >= 0
    &&& now > usize::MAX ==> nanos == identity.expires_at * 1_000_000_000
    &&& now <= usize::MAX && now >= identity.expires_at ==> nanos == 0
    &&& now <= usize::MAX && now < identity.expires_at ==> nanos == (identity.expires_at - now)
        * 1_000_000_000
}

/// Counting a connection for a user confirms the user to its queue first; where
/// the user had no connection before, everything handed out after that is the
/// announcement that the user is online, and otherwise nothing is.
pub proof fn law_counting_confirms_the_user(
    before: WsState,
    after: WsState,
    queue: nat,
    signal: nat,
    user_id: i32,
    performed: Performed,
    i: int,
)
    requires
        crate::session::performed_rightly(
            before,
            after,
            queue,
            signal,
            Action::Register(user_id)@,
            performed,
        ),
    ensures
        after.history().len() > before.history().len(),
        before.history() == after.history().take(before.history().len() as int),
        after.history()[before.history().len() as int] == Offer::Frame(
            queue,
            FrameView::Text(
                "{\"type\":\"auth_ok\",\"user_id\":"@ + crate::text::signed_decimal(user_id as int)
                    + seq!['}'],
            ),
        ),
        before.connections().contains_key(user_id) && before.connections()[user_id].len() > 0
            ==> after.history().len() == before.history().len() + 1,
        before.history().len() < i < after.history().len() ==> crate::ws_laws::is_text_offer(
            after.history()[i],
            "{\"type\":\"user_online\",\"user_id\":"@ + crate::text::signed_decimal(user_id as int)
                + seq!['}'],
        ),
{
    let arrival = performed->Registered_0;
    assert(crate::ws::arrived(before, after, user_id, queue, signal, arrival));
    crate::message_laws::law_confirmations_name_the_user(user_id, user_id);
    crate::message_laws::law_online_names_the_user(user_id, user_id);
    let first = before.history().push(arrival.confirmation.offer());
    assert(after.history()[before.history().len() as int] == first[before.history().len() as int]);
    assert(before.history() =~= after.history().take(before.history().len() as int));
    if before.history().len() < i < after.history().len() {
        crate::ws_laws::law_confirmations_precede_announcements(
            before,
            after,
            user_id,
            queue,
            signal,
            arrival,
            i,
        );
    }
}

/// A connection may queue sixty-four frames and send messages of sixty-four
/// kibibytes; a client has ten seconds to authenticate, gets a heartbeat every
/// thirty, and its queue has a second to drain.
pub proof fn law_connections_have_their_limits()
    ensures
        crate::session::OUTBOUND_QUEUE_CAPACITY == 64,
        crate::session::MAX_WEBSOCKET_MESSAGE_SIZE == 64 * 1024,
        crate::session::AUTH_TIMEOUT_SECONDS == 10,
        crate::session::HEARTBEAT_INTERVAL_SECONDS == 30,
        crate::session::HEARTBEAT_TIMEOUT_SECONDS == 90,
        crate::session::FLUSH_TIMEOUT_SECONDS == 1,
{
}

} // verus!
