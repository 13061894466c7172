//! The life of a WebSocket connection: what is answered to each event, and
//! when the connection is closed.
use crate::clock::Duration;
use crate::clock::Instant;
use crate::message::parse_application_message;
use crate::message::ClientMessage;
use crate::message::ServerMessage;
use crate::message::AUTH_MUST_BE_FIRST;
use crate::receipt::Delivery;
use crate::outbound::Frame;
use crate::token::identity_from_token;
use crate::token::remaining_token_lifetime;
use crate::token::AuthIdentity;
use crate::ws::enqueue_frame;
use crate::ws::enqueue_server_message;
use crate::ws::register_authenticated_connection;
use crate::ws::unregister_authenticated_connection;
use crate::ws::Arrival;
use crate::ws::Fanout;
use crate::ws::WsState;
use tokio::sync::mpsc;
use tokio::sync::watch;
use vstd::prelude::*;

verus! {

/// How many frames the outbound queue of a connection holds.
pub const OUTBOUND_QUEUE_CAPACITY: usize = 64;

/// The longest message, in bytes, that a client may send.
pub const MAX_WEBSOCKET_MESSAGE_SIZE: usize = 65_536;

/// How many seconds a client has to authenticate.
pub const AUTH_TIMEOUT_SECONDS: u64 = 10;

/// How many seconds lie between two heartbeats.
pub const HEARTBEAT_INTERVAL_SECONDS: u64 = 30;

/// After how many seconds of silence a client is given up.
pub const HEARTBEAT_TIMEOUT_SECONDS: u64 = 90;

/// How many seconds the queue has to drain after the end.
pub const FLUSH_TIMEOUT_SECONDS: u64 = 1;

/// Why a client that does not authenticate in time is refused.
pub const AUTH_TIMED_OUT: &'static str = "Authentication timed out";

/// Why a client is refused once its token has expired.
pub const TOKEN_EXPIRED: &'static str = "Token expired";

/// Why a client with a bad token is refused.
pub const INVALID_TOKEN: &'static str = "Invalid token";

/// The state of a connection.
#[derive(Clone, Copy, Debug, PartialEq, Eq, Structural)]
pub struct Session {
    /// The user, once known.
    pub user_id: Option<i32>,
    /// The next text may repeat the authentication of the upgrade.
    pub accepts_repeat: bool,
    /// When the client last gave a sign of life.
    pub last_heartbeat: Instant,
}

/// What can happen to a connection.
pub enum Event {
    /// The time to authenticate is over.
    AuthDeadline,
    /// The token has expired.
    TokenExpiry,
    /// The server wants the connection closed, or nobody holds its signal.
    DisconnectRequested,
    /// A text came: the message in it, where it is one, and who its token
    /// names, where it is an authentication with a token that is accepted.
    Text(Option<ClientMessage>, Option<AuthIdentity>),
    /// Bytes came.
    Binary,
    /// A heartbeat of the client came.
    Ping(Vec<u8>),
    /// The answer to a heartbeat came.
    Pong,
    /// The client closed the connection.
    Closed,
    /// The connection failed.
    Failed,
    /// A heartbeat is due.
    Heartbeat,
}

/// What is done in answer to an event.
pub enum Action {
    /// Send a message.
    Tell(ServerMessage),
    /// Send a heartbeat.
    Heartbeat,
    /// Answer a heartbeat of the client.
    Answer(Vec<u8>),
    /// Set the timer to the expiry of a token.
    Expire(AuthIdentity),
    /// Count the connection for a user.
    Register(i32),
}

/// What an action says.
#[verifier::ext_equal]
pub enum ActionView {
    Tell(crate::message::ServerMessageView),
    Heartbeat,
    Answer(Seq<u8>),
    Expire(AuthIdentity),
    Register(i32),
}

impl View for Action {
    type V = ActionView;

    open spec fn view(&self) -> ActionView {
        match self {
            Action::Tell(message) => ActionView::Tell(message@),
            Action::Heartbeat => ActionView::Heartbeat,
            Action::Answer(bytes) => ActionView::Answer(bytes@),
            Action::Expire(identity) => ActionView::Expire(*identity),
            Action::Register(user_id) => ActionView::Register(*user_id),
        }
    }
}

/// The answer to an event: actions in order, and whether the connection is
/// closed after them.
pub struct Reply {
    pub actions: Vec<Action>,
    pub closes: bool,
}

/// The actions of a row.
pub open spec fn action_views(actions: Seq<Action>) -> Seq<ActionView> {
    Seq::new(actions.len(), |i: int| actions[i]@)
}

/// What an event does to a connection.
#[verifier::ext_equal]
pub struct Reaction {
    pub session: Session,
    pub actions: Seq<ActionView>,
    pub closes: bool,
}

/// The connection stays as it is.
pub open spec fn unmoved(session: Session) -> Reaction {
    Reaction { session, actions: Seq::empty(), closes: false }
}

/// The client is told a reason, and the connection is closed.
pub open spec fn refused(session: Session, reason: Seq<char>) -> Reaction {
    Reaction {
        session,
        actions: seq![
            ActionView::Tell(crate::message::ServerMessageView::AuthError { reason }),
        ],
        closes: true,
    }
}

/// The connection is closed without a word.
pub open spec fn dropped(session: Session) -> Reaction {
    Reaction { session, actions: Seq::empty(), closes: true }
}

/// A text repeats the authentication of the connection: it is an
/// authentication whose token names the same user.
pub open spec fn repeats_authentication(
    session: Session,
    message: Option<ClientMessage>,
    identity: Option<AuthIdentity>,
) -> bool {
    &&& message matches Some(ClientMessage::Auth { .. })
    &&& identity matches Some(named) && session.user_id == Some(named.user_id)
}

/// What a text does to a connection that is past the repeated authentication.
pub open spec fn reaction_to_message(
    session: Session,
    message: Option<ClientMessage>,
    identity: Option<AuthIdentity>,
    now: Instant,
) -> Reaction {
    match crate::message::refusal(message, session.user_id is Some) {
        Some(reason) => refused(session, reason),
        None => match message {
            Some(ClientMessage::Auth { .. }) => match identity {
                Some(named) => Reaction {
                    session: Session { user_id: Some(named.user_id), ..session },
                    actions: seq![ActionView::Expire(named), ActionView::Register(named.user_id)],
                    closes: false,
                },
                None => refused(session, INVALID_TOKEN@),
            },
            Some(ClientMessage::Ping) => Reaction {
                session: Session { last_heartbeat: now, ..session },
                actions: seq![ActionView::Tell(crate::message::ServerMessageView::Pong)],
                closes: false,
            },
            Some(ClientMessage::Subscribe { channel }) => Reaction {
                session,
                actions: seq![
                    ActionView::Tell(
                        crate::message::ServerMessageView::Subscribed { channel: channel@ },
                    ),
                ],
                closes: false,
            },
            _ => unmoved(session),
        },
    }
}

/// What an event at `now` does to a connection. A deadline counts only for a
/// client that has not authenticated, an expiry only for one that has.
pub open spec fn reaction(session: Session, event: Event, now: Instant) -> Reaction {
    match event {
        Event::AuthDeadline => if session.user_id is None {
            refused(session, AUTH_TIMED_OUT@)
        } else {
            unmoved(session)
        },
        Event::TokenExpiry => if session.user_id is Some {
            refused(session, TOKEN_EXPIRED@)
        } else {
            unmoved(session)
        },
        Event::DisconnectRequested | Event::Closed | Event::Failed => dropped(session),
        Event::Text(message, identity) => {
            let later = Session { accepts_repeat: false, ..session };
            if session.accepts_repeat && repeats_authentication(session, message, identity) {
                Reaction {
                    session: later,
                    actions: seq![ActionView::Expire(identity->0)],
                    closes: false,
                }
            } else {
                reaction_to_message(later, message, identity, now)
            }
        },
        Event::Binary => if session.user_id is None {
            refused(session, AUTH_MUST_BE_FIRST@)
        } else {
            unmoved(session)
        },
        Event::Ping(bytes) => Reaction {
            session: Session { last_heartbeat: now, ..session },
            actions: seq![ActionView::Answer(bytes@)],
            closes: false,
        },
        Event::Pong => unmoved(Session { last_heartbeat: now, ..session }),
        Event::Heartbeat => if crate::clock::elapsed(now, session.last_heartbeat)
            > HEARTBEAT_TIMEOUT_SECONDS * crate::clock::NANOS_PER_SECOND {
            dropped(session)
        } else {
            Reaction { session, actions: seq![ActionView::Heartbeat], closes: false }
        },
    }
}

impl Reply {
    /// The answer is that of a reaction.
    pub open spec fn fits(&self, expected: Reaction) -> bool {
        action_views(self.actions@) == expected.actions && self.closes == expected.closes
    }

    fn silent(closes: bool) -> (r: Reply)
        ensures
            action_views(r.actions@) == Seq::<ActionView>::empty(),
            r.closes == closes,
    {
        let reply = Reply { actions: Vec::new(), closes };
        assert(action_views(reply.actions@) =~= Seq::empty());
        reply
    }

    fn with(action: Action, closes: bool) -> (r: Reply)
        ensures
            action_views(r.actions@) == seq![action@],
            r.closes == closes,
    {
        let mut actions: Vec<Action> = Vec::new();
        let ghost view = action@;
        actions.push(action);
        assert(action_views(actions@) =~= seq![view]);
        Reply { actions, closes }
    }

    fn refusing(reason: &str) -> (r: Reply)
        ensures
            action_views(r.actions@) == seq![
                ActionView::Tell(
                    crate::message::ServerMessageView::AuthError { reason: reason@ },
                ),
            ],
            r.closes,
    {
        Reply::with(Action::Tell(ServerMessage::AuthError { reason: reason.to_owned() }), true)
    }
}

/// The identity, where it is that of the user.
pub open spec fn same_user(identity: Option<AuthIdentity>, user_id: Option<i32>) -> Option<
    AuthIdentity,
> {
    match identity {
        Some(named) => if user_id == Some(named.user_id) {
            Some(named)
        } else {
            None
        },
        None => None,
    }
}

/// The identity, where it is that of the user.
pub fn identity_of_user(identity: Option<AuthIdentity>, user_id: Option<i32>) -> (r: Option<
    AuthIdentity,
>)
    ensures
        r == same_user(identity, user_id),
{
    match (identity, user_id) {
        (Some(named), Some(user)) => if named.user_id == user {
            Some(named)
        } else {
            None
        },
        _ => None,
    }
}

/// Who a message names as long as its token has not expired: the holder of
/// the token, where the message is an authentication.
pub open spec fn named_in(message: Option<ClientMessage>, secret: Seq<char>) -> Option<
    AuthIdentity,
> {
    match message {
        Some(ClientMessage::Auth { token }) => crate::token::token_identity(token@, secret),
        _ => None,
    }
}

/// Who a message names: the holder of its token, where the message is an
/// authentication and the token is accepted now.
pub fn identity_in_message(message: &Option<ClientMessage>, configured_secret: Option<&str>) -> (r:
    Option<AuthIdentity>)
    ensures
        crate::token::recognised(
            named_in(
                *message,
                crate::token::signing_secret(crate::text::optional_text(configured_secret)),
            ),
            r,
        ),
{
    match message {
        Some(ClientMessage::Auth { token }) => identity_from_token(
            token.as_str(),
            configured_secret,
        ),
        _ => None,
    }
}

/// Who a repeated authentication names, where the message is one for the same
/// user and its token is accepted now.
pub fn compatible_redundant_identity(
    message: &Option<ClientMessage>,
    user_id: Option<i32>,
    configured_secret: Option<&str>,
) -> (r: Option<AuthIdentity>)
    ensures
        crate::token::recognised(
            same_user(
                named_in(
                    *message,
                    crate::token::signing_secret(crate::text::optional_text(configured_secret)),
                ),
                user_id,
            ),
            r,
        ),
{
    identity_of_user(identity_in_message(message, configured_secret), user_id)
}

impl Session {
    /// Only a connection with a known user accepts a repeated authentication.
    pub open spec fn wf(self) -> bool {
        self.accepts_repeat ==> self.user_id is Some
    }

    /// A new connection; `initial` is who the headers of the upgrade name.
    pub open spec fn opened(initial: Option<AuthIdentity>, now: Instant) -> Reaction {
        match initial {
            Some(identity) => Reaction {
                session: Session {
                    user_id: Some(identity.user_id),
                    accepts_repeat: true,
                    last_heartbeat: now,
                },
                actions: seq![ActionView::Register(identity.user_id)],
                closes: false,
            },
            None => Reaction {
                session: Session { user_id: None, accepts_repeat: false, last_heartbeat: now },
                actions: Seq::empty(),
                closes: false,
            },
        }
    }

    /// Opens a connection.
    pub fn open(initial: Option<AuthIdentity>, now: Instant) -> (r: (Session, Reply))
        ensures
            r.0 == Session::opened(initial, now).session,
            r.1.fits(Session::opened(initial, now)),
            r.0.wf(),
    {
        match initial {
            Some(identity) => (
                Session {
                    user_id: Some(identity.user_id),
                    accepts_repeat: true,
                    last_heartbeat: now,
                },
                Reply::with(Action::Register(identity.user_id), false),
            ),
            None => (
                Session { user_id: None, accepts_repeat: false, last_heartbeat: now },
                Reply::silent(false),
            ),
        }
    }

    /// Whether the client has authenticated.
    pub fn is_authenticated(&self) -> (r: bool)
        ensures
            r == self.user_id is Some,
    {
        self.user_id.is_some()
    }

    /// The answer to an event at `now`.
    pub fn on_event(&mut self, event: Event, now: Instant) -> (r: Reply)
        ensures
            old(self).wf() ==> final(self).wf(),
            *final(self) == reaction(*old(self), event, now).session,
            r.fits(reaction(*old(self), event, now)),
    {
        match event {
            Event::AuthDeadline => if self.user_id.is_none() {
                Reply::refusing(AUTH_TIMED_OUT)
            } else {
                Reply::silent(false)
            },
            Event::TokenExpiry => if self.user_id.is_some() {
                Reply::refusing(TOKEN_EXPIRED)
            } else {
                Reply::silent(false)
            },
            Event::DisconnectRequested => Reply::silent(true),
            Event::Closed => Reply::silent(true),
            Event::Failed => Reply::silent(true),
            Event::Text(message, identity) => {
                if self.accepts_repeat {
                    self.accepts_repeat = false;
                    let repeated: bool = match &message {
                        Some(ClientMessage::Auth { .. }) => true,
                        _ => false,
                    };
                    if repeated {
                        match identity_of_user(identity, self.user_id) {
                            Some(named) => {
                                return Reply::with(Action::Expire(named), false);
                            },
                            None => {},
                        }
                    }
                }
                self.on_message(message, identity, now)
            },
            Event::Binary => if self.user_id.is_none() {
                Reply::refusing(AUTH_MUST_BE_FIRST)
            } else {
                Reply::silent(false)
            },
            Event::Ping(bytes) => {
                self.last_heartbeat = now;
                Reply::with(Action::Answer(bytes), false)
            },
            Event::Pong => {
                self.last_heartbeat = now;
                Reply::silent(false)
            },
            Event::Heartbeat => {
                let silence: Duration = now.saturating_duration_since(self.last_heartbeat);
                let timeout: Duration = Duration::from_secs(HEARTBEAT_TIMEOUT_SECONDS);
                if silence.nanos > timeout.nanos {
                    Reply::silent(true)
                } else {
                    Reply::with(Action::Heartbeat, false)
                }
            },
        }
    }

    fn on_message(
        &mut self,
        message: Option<ClientMessage>,
        identity: Option<AuthIdentity>,
        now: Instant,
    ) -> (r: Reply)
        requires
            old(self).wf(),
            !old(self).accepts_repeat,
        ensures
            final(self).wf(),
            *final(self) == reaction_to_message(*old(self), message, identity, now).session,
            r.fits(reaction_to_message(*old(self), message, identity, now)),
    {
        match parse_application_message(message, self.user_id.is_some()) {
            Ok(ClientMessage::Auth { token: _ }) => match identity {
                Some(named) => {
                    self.user_id = Some(named.user_id);
                    let mut actions: Vec<Action> = Vec::new();
                    actions.push(Action::Expire(named));
                    actions.push(Action::Register(named.user_id));
                    assert(action_views(actions@) =~= seq![
                        ActionView::Expire(named),
                        ActionView::Register(named.user_id),
                    ]);
                    Reply { actions, closes: false }
                },
                None => Reply::refusing(INVALID_TOKEN),
            },
            Ok(ClientMessage::Ping) => {
                self.last_heartbeat = now;
                Reply::with(Action::Tell(ServerMessage::Pong), false)
            },
            Ok(ClientMessage::Subscribe { channel }) => Reply::with(
                Action::Tell(ServerMessage::Subscribed { channel }),
                false,
            ),
            Ok(ClientMessage::Unsubscribe { channel: _ }) => Reply::silent(false),
            Err(reason) => Reply::refusing(reason),
        }
    }

    /// The answer to a text at `now`: the message in it, where it is one.
    pub fn on_text(
        &mut self,
        message: Option<ClientMessage>,
        configured_secret: Option<&str>,
        now: Instant,
    ) -> (r: Reply)
        ensures
            old(self).wf() ==> final(self).wf(),
            exists|identity: Option<AuthIdentity>|
                #![trigger reaction(*old(self), Event::Text(message, identity), now)]
                crate::token::recognised(
                    named_in(
                        message,
                        crate::token::signing_secret(crate::text::optional_text(configured_secret)),
                    ),
                    identity,
                ) && *final(self) == reaction(
                    *old(self),
                    Event::Text(message, identity),
                    now,
                ).session && r.fits(reaction(*old(self), Event::Text(message, identity), now)),
    {
        let identity: Option<AuthIdentity> = identity_in_message(&message, configured_secret);
        self.on_event(Event::Text(message, identity), now)
    }
}

/// How long the expiry timer of a new connection runs: as long as the token of
/// the upgrade is valid, or as long as the client has to authenticate.
pub fn first_expiry(initial: Option<AuthIdentity>) -> (r: Duration)
    ensures
        match initial {
            Some(identity) => crate::token::lifetime_of(r, identity),
            None => r.nanos == AUTH_TIMEOUT_SECONDS * crate::clock::NANOS_PER_SECOND,
        },
{
    match initial {
        Some(identity) => remaining_token_lifetime(identity),
        None => Duration::from_secs(AUTH_TIMEOUT_SECONDS),
    }
}

/// What came of an action.
pub enum Performed {
    /// A frame was offered to the queue.
    Offered(Delivery),
    /// The connection was counted.
    Registered(Arrival),
    /// The expiry timer is to run this long from now.
    Timer(Duration),
}

/// A frame was offered to a queue: the connections stay as they are, and
/// nothing else was added to the history.
pub open spec fn only_offered(
    before: WsState,
    after: WsState,
    queue: nat,
    frame: crate::outbound::FrameView,
    performed: Performed,
) -> bool {
    &&& after.connections() == before.connections()
    &&& after.history() == before.history().push(crate::receipt::Offer::Frame(queue, frame))
    &&& performed matches Performed::Offered(delivery)
    &&& delivery.to() == queue
    &&& delivery.content() == frame
}

/// What an action comes to at a connection with a queue and a signal.
pub open spec fn performed_rightly(
    before: WsState,
    after: WsState,
    queue: nat,
    signal: nat,
    action: ActionView,
    performed: Performed,
) -> bool {
    match action {
        ActionView::Tell(message) => only_offered(
            before,
            after,
            queue,
            crate::outbound::FrameView::Text(crate::message::server_json(message)),
            performed,
        ),
        ActionView::Heartbeat => only_offered(
            before,
            after,
            queue,
            crate::outbound::FrameView::Ping,
            performed,
        ),
        ActionView::Answer(bytes) => only_offered(
            before,
            after,
            queue,
            crate::outbound::FrameView::Pong(bytes),
            performed,
        ),
        ActionView::Expire(identity) => after.connections() == before.connections()
            && after.history() == before.history() && (performed matches Performed::Timer(duration)
            && crate::token::lifetime_of(duration, identity)),
        ActionView::Register(user_id) => performed matches Performed::Registered(arrival)
            && crate::ws::arrived(before, after, user_id, queue, signal, arrival),
    }
}

/// Performs an action at a connection.
pub fn perform(
    ws_state: &mut WsState,
    sender: &mpsc::Sender<Frame>,
    disconnect: &watch::Sender<bool>,
    action: Action,
) -> (r: Performed)
    ensures
        performed_rightly(
            *old(ws_state),
            *final(ws_state),
            crate::outbound::queue_of(*sender),
            crate::outbound::signal_of(*disconnect),
            action@,
            r,
        ),
{
    match action {
        Action::Tell(message) => Performed::Offered(
            enqueue_server_message(ws_state, sender, &message),
        ),
        Action::Heartbeat => Performed::Offered(enqueue_frame(ws_state, sender, Frame::Ping)),
        Action::Answer(bytes) => Performed::Offered(
            enqueue_frame(ws_state, sender, Frame::Pong(bytes)),
        ),
        Action::Expire(identity) => {
            let left: Duration = remaining_token_lifetime(identity);
            Performed::Timer(left)
        },
        Action::Register(user_id) => Performed::Registered(
            register_authenticated_connection(ws_state, sender, disconnect, user_id),
        ),
    }
}

/// Ends a connection, and gives the receipts for the announcement where its
/// user has gone offline.
pub fn finish(ws_state: &mut WsState, sender: &mpsc::Sender<Frame>, session: &Session) -> (r:
    Option<Vec<Fanout>>)
    ensures
        match session.user_id {
            Some(user_id) => crate::ws::departed(
                *old(ws_state),
                *final(ws_state),
                user_id,
                crate::outbound::queue_of(*sender),
                r,
            ),
            None => r is None && final(ws_state).connections() == old(ws_state).connections()
                && final(ws_state).history() == old(ws_state).history(),
        },
{
    match session.user_id {
        Some(user_id) => unregister_authenticated_connection(ws_state, sender, user_id),
        None => None,
    }
}

} // verus!
