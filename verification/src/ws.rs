//! Who is connected: the connections of each user, messages to them, and the
//! announcements when a user comes online or goes offline.
use crate::message::ServerMessage;
use crate::outbound::clone_sender;
use crate::outbound::clone_signal;
use crate::outbound::enqueue;
use crate::outbound::request_disconnect;
use crate::outbound::same_queue;
use crate::receipt::Delivery;
use crate::outbound::Frame;
use crate::receipt::History;
use crate::receipt::Signal;
use crate::presence::has;
use crate::presence::new_map;
use crate::presence::put;
use crate::presence::take;
use crate::presence::users;
use crate::presence::WsConnection;
use dashmap::DashMap;
use tokio::sync::mpsc;
use tokio::sync::watch;
use vstd::prelude::*;

verus! {

/// The connections of all users who are connected, and what was handed to
/// connections.
pub struct WsState {
    connections: DashMap<i32, Vec<WsConnection>>,
    history: History,
}

/// The receipts for a text that was offered to the connections of one user.
pub struct Fanout {
    pub user_id: i32,
    pub deliveries: Vec<Delivery>,
}

/// What came of connecting a user: the receipt for the confirmation and, where
/// the user came online, those for the announcement.
pub struct Arrival {
    pub confirmation: Delivery,
    pub announcement: Option<Vec<Fanout>>,
}

/// What came of disconnecting a user: the signals to the connections and the
/// receipts for the announcement.
pub struct Departure {
    pub signals: Vec<Signal>,
    pub announcement: Vec<Fanout>,
}

// ---------------------------------------------------------------------------
// What the operations do to the connections.
// ---------------------------------------------------------------------------
/// The connections of one user; none where the user has no entry.
pub open spec fn connections_of(
    connections: Map<i32, Seq<(nat, nat)>>,
    user_id: i32,
) -> Seq<(nat, nat)> {
    if connections.contains_key(user_id) {
        connections[user_id]
    } else {
        Seq::empty()
    }
}

/// The connections after a user has one more.
pub open spec fn joined(
    connections: Map<i32, Seq<(nat, nat)>>,
    user_id: i32,
    queue: nat,
    signal: nat,
) -> Map<i32, Seq<(nat, nat)>> {
    connections.insert(user_id, connections_of(connections, user_id).push((queue, signal)))
}

/// The connections that do not use a queue.
pub open spec fn other_than(queue: nat) -> spec_fn((nat, nat)) -> bool {
    |connection: (nat, nat)| connection.0 != queue
}

/// The connections in a row that do not use a queue.
pub open spec fn without_queue(row: Seq<(nat, nat)>, queue: nat) -> Seq<(nat, nat)> {
    row.filter(other_than(queue))
}

/// A user who gives up the connections with a queue has none left.
pub open spec fn leaves(
    connections: Map<i32, Seq<(nat, nat)>>,
    user_id: i32,
    queue: nat,
) -> bool {
    connections.contains_key(user_id) && without_queue(connections[user_id], queue).len() == 0
}

/// The connections after a user has given up those with a queue; a user with
/// none left has no entry.
pub open spec fn left(
    connections: Map<i32, Seq<(nat, nat)>>,
    user_id: i32,
    queue: nat,
) -> Map<i32, Seq<(nat, nat)>> {
    if !connections.contains_key(user_id) {
        connections
    } else if leaves(connections, user_id, queue) {
        connections.remove(user_id)
    } else {
        connections.insert(user_id, without_queue(connections[user_id], queue))
    }
}

/// A text was offered to each of a row of connections, in order.
pub open spec fn offered(
    deliveries: Seq<Delivery>,
    to: Seq<(nat, nat)>,
    text: Seq<char>,
) -> bool {
    &&& deliveries.len() == to.len()
    &&& forall|i: int|
        0 <= i < to.len() ==> (#[trigger] deliveries[i]).to() == to[i].0 && deliveries[i].content()
            == crate::outbound::FrameView::Text(text)
}

/// The connections in a row that keep their place after a delivery to each:
/// those whose queue still has a receiver.
pub open spec fn kept(row: Seq<(nat, nat)>, deliveries: Seq<Delivery>) -> Seq<(nat, nat)>
    decreases row.len(),
{
    if row.len() == 0 || deliveries.len() != row.len() {
        Seq::empty()
    } else {
        let before = kept(row.drop_last(), deliveries.drop_last());
        if deliveries.last().result().keeps() {
            before.push(row.last())
        } else {
            before
        }
    }
}

/// The connections after a delivery to each of one user's: those whose queue
/// has no receiver lost their place, and the user keeps the entry, even where
/// it holds no connection any more.
pub open spec fn after_delivery(
    connections: Map<i32, Seq<(nat, nat)>>,
    user_id: i32,
    deliveries: Seq<Delivery>,
) -> Map<i32, Seq<(nat, nat)>> {
    if connections.contains_key(user_id) {
        connections.insert(user_id, kept(connections[user_id], deliveries))
    } else {
        connections
    }
}

/// The fanout of one user.
pub open spec fn serves(fanout: Fanout, user_id: i32) -> bool {
    fanout.user_id == user_id
}

/// A text was offered once to every connection of every user, in the order of
/// each user's connections, and those whose queue has no receiver lost their
/// place. Users keep their entry, even where it holds no connection any more.
pub open spec fn broadcast_done(
    before: Map<i32, Seq<(nat, nat)>>,
    after: Map<i32, Seq<(nat, nat)>>,
    fanouts: Seq<Fanout>,
    text: Seq<char>,
) -> bool {
    &&& after.dom() == before.dom()
    &&& forall|i: int, j: int|
        0 <= i < j < fanouts.len() ==> (#[trigger] fanouts[i]).user_id != (
        #[trigger] fanouts[j]).user_id
    &&& forall|user_id: i32| #[trigger]
        before.contains_key(user_id) ==> exists|i: int|
            0 <= i < fanouts.len() && #[trigger] serves(fanouts[i], user_id)
    &&& forall|i: int|
        0 <= i < fanouts.len() ==> before.contains_key((#[trigger] fanouts[i]).user_id) && offered(
            fanouts[i].deliveries@,
            before[fanouts[i].user_id],
            text,
        ) && after[fanouts[i].user_id] == kept(
            before[fanouts[i].user_id],
            fanouts[i].deliveries@,
        )
}

/// What was handed out in a row of deliveries.
pub open spec fn offers(deliveries: Seq<Delivery>) -> Seq<crate::receipt::Offer> {
    Seq::new(deliveries.len(), |i: int| deliveries[i].offer())
}

/// What was handed out in a row of fanouts.
pub open spec fn all_offers(fanouts: Seq<Fanout>) -> Seq<crate::receipt::Offer>
    decreases fanouts.len(),
{
    if fanouts.len() == 0 {
        Seq::empty()
    } else {
        all_offers(fanouts.drop_last()) + offers(fanouts.last().deliveries@)
    }
}

/// What was handed out in a row of signals.
pub open spec fn signal_offers(signals: Seq<Signal>) -> Seq<crate::receipt::Offer> {
    Seq::new(signals.len(), |i: int| signals[i].offer())
}

/// What was handed out in an announcement, where there was one.
pub open spec fn announced_offers(announcement: Option<Vec<Fanout>>) -> Seq<
    crate::receipt::Offer,
> {
    match announcement {
        Some(fanouts) => all_offers(fanouts@),
        None => Seq::empty(),
    }
}

/// Every connection in a row was told to close, in order.
pub open spec fn all_signalled(signals: Seq<Signal>, row: Seq<(nat, nat)>) -> bool {
    &&& signals.len() == row.len()
    &&& forall|i: int|
        0 <= i < row.len() ==> (#[trigger] signals[i]).to() == row[i].1 && signals[i].content()
}

/// The announcement that a user has come online.
pub open spec fn online_text(user_id: i32) -> Seq<char> {
    crate::message::server_json(crate::message::ServerMessageView::UserOnline { user_id })
}

/// The announcement that a user has gone offline.
pub open spec fn offline_text(user_id: i32) -> Seq<char> {
    crate::message::server_json(crate::message::ServerMessageView::UserOffline { user_id })
}

/// The confirmation to a connection that its user is known.
pub open spec fn confirmation_text(user_id: i32) -> Seq<char> {
    crate::message::server_json(crate::message::ServerMessageView::AuthOk { user_id })
}

// ---------------------------------------------------------------------------
// Operations.
// ---------------------------------------------------------------------------
fn deliver(history: &mut History, connections: Vec<WsConnection>, text: &str) -> (r: (
    Vec<Delivery>,
    Vec<WsConnection>,
))
    ensures
        final(history)@ == old(history)@ + offers(r.0@),
        offered(r.0@, crate::presence::connection_views(connections@), text@),
        crate::presence::connection_views(r.1@) == kept(
            crate::presence::connection_views(connections@),
            r.0@,
        ),
{
    let mut deliveries: Vec<Delivery> = Vec::new();
    let mut staying: Vec<WsConnection> = Vec::new();
    let ghost row = crate::presence::connection_views(connections@);
    assert(crate::presence::connection_views(staying@) =~= kept(row.take(0), deliveries@));
    for connection in it: connections
        invariant
            it.seq() == connections@,
            row == crate::presence::connection_views(connections@),
            deliveries@.len() == it.index(),
            history@ == old(history)@ + offers(deliveries@),
            offered(deliveries@, row.take(it.index()), text@),
            crate::presence::connection_views(staying@) == kept(row.take(it.index()), deliveries@),
    {
        let delivery: Delivery = enqueue(
            history,
            &connection.sender,
            Frame::Text(text.to_owned()),
        );
        let ghost offer = delivery.offer();
        let ghost before = deliveries@;
        let ghost front = crate::presence::connection_views(staying@);
        let ghost view = connection@;
        let stays: bool = delivery.keeps_connection();
        deliveries.push(delivery);
        proof {
            assert(deliveries@.drop_last() =~= before);
            assert(offers(deliveries@) =~= offers(before).push(offer));
            assert(history@ =~= old(history)@ + offers(deliveries@));
            assert(row.take(it.index() + 1).drop_last() =~= row.take(it.index()));
            assert(row.take(it.index() + 1).last() == view);
        }
        if stays {
            staying.push(connection);
            assert(crate::presence::connection_views(staying@) =~= front.push(view));
        }
    }
    assert(row.take(row.len() as int) =~= row);
    (deliveries, staying)
}

impl WsState {
    /// The queue and the signal of each connection of each user, in order.
    pub closed spec fn connections(&self) -> Map<i32, Seq<(nat, nat)>> {
        crate::presence::registered(self.connections)
    }

    /// What was handed to connections, oldest first.
    pub closed spec fn history(&self) -> Seq<crate::receipt::Offer> {
        self.history@
    }

    /// Nobody is connected.
    pub fn new() -> (r: WsState)
        ensures
            r.connections() == Map::<i32, Seq<(nat, nat)>>::empty(),
            r.history() == Seq::<crate::receipt::Offer>::empty(),
    {
        let state = WsState { connections: new_map(), history: History::new() };
        assert(state.connections() =~= Map::empty());
        state
    }

    /// Whether a user has an entry.
    pub fn has_entry(&self, user_id: i32) -> (r: bool)
        ensures
            r == self.connections().contains_key(user_id),
    {
        has(&self.connections, user_id)
    }

    /// Gives a user one more connection, and says whether it is the only one.
    pub fn register(
        &mut self,
        user_id: i32,
        sender: mpsc::Sender<Frame>,
        disconnect: watch::Sender<bool>,
    ) -> (r: bool)
        ensures
            final(self).connections() == joined(
                old(self).connections(),
                user_id,
                crate::outbound::queue_of(sender),
                crate::outbound::signal_of(disconnect),
            ),
            r == (connections_of(old(self).connections(), user_id).len() == 0),
            final(self).history() == old(self).history(),
    {
        let mut connections: Vec<WsConnection> = match take(&mut self.connections, user_id) {
            Some(connections) => connections,
            None => Vec::new(),
        };
        let ghost before = connections_of(old(self).connections(), user_id);
        assert(crate::presence::connection_views(connections@) =~= before);
        let was_offline: bool = connections.is_empty();
        let connection = WsConnection { sender, disconnect };
        let ghost view = connection@;
        connections.push(connection);
        assert(crate::presence::connection_views(connections@) =~= before.push(view));
        put(&mut self.connections, user_id, connections);
        assert(self.connections() =~= joined(old(self).connections(), user_id, view.0, view.1));
        was_offline
    }

    /// Takes the connections with a queue from a user, and says whether the
    /// user has none left and lost the entry.
    pub fn unregister(&mut self, user_id: i32, sender: &mpsc::Sender<Frame>) -> (r: bool)
        ensures
            final(self).connections() == left(
                old(self).connections(),
                user_id,
                crate::outbound::queue_of(*sender),
            ),
            r == leaves(
                old(self).connections(),
                user_id,
                crate::outbound::queue_of(*sender),
            ),
            final(self).history() == old(self).history(),
    {
        let ghost queue = crate::outbound::queue_of(*sender);
        match take(&mut self.connections, user_id) {
            None => {
                assert(self.connections() =~= old(self).connections());
                false
            },
            Some(connections) => {
                let ghost row = crate::presence::connection_views(connections@);
                let ghost other = other_than(queue);
                let mut staying: Vec<WsConnection> = Vec::new();
                assert(crate::presence::connection_views(staying@) =~= row.take(0).filter(other))
                    by {
                    reveal(Seq::filter);
                }
                for connection in it: connections
                    invariant
                        it.seq() == connections@,
                        row == crate::presence::connection_views(connections@),
                        queue == crate::outbound::queue_of(*sender),
                        other == other_than(queue),
                        crate::presence::connection_views(staying@) == row.take(
                            it.index(),
                        ).filter(other),
                {
                    let ghost view = connection@;
                    let ghost front = crate::presence::connection_views(staying@);
                    proof {
                        reveal(Seq::filter);
                        assert(row.take(it.index() + 1).drop_last() =~= row.take(it.index()));
                        assert(row.take(it.index() + 1).last() == view);
                    }
                    if !same_queue(&connection.sender, sender) {
                        assert(other(view));
                        staying.push(connection);
                        assert(crate::presence::connection_views(staying@) =~= front.push(view));
                    } else {
                        assert(!other(view));
                    }
                }
                assert(row.take(row.len() as int) =~= row);
                assert(crate::presence::connection_views(staying@) == without_queue(row, queue));
                if staying.is_empty() {
                    true
                } else {
                    put(&mut self.connections, user_id, staying);
                    assert(self.connections() =~= left(old(self).connections(), user_id, queue));
                    false
                }
            },
        }
    }

    /// Offers a text to every connection of a user. Connections whose queue has
    /// no receiver lose their place; a full queue only costs the text.
    pub fn send_to_user(&mut self, user_id: i32, json: &str) -> (r: Vec<Delivery>)
        ensures
            offered(r@, connections_of(old(self).connections(), user_id), json@),
            final(self).connections() == after_delivery(old(self).connections(), user_id, r@),
            final(self).history() == old(self).history() + offers(r@),
    {
        match take(&mut self.connections, user_id) {
            None => {
                assert(self.connections() =~= old(self).connections());
                let none: Vec<Delivery> = Vec::new();
                assert(self.history() =~= old(self).history() + offers(none@));
                none
            },
            Some(connections) => {
                let (deliveries, staying) = deliver(&mut self.history, connections, json);
                put(&mut self.connections, user_id, staying);
                assert(self.connections() =~= old(self).connections().insert(
                    user_id,
                    kept(old(self).connections()[user_id], deliveries@),
                ));
                deliveries
            },
        }
    }

    /// Offers a text to every connection of every user.
    pub fn broadcast(&mut self, json: &str) -> (r: Vec<Fanout>)
        ensures
            broadcast_done(old(self).connections(), final(self).connections(), r@, json@),
            final(self).history() == old(self).history() + all_offers(r@),
    {
        let everybody: Vec<i32> = users(&self.connections);
        let ghost before = self.connections();
        let mut fanouts: Vec<Fanout> = Vec::new();
        let mut i: usize = 0;
        assert(self.history() =~= old(self).history() + all_offers(fanouts@));
        while i < everybody.len()
            invariant
                i <= everybody@.len(),
                before == old(self).connections(),
                everybody@.no_duplicates(),
                forall|user_id: i32| #[trigger]
                    everybody@.contains(user_id) <==> before.contains_key(user_id),
                fanouts@.len() == i,
                self.history() == old(self).history() + all_offers(fanouts@),
                forall|j: int| 0 <= j < i ==> (#[trigger] fanouts@[j]).user_id == everybody@[j],
                self.connections().dom() == before.dom(),
                forall|j: int|
                    0 <= j < i ==> offered(
                        (#[trigger] fanouts@[j]).deliveries@,
                        before[fanouts@[j].user_id],
                        json@,
                    ) && self.connections()[fanouts@[j].user_id] == kept(
                        before[fanouts@[j].user_id],
                        fanouts@[j].deliveries@,
                    ),
                forall|j: int|
                    i <= j < everybody@.len() ==> self.connections()[#[trigger] everybody@[j]]
                        == before[everybody@[j]],
            decreases everybody@.len() - i,
        {
            let user_id: i32 = everybody[i];
            assert(everybody@.contains(user_id));
            let ghost earlier = fanouts@;
            let ghost current = self.connections();
            let deliveries: Vec<Delivery> = self.send_to_user(user_id, json);
            fanouts.push(Fanout { user_id, deliveries });
            proof {
                assert(fanouts@.drop_last() =~= earlier);
                assert(self.history() =~= old(self).history() + all_offers(fanouts@));
                assert(current.contains_key(user_id));
                assert(self.connections().dom() =~= before.dom());
                assert forall|j: int| 0 <= j < i + 1 implies offered(
                    (#[trigger] fanouts@[j]).deliveries@,
                    before[fanouts@[j].user_id],
                    json@,
                ) && self.connections()[fanouts@[j].user_id] == kept(
                    before[fanouts@[j].user_id],
                    fanouts@[j].deliveries@,
                ) by {
                    if j < i {
                        assert(fanouts@[j] == earlier[j]);
                        assert(everybody@[j] != everybody@[i as int]);
                    }
                }
            }
            i = i + 1;
        }
        proof {
            assert forall|user_id: i32| #[trigger] before.contains_key(user_id) implies exists|j: int|
                0 <= j < fanouts@.len() && #[trigger] serves(fanouts@[j], user_id) by {
                assert(everybody@.contains(user_id));
                let j = choose|j: int| 0 <= j < everybody@.len() && everybody@[j] == user_id;
                assert(serves(fanouts@[j], user_id));
            }
            assert forall|j: int| 0 <= j < fanouts@.len() implies before.contains_key(
                (#[trigger] fanouts@[j]).user_id,
            ) by {
                assert(everybody@.contains(everybody@[j]));
            }
        }
        fanouts
    }

    /// Ends all connections of a user: each is told to close, whatever is in
    /// its queue, and all other users are told that the user is offline.
    pub fn disconnect_user(&mut self, user_id: i32) -> (r: Option<Departure>)
        ensures
            match r {
                None => !old(self).connections().contains_key(user_id)
                    && final(self).connections() == old(self).connections()
                    && final(self).history() == old(self).history(),
                Some(departure) => final(self).history() == old(self).history() + signal_offers(
                    departure.signals@,
                ) + all_offers(departure.announcement@) && old(self).connections().contains_key(user_id) && all_signalled(
                    departure.signals@,
                    old(self).connections()[user_id],
                ) && broadcast_done(
                    old(self).connections().remove(user_id),
                    final(self).connections(),
                    departure.announcement@,
                    offline_text(user_id),
                ),
            },
    {
        let connections: Vec<WsConnection> = match take(&mut self.connections, user_id) {
            Some(connections) => connections,
            None => {
                assert(self.connections() =~= old(self).connections());
                return None;
            },
        };
        let ghost row = crate::presence::connection_views(connections@);
        let mut signals: Vec<Signal> = Vec::new();
        let mut i: usize = 0;
        assert(self.history() =~= old(self).history() + signal_offers(signals@));
        while i < connections.len()
            invariant
                i <= connections@.len(),
                row == crate::presence::connection_views(connections@),
                all_signalled(signals@, row.take(i as int)),
                self.connections() == old(self).connections().remove(user_id),
                self.history() == old(self).history() + signal_offers(signals@),
            decreases connections@.len() - i,
        {
            let ghost earlier = signals@;
            let signal: Signal = request_disconnect(&mut self.history, &connections[i].disconnect);
            let ghost offer = signal.offer();
            signals.push(signal);
            proof {
                assert(signal_offers(signals@) =~= signal_offers(earlier).push(offer));
                assert(self.history() =~= old(self).history() + signal_offers(signals@));
            }
            i = i + 1;
        }
        assert(row.take(row.len() as int) =~= row);
        let message = ServerMessage::UserOffline { user_id };
        let announcement: Vec<Fanout> = self.broadcast(message.to_json().as_str());
        Some(Departure { signals, announcement })
    }
}

impl Default for WsState {
    /// Nobody is connected.
    fn default() -> (r: WsState)
        ensures
            r.connections() == Map::<i32, Seq<(nat, nat)>>::empty(),
            r.history() == Seq::<crate::receipt::Offer>::empty(),
    {
        WsState::new()
    }
}

/// Offers a frame to the queue of a connection.
pub fn enqueue_frame(ws_state: &mut WsState, sender: &mpsc::Sender<Frame>, frame: Frame) -> (r:
    Delivery)
    ensures
        r.to() == crate::outbound::queue_of(*sender),
        r.content() == frame@,
        final(ws_state).connections() == old(ws_state).connections(),
        final(ws_state).history() == old(ws_state).history().push(r.offer()),
{
    enqueue(&mut ws_state.history, sender, frame)
}

/// Offers a message of the server to the queue of a connection.
pub fn enqueue_server_message(
    ws_state: &mut WsState,
    sender: &mpsc::Sender<Frame>,
    message: &ServerMessage,
) -> (r: Delivery)
    ensures
        r.to() == crate::outbound::queue_of(*sender),
        r.content() == crate::outbound::FrameView::Text(crate::message::server_json(message@)),
        final(ws_state).connections() == old(ws_state).connections(),
        final(ws_state).history() == old(ws_state).history().push(r.offer()),
{
    enqueue_frame(ws_state, sender, Frame::Text(message.to_json()))
}

/// What connecting a user does: the connection is counted, its user is
/// confirmed to it and then, where it is the only one, everybody is told that
/// the user is online.
pub open spec fn arrived(
    before: WsState,
    after: WsState,
    user_id: i32,
    queue: nat,
    signal: nat,
    arrival: Arrival,
) -> bool {
    let counted = joined(before.connections(), user_id, queue, signal);
    &&& after.history() == before.history().push(arrival.confirmation.offer()) + announced_offers(
        arrival.announcement,
    )
    &&& arrival.confirmation.to() == queue
    &&& arrival.confirmation.content() == crate::outbound::FrameView::Text(
        confirmation_text(user_id),
    )
    &&& arrival.announcement is Some <==> connections_of(before.connections(), user_id).len() == 0
    &&& match arrival.announcement {
        Some(fanouts) => broadcast_done(
            counted,
            after.connections(),
            fanouts@,
            online_text(user_id),
        ),
        None => after.connections() == counted,
    }
}

/// Connects a user. The confirmation is offered to the queue before the
/// announcement.
pub fn register_authenticated_connection(
    ws_state: &mut WsState,
    sender: &mpsc::Sender<Frame>,
    disconnect: &watch::Sender<bool>,
    user_id: i32,
) -> (r: Arrival)
    ensures
        arrived(
            *old(ws_state),
            *final(ws_state),
            user_id,
            crate::outbound::queue_of(*sender),
            crate::outbound::signal_of(*disconnect),
            r,
        ),
{
    let came_online: bool = ws_state.register(
        user_id,
        clone_sender(sender),
        clone_signal(disconnect),
    );
    let confirmation: Delivery = enqueue_server_message(
        ws_state,
        sender,
        &ServerMessage::AuthOk { user_id },
    );
    let announcement: Option<Vec<Fanout>> = if came_online {
        let message = ServerMessage::UserOnline { user_id };
        Some(ws_state.broadcast(message.to_json().as_str()))
    } else {
        None
    };
    assert(ws_state.history() =~= old(ws_state).history().push(confirmation.offer())
        + announced_offers(announcement));
    Arrival { confirmation, announcement }
}

/// What closing a connection does: it is no longer counted, and where it was
/// the last one, everybody is told that the user is offline.
pub open spec fn departed(
    before: WsState,
    after: WsState,
    user_id: i32,
    queue: nat,
    announcement: Option<Vec<Fanout>>,
) -> bool {
    &&& after.history() == before.history() + announced_offers(announcement)
    &&& announcement is Some <==> leaves(before.connections(), user_id, queue)
    &&& match announcement {
        Some(fanouts) => broadcast_done(
            left(before.connections(), user_id, queue),
            after.connections(),
            fanouts@,
            offline_text(user_id),
        ),
        None => after.connections() == left(before.connections(), user_id, queue),
    }
}

/// Closes a connection of a user, and gives the receipts for the announcement
/// where the user has gone offline.
pub fn unregister_authenticated_connection(
    ws_state: &mut WsState,
    sender: &mpsc::Sender<Frame>,
    user_id: i32,
) -> (r: Option<Vec<Fanout>>)
    ensures
        departed(
            *old(ws_state),
            *final(ws_state),
            user_id,
            crate::outbound::queue_of(*sender),
            r,
        ),
{
    if !ws_state.unregister(user_id, sender) {
        assert(ws_state.history() =~= old(ws_state).history() + announced_offers(None));
        return None;
    }
    let message = ServerMessage::UserOffline { user_id };
    Some(ws_state.broadcast(message.to_json().as_str()))
}

/// The connections and the history of a state are those that it holds.
proof fn law_states_hold_their_connections(state: WsState)
    ensures
        state.connections() == crate::presence::registered(state.connections),
        state.history() == state.history@,
{
}

} // verus!
