//! What holds of presence and of WebSocket connections over many events.
use crate::clock::Instant;
use crate::message::ClientMessage;
use crate::message::ServerMessageView;
use crate::session::ActionView;
use crate::session::Event;
use crate::session::Session;
use crate::token::AuthIdentity;
use vstd::prelude::*;

verus! {

// ---------------------------------------------------------------------------
// Presence.
// ---------------------------------------------------------------------------
/// A change to the connections of users.
pub enum Change {
    /// A user has one more connection, with a queue and a signal.
    Join(i32, nat, nat),
    /// A user has given up the connections with a queue.
    Leave(i32, nat),
    /// All connections of a user were ended.
    Disconnect(i32),
}

/// The connections after a change.
pub open spec fn changed(
    connections: Map<i32, Seq<(nat, nat)>>,
    change: Change,
) -> Map<i32, Seq<(nat, nat)>> {
    match change {
        Change::Join(user_id, queue, signal) => crate::ws::joined(
            connections,
            user_id,
            queue,
            signal,
        ),
        Change::Leave(user_id, queue) => crate::ws::left(connections, user_id, queue),
        Change::Disconnect(user_id) => connections.remove(user_id),
    }
}

/// A user comes online by a change.
pub open spec fn comes_online(
    connections: Map<i32, Seq<(nat, nat)>>,
    change: Change,
    user_id: i32,
) -> bool {
    change matches Change::Join(joining, _, _) && joining == user_id && crate::ws::connections_of(
        connections,
        user_id,
    ).len() == 0
}

/// A user goes offline by a change.
pub open spec fn goes_offline(
    connections: Map<i32, Seq<(nat, nat)>>,
    change: Change,
    user_id: i32,
) -> bool {
    match change {
        Change::Join(_, _, _) => false,
        Change::Leave(leaving, queue) => leaving == user_id && crate::ws::leaves(
            connections,
            user_id,
            queue,
        ),
        Change::Disconnect(leaving) => leaving == user_id && connections.contains_key(user_id),
    }
}

/// Nobody has an entry without connections.
pub open spec fn entries_hold(connections: Map<i32, Seq<(nat, nat)>>) -> bool {
    forall|user_id: i32| #[trigger]
        connections.contains_key(user_id) ==> connections[user_id].len() > 0
}

/// As users connect and disconnect, nobody has an entry without connections.
pub proof fn law_entries_hold_connections(
    connections: Map<i32, Seq<(nat, nat)>>,
    change: Change,
)
    requires
        entries_hold(connections),
    ensures
        entries_hold(changed(connections, change)),
{
}

/// A connection that comes and goes leaves a user with the connections of
/// before; offline is announced at its end exactly where online was announced
/// at its start.
pub proof fn law_a_visit_leaves_no_trace(
    connections: Map<i32, Seq<(nat, nat)>>,
    user_id: i32,
    queue: nat,
    signal: nat,
)
    requires
        forall|i: int|
            0 <= i < crate::ws::connections_of(connections, user_id).len() ==> (
            #[trigger] crate::ws::connections_of(connections, user_id)[i]).0 != queue,
    ensures
        crate::ws::connections_of(
            crate::ws::left(
                crate::ws::joined(connections, user_id, queue, signal),
                user_id,
                queue,
            ),
            user_id,
        ) == crate::ws::connections_of(connections, user_id),
        crate::ws::leaves(
            crate::ws::joined(connections, user_id, queue, signal),
            user_id,
            queue,
        ) <==> crate::ws::connections_of(connections, user_id).len() == 0,
{
    let row = crate::ws::connections_of(connections, user_id);
    let other = crate::ws::other_than(queue);
    lemma_filter_all(row, other);
    assert(row.push((queue, signal)).drop_last() =~= row);
    assert(row.push((queue, signal)).filter(other) == row) by {
        reveal(Seq::filter);
        assert(!other((queue, signal)));
    }
    let visited = crate::ws::joined(connections, user_id, queue, signal);
    assert(visited[user_id] == row.push((queue, signal)));
    let result = crate::ws::left(visited, user_id, queue);
    if row.len() == 0 {
        assert(crate::ws::connections_of(result, user_id) =~= row);
    }
}

proof fn lemma_filter_all(row: Seq<(nat, nat)>, keep: spec_fn((nat, nat)) -> bool)
    requires
        forall|i: int| 0 <= i < row.len() ==> keep(#[trigger] row[i]),
    ensures
        row.filter(keep) == row,
    decreases row.len(),
{
    reveal(Seq::filter);
    if row.len() > 0 {
        let front = row.drop_last();
        assert forall|i: int| 0 <= i < front.len() implies keep(#[trigger] front[i]) by {
            assert(front[i] == row[i]);
        }
        lemma_filter_all(front, keep);
        assert(row[row.len() - 1] == row.last());
        assert(front.push(row.last()) =~= row);
    } else {
        assert(row.filter(keep) =~= row);
    }
}

/// A change concerns its own user only.
pub proof fn law_users_are_independent(
    connections: Map<i32, Seq<(nat, nat)>>,
    change: Change,
    user_id: i32,
)
    requires
        match change {
            Change::Join(joining, _, _) => joining != user_id,
            Change::Leave(leaving, _) => leaving != user_id,
            Change::Disconnect(leaving) => leaving != user_id,
        },
    ensures
        crate::ws::connections_of(changed(connections, change), user_id)
            == crate::ws::connections_of(connections, user_id),
        changed(connections, change).contains_key(user_id) == connections.contains_key(user_id),
{
}

/// A delivery to a row of connections drops none whose queue has a receiver:
/// where all of them have one, the row stays as it is, full queues or not.
pub proof fn law_full_queues_keep_their_place(
    row: Seq<(nat, nat)>,
    deliveries: Seq<crate::receipt::Delivery>,
)
    requires
        deliveries.len() == row.len(),
        forall|i: int| 0 <= i < deliveries.len() ==> (#[trigger] deliveries[i]).result().keeps(),
    ensures
        crate::ws::kept(row, deliveries) == row,
    decreases row.len(),
{
    if row.len() > 0 {
        let front = deliveries.drop_last();
        assert forall|i: int| 0 <= i < front.len() implies (
        #[trigger] front[i]).result().keeps() by {
            assert(front[i] == deliveries[i]);
        }
        law_full_queues_keep_their_place(row.drop_last(), front);
        assert(deliveries[deliveries.len() - 1] == deliveries.last());
        assert(row.drop_last().push(row.last()) =~= row);
    } else {
        assert(crate::ws::kept(row, deliveries) =~= row);
    }
}

/// A delivery to a row of connections keeps no other connections than those of
/// the row, each at most as often.
pub proof fn law_deliveries_add_no_connections(
    row: Seq<(nat, nat)>,
    deliveries: Seq<crate::receipt::Delivery>,
    connection: (nat, nat),
)
    ensures
        crate::ws::kept(row, deliveries).to_multiset().count(connection)
            <= row.to_multiset().count(connection),
    decreases row.len(),
{
    broadcast use vstd::seq_lib::group_to_multiset_ensures;

    if row.len() > 0 && deliveries.len() == row.len() {
        law_deliveries_add_no_connections(row.drop_last(), deliveries.drop_last(), connection);
        assert(row.drop_last().push(row.last()) =~= row);
    }
}

/// Every queue of an announcement has a receiver.
pub open spec fn all_received(announcement: Option<Vec<crate::ws::Fanout>>) -> bool {
    announcement matches Some(fanouts) ==> forall|i: int, j: int|
        0 <= i < fanouts@.len() && 0 <= j < fanouts@[i].deliveries@.len() ==> (
        #[trigger] fanouts@[i].deliveries@[j]).result().keeps()
}

proof fn lemma_received_broadcasts_change_nothing(
    before: Map<i32, Seq<(nat, nat)>>,
    after: Map<i32, Seq<(nat, nat)>>,
    fanouts: Vec<crate::ws::Fanout>,
    text: Seq<char>,
)
    requires
        crate::ws::broadcast_done(before, after, fanouts@, text),
        all_received(Some(fanouts)),
    ensures
        after == before,
{
    assert forall|user_id: i32| #[trigger] before.contains_key(user_id) implies after[user_id]
        == before[user_id] by {
        let i = choose|i: int|
            0 <= i < fanouts@.len() && #[trigger] crate::ws::serves(fanouts@[i], user_id);
        let deliveries = fanouts@[i].deliveries@;
        assert(fanouts@[i].user_id == user_id);
        assert(crate::ws::offered(deliveries, before[user_id], text));
        assert forall|j: int| 0 <= j < deliveries.len() implies (
        #[trigger] deliveries[j]).result().keeps() by {
            assert(fanouts@[i].deliveries@[j].result().keeps());
        }
        law_full_queues_keep_their_place(before[user_id], deliveries);
    }
    assert(after =~= before);
}

/// Connecting a user is one change, as long as every queue has a receiver: it
/// moves the connections as a join does, and announces the user exactly where
/// the user comes online by it.
pub proof fn law_connecting_is_a_join(
    before: crate::ws::WsState,
    after: crate::ws::WsState,
    user_id: i32,
    queue: nat,
    signal: nat,
    arrival: crate::ws::Arrival,
)
    requires
        crate::ws::arrived(before, after, user_id, queue, signal, arrival),
        all_received(arrival.announcement),
    ensures
        after.connections() == changed(
            before.connections(),
            Change::Join(user_id, queue, signal),
        ),
        arrival.announcement is Some <==> comes_online(
            before.connections(),
            Change::Join(user_id, queue, signal),
            user_id,
        ),
{
    match arrival.announcement {
        Some(fanouts) => {
            lemma_received_broadcasts_change_nothing(
                crate::ws::joined(before.connections(), user_id, queue, signal),
                after.connections(),
                fanouts,
                crate::ws::online_text(user_id),
            );
        },
        None => {},
    }
}

/// Closing a connection is one change, as long as every queue has a receiver:
/// it moves the connections as a leave does, and announces the user exactly
/// where the user goes offline by it.
pub proof fn law_closing_is_a_leave(
    before: crate::ws::WsState,
    after: crate::ws::WsState,
    user_id: i32,
    queue: nat,
    announcement: Option<Vec<crate::ws::Fanout>>,
)
    requires
        crate::ws::departed(before, after, user_id, queue, announcement),
        all_received(announcement),
    ensures
        after.connections() == changed(before.connections(), Change::Leave(user_id, queue)),
        announcement is Some <==> goes_offline(
            before.connections(),
            Change::Leave(user_id, queue),
            user_id,
        ),
{
    match announcement {
        Some(fanouts) => {
            lemma_received_broadcasts_change_nothing(
                crate::ws::left(before.connections(), user_id, queue),
                after.connections(),
                fanouts,
                crate::ws::offline_text(user_id),
            );
        },
        None => {},
    }
}

/// Ending all connections of a user is one change, as long as every queue has a
/// receiver: the user's entry is gone, and the user is announced exactly where
/// there was one.
pub proof fn law_disconnecting_is_a_change(
    before: crate::ws::WsState,
    after: crate::ws::WsState,
    user_id: i32,
    departure: Option<crate::ws::Departure>,
)
    requires
        crate::account::signed_out(before, after, Some(user_id), departure),
        departure matches Some(departure) ==> all_received(Some(departure.announcement)),
    ensures
        after.connections() == changed(before.connections(), Change::Disconnect(user_id)),
        departure is Some <==> goes_offline(
            before.connections(),
            Change::Disconnect(user_id),
            user_id,
        ),
{
    match departure {
        Some(departure) => {
            lemma_received_broadcasts_change_nothing(
                before.connections().remove(user_id),
                after.connections(),
                departure.announcement,
                crate::ws::offline_text(user_id),
            );
        },
        None => {
            assert(before.connections().remove(user_id) =~= before.connections());
        },
    }
}

/// The connections of a user that close after all of them were ended find no
/// entry, change nothing and announce nothing.
pub proof fn law_ended_connections_close_silently(
    before: crate::ws::WsState,
    ended: crate::ws::WsState,
    after: crate::ws::WsState,
    user_id: i32,
    departure: Option<crate::ws::Departure>,
    queue: nat,
    announcement: Option<Vec<crate::ws::Fanout>>,
)
    requires
        crate::account::signed_out(before, ended, Some(user_id), departure),
        crate::ws::departed(ended, after, user_id, queue, announcement),
    ensures
        announcement is None,
        after.connections() == ended.connections(),
        after.history() == ended.history(),
{
    match departure {
        Some(departure) => {
            let remaining = before.connections().remove(user_id);
            assert(ended.connections().dom().contains(user_id) == remaining.dom().contains(
                user_id,
            ));
        },
        None => {},
    }
    assert(after.history() =~= ended.history());
}

/// A step of the server.
pub enum Step {
    /// The connections of users change.
    Change(Change),
    /// A text is offered to the connections of one user or of everybody.
    Text,
}

/// What a step does to the server, whichever queues have a receiver.
pub open spec fn stepped(
    before: crate::ws::WsState,
    after: crate::ws::WsState,
    step: Step,
) -> bool {
    match step {
        Step::Change(Change::Join(user_id, queue, signal)) => exists|arrival: crate::ws::Arrival|
            #[trigger] crate::ws::arrived(before, after, user_id, queue, signal, arrival),
        Step::Change(Change::Leave(user_id, queue)) => exists|
            announcement: Option<Vec<crate::ws::Fanout>>,
        | #[trigger] crate::ws::departed(before, after, user_id, queue, announcement),
        Step::Change(Change::Disconnect(user_id)) => exists|
            departure: Option<crate::ws::Departure>,
        | #[trigger] crate::account::signed_out(before, after, Some(user_id), departure),
        Step::Text => {
            ||| exists|user_id: i32, deliveries: Seq<crate::receipt::Delivery>|
                after.connections() == #[trigger] crate::ws::after_delivery(
                    before.connections(),
                    user_id,
                    deliveries,
                )
            ||| exists|fanouts: Seq<crate::ws::Fanout>, text: Seq<char>| #[trigger]
                crate::ws::broadcast_done(before.connections(), after.connections(), fanouts, text)
        },
    }
}

/// A server that starts with nobody connected goes through a row of steps.
pub open spec fn stepped_through(states: Seq<crate::ws::WsState>, steps: Seq<Step>) -> bool {
    &&& states.len() == steps.len() + 1
    &&& states[0].connections() == Map::<i32, Seq<(nat, nat)>>::empty()
    &&& forall|i: int|
        0 <= i < steps.len() ==> stepped(states[i], states[i + 1], #[trigger] steps[i])
}

/// A user joins whose entry is there and holds no connection any more.
pub open spec fn joins_an_empty_entry(
    before: crate::ws::WsState,
    step: Step,
    user_id: i32,
) -> bool {
    step matches Step::Change(Change::Join(joining, _, _)) && joining == user_id
        && before.connections().contains_key(user_id) && before.connections()[user_id].len() == 0
}

/// The announcements of a user in a row of steps, in order: whether each one
/// says online.
pub open spec fn announced(
    states: Seq<crate::ws::WsState>,
    steps: Seq<Step>,
    user_id: i32,
) -> Seq<bool>
    decreases steps.len(),
{
    if steps.len() == 0 {
        Seq::empty()
    } else {
        let earlier = announced(states, steps.drop_last(), user_id);
        let connections = states[steps.len() - 1].connections();
        match steps.last() {
            Step::Change(change) => if comes_online(connections, change, user_id) {
                earlier.push(true)
            } else if goes_offline(connections, change, user_id) {
                earlier.push(false)
            } else {
                earlier
            },
            Step::Text => earlier,
        }
    }
}

proof fn lemma_a_step_moves_presence(
    before: crate::ws::WsState,
    after: crate::ws::WsState,
    step: Step,
    user_id: i32,
)
    requires
        stepped(before, after, step),
    ensures
        after.connections().contains_key(user_id) == (match step {
            Step::Change(change) => changed(before.connections(), change).contains_key(user_id),
            Step::Text => before.connections().contains_key(user_id),
        }),
{
    let present = after.connections().dom().contains(user_id);
    match step {
        Step::Change(Change::Join(joining, queue, signal)) => {
            let arrival = choose|arrival: crate::ws::Arrival| #[trigger]
                crate::ws::arrived(before, after, joining, queue, signal, arrival);
            let counted = crate::ws::joined(before.connections(), joining, queue, signal);
            assert(present == counted.dom().contains(user_id));
        },
        Step::Change(Change::Leave(leaving, queue)) => {
            let announcement = choose|announcement: Option<Vec<crate::ws::Fanout>>| #[trigger]
                crate::ws::departed(before, after, leaving, queue, announcement);
            let remaining = crate::ws::left(before.connections(), leaving, queue);
            assert(present == remaining.dom().contains(user_id));
        },
        Step::Change(Change::Disconnect(leaving)) => {
            let departure = choose|departure: Option<crate::ws::Departure>| #[trigger]
                crate::account::signed_out(before, after, Some(leaving), departure);
            let remaining = before.connections().remove(leaving);
            assert(present == remaining.dom().contains(user_id));
        },
        Step::Text => {
            assert(after.connections().dom() =~= before.connections().dom());
            assert(present == before.connections().dom().contains(user_id));
        },
    }
}

/// Whatever a server goes through, the announcements of a user alternate,
/// starting with online, and the last one says whether the user has an entry:
/// only the first of several connections announces online, and offline is
/// announced once, when the last one closes or all are ended. Queues may lose
/// their receivers on the way, as long as the user does not join while the
/// entry is there and every connection in it was lost so.
pub proof fn law_presence_follows_the_announcements(
    states: Seq<crate::ws::WsState>,
    steps: Seq<Step>,
    user_id: i32,
)
    requires
        stepped_through(states, steps),
        forall|i: int|
            0 <= i < steps.len() ==> !joins_an_empty_entry(states[i], #[trigger] steps[i], user_id),
    ensures
        forall|i: int|
            0 <= i < announced(states, steps, user_id).len() ==> #[trigger] announced(
                states,
                steps,
                user_id,
            )[i] == (i % 2 == 0),
        states.last().connections().contains_key(user_id) <==> announced(
            states,
            steps,
            user_id,
        ).len() % 2 == 1,
    decreases steps.len(),
{
    if steps.len() > 0 {
        let front = steps.drop_last();
        let earlier = states.drop_last();
        assert forall|i: int| 0 <= i < front.len() implies stepped(
            earlier[i],
            earlier[i + 1],
            #[trigger] front[i],
        ) && !joins_an_empty_entry(earlier[i], front[i], user_id) by {
            assert(stepped(states[i], states[i + 1], steps[i]));
            assert(!joins_an_empty_entry(states[i], steps[i], user_id));
        }
        law_presence_follows_the_announcements(earlier, front, user_id);
        lemma_announced_looks_back(states, earlier, front, user_id);
        let before = states[steps.len() - 1];
        let after = states[steps.len() as int];
        let step = steps[steps.len() - 1];
        assert(stepped(before, after, step));
        assert(!joins_an_empty_entry(before, step, user_id));
        lemma_a_step_moves_presence(before, after, step, user_id);
    }
}

proof fn lemma_announced_looks_back(
    states: Seq<crate::ws::WsState>,
    front: Seq<crate::ws::WsState>,
    steps: Seq<Step>,
    user_id: i32,
)
    requires
        steps.len() <= front.len() <= states.len(),
        forall|i: int| 0 <= i < front.len() ==> #[trigger] front[i] == states[i],
    ensures
        announced(front, steps, user_id) == announced(states, steps, user_id),
    decreases steps.len(),
{
    if steps.len() > 0 {
        lemma_announced_looks_back(states, front, steps.drop_last(), user_id);
        assert(front[steps.len() - 1] == states[steps.len() - 1]);
    }
}

/// An offer of a text, to whatever queue.
pub open spec fn is_text_offer(offer: crate::receipt::Offer, text: Seq<char>) -> bool {
    offer matches crate::receipt::Offer::Frame(_, frame) && frame
        == crate::outbound::FrameView::Text(text)
}

proof fn lemma_fanouts_offer_the_text(
    fanouts: Seq<crate::ws::Fanout>,
    text: Seq<char>,
    i: int,
)
    requires
        forall|j: int, k: int|
            0 <= j < fanouts.len() && 0 <= k < fanouts[j].deliveries@.len() ==> (
            #[trigger] fanouts[j].deliveries@[k]).content() == crate::outbound::FrameView::Text(
                text,
            ),
        0 <= i < crate::ws::all_offers(fanouts).len(),
    ensures
        is_text_offer(crate::ws::all_offers(fanouts)[i], text),
    decreases fanouts.len(),
{
    let front = fanouts.drop_last();
    let last = fanouts.last().deliveries@;
    let earlier = crate::ws::all_offers(front).len();
    if i < earlier {
        assert forall|j: int, k: int|
            0 <= j < front.len() && 0 <= k < front[j].deliveries@.len() implies (
        #[trigger] front[j].deliveries@[k]).content() == crate::outbound::FrameView::Text(text) by {
            assert(fanouts[j].deliveries@[k] == front[j].deliveries@[k]);
        }
        lemma_fanouts_offer_the_text(front, text, i);
    } else {
        assert(crate::ws::all_offers(fanouts)[i] == crate::ws::offers(last)[i - earlier]);
        assert(fanouts[fanouts.len() - 1].deliveries@[i - earlier].content()
            == crate::outbound::FrameView::Text(text));
    }
}

pub proof fn lemma_broadcasts_offer_the_text(
    before: Map<i32, Seq<(nat, nat)>>,
    after: Map<i32, Seq<(nat, nat)>>,
    fanouts: Seq<crate::ws::Fanout>,
    text: Seq<char>,
    i: int,
)
    requires
        crate::ws::broadcast_done(before, after, fanouts, text),
        0 <= i < crate::ws::all_offers(fanouts).len(),
    ensures
        is_text_offer(crate::ws::all_offers(fanouts)[i], text),
{
    assert forall|j: int, k: int|
        0 <= j < fanouts.len() && 0 <= k < fanouts[j].deliveries@.len() implies (
    #[trigger] fanouts[j].deliveries@[k]).content() == crate::outbound::FrameView::Text(text) by {
        assert(crate::ws::offered(fanouts[j].deliveries@, before[fanouts[j].user_id], text));
    }
    lemma_fanouts_offer_the_text(fanouts, text, i);
}

/// A connection hears that its user is known before anybody hears that the
/// user is online: the confirmation is handed out first, and all that follows
/// is the announcement.
pub proof fn law_confirmations_precede_announcements(
    before: crate::ws::WsState,
    after: crate::ws::WsState,
    user_id: i32,
    queue: nat,
    signal: nat,
    arrival: crate::ws::Arrival,
    i: int,
)
    requires
        crate::ws::arrived(before, after, user_id, queue, signal, arrival),
        before.history().len() <= i < after.history().len(),
    ensures
        i == before.history().len() ==> after.history()[i] == crate::receipt::Offer::Frame(
            queue,
            crate::outbound::FrameView::Text(crate::ws::confirmation_text(user_id)),
        ),
        i > before.history().len() ==> is_text_offer(
            after.history()[i],
            crate::ws::online_text(user_id),
        ),
{
    let first = before.history().push(arrival.confirmation.offer());
    if i > before.history().len() {
        let fanouts = arrival.announcement->0@;
        lemma_broadcasts_offer_the_text(
            crate::ws::joined(before.connections(), user_id, queue, signal),
            after.connections(),
            fanouts,
            crate::ws::online_text(user_id),
            i - first.len(),
        );
        assert(after.history()[i] == crate::ws::all_offers(fanouts)[i - first.len()]);
    }
}

/// Where a user leaves and comes back, everybody hears that the user is offline
/// before anybody hears that the user is online again.
pub proof fn law_reconnections_follow_the_departure(
    first: crate::ws::WsState,
    second: crate::ws::WsState,
    third: crate::ws::WsState,
    user_id: i32,
    old_queue: nat,
    departure: Option<Vec<crate::ws::Fanout>>,
    queue: nat,
    signal: nat,
    arrival: crate::ws::Arrival,
    i: int,
)
    requires
        crate::ws::departed(first, second, user_id, old_queue, departure),
        crate::ws::arrived(second, third, user_id, queue, signal, arrival),
        first.history().len() <= i < third.history().len(),
    ensures
        i < second.history().len() ==> is_text_offer(
            third.history()[i],
            crate::ws::offline_text(user_id),
        ),
        i > second.history().len() ==> is_text_offer(
            third.history()[i],
            crate::ws::online_text(user_id),
        ),
{
    if i < second.history().len() {
        let fanouts = departure->0@;
        lemma_broadcasts_offer_the_text(
            crate::ws::left(first.connections(), user_id, old_queue),
            second.connections(),
            fanouts,
            crate::ws::offline_text(user_id),
            i - first.history().len(),
        );
        assert(third.history()[i] == crate::ws::all_offers(fanouts)[i - first.history().len()]);
    } else {
        law_confirmations_precede_announcements(
            second,
            third,
            user_id,
            queue,
            signal,
            arrival,
            i,
        );
    }
}

/// A user who is disconnected has no entry any more, everybody else keeps
/// theirs, and the announcement goes to everybody else, after every connection
/// of the user was told to close.
pub proof fn law_disconnected_users_are_gone(
    before: crate::ws::WsState,
    after: crate::ws::WsState,
    user_id: i32,
    departure: crate::ws::Departure,
    other: i32,
    i: int,
)
    requires
        crate::account::signed_out(before, after, Some(user_id), Some(departure)),
        other != user_id,
        before.history().len() <= i < after.history().len(),
    ensures
        !after.connections().contains_key(user_id),
        after.connections().contains_key(other) == before.connections().contains_key(other),
        forall|j: int|
            0 <= j < departure.announcement@.len() ==> (
            #[trigger] departure.announcement@[j]).user_id != user_id,
        i < before.history().len() + before.connections()[user_id].len() ==> after.history()[i]
            == crate::receipt::Offer::Signal(
            before.connections()[user_id][i - before.history().len()].1,
            true,
        ),
        i >= before.history().len() + before.connections()[user_id].len() ==> is_text_offer(
            after.history()[i],
            crate::ws::offline_text(user_id),
        ),
{
    let remaining = before.connections().remove(user_id);
    assert(after.connections().dom().contains(other) == remaining.dom().contains(other));
    assert(after.connections().dom().contains(user_id) == remaining.dom().contains(user_id));
    let start = before.history().len();
    let signals = departure.signals@;
    if i < start + signals.len() {
        assert(after.history()[i] == crate::ws::signal_offers(signals)[i - start]);
        assert(signals[i - start].content());
    } else {
        let fanouts = departure.announcement@;
        lemma_broadcasts_offer_the_text(
            remaining,
            after.connections(),
            fanouts,
            crate::ws::offline_text(user_id),
            i - start - signals.len(),
        );
        assert(after.history()[i] == crate::ws::all_offers(fanouts)[i - start - signals.len()]);
    }
}

// ---------------------------------------------------------------------------
// Connections.
// ---------------------------------------------------------------------------
/// A message that only tells why the client is refused.
pub open spec fn is_refusal(action: ActionView) -> bool {
    action matches ActionView::Tell(ServerMessageView::AuthError { .. })
}

/// The user of a connection is settled once: no event changes it or takes it
/// away.
pub proof fn law_the_user_is_settled_once(session: Session, event: Event, now: Instant)
    requires
        session.user_id is Some,
    ensures
        crate::session::reaction(session, event, now).session.user_id == session.user_id,
{
}

/// A client that has not authenticated is told nothing but why it is refused,
/// save heartbeats, and is counted for nobody, unless its text is an
/// authentication with an accepted token, which names the user.
pub proof fn law_nothing_before_authentication(session: Session, event: Event, now: Instant)
    requires
        session.wf(),
        session.user_id is None,
    ensures
        ({
            let after = crate::session::reaction(session, event, now);
            ||| (event matches Event::Text(Some(ClientMessage::Auth { .. }), Some(identity))
                && after.session.user_id == Some(identity.user_id) && !after.closes)
            ||| (after.session.user_id is None && forall|i: int|
                0 <= i < after.actions.len() ==> {
                    ||| is_refusal(#[trigger] after.actions[i])
                    ||| after.actions[i] is Heartbeat
                    ||| after.actions[i] is Answer
                })
        }),
{
}

/// A text of a client that has not authenticated either authenticates it or
/// ends the connection with a reason.
pub proof fn law_the_first_text_authenticates_or_ends(
    session: Session,
    message: Option<ClientMessage>,
    identity: Option<AuthIdentity>,
    now: Instant,
)
    requires
        session.wf(),
        session.user_id is None,
    ensures
        ({
            let after = crate::session::reaction(session, Event::Text(message, identity), now);
            ||| (after.session.user_id is Some && !after.closes)
            ||| (after.closes && after.actions.len() == 1 && is_refusal(after.actions[0]))
        }),
{
}

/// A refusal always ends the connection.
pub proof fn law_refusals_end_the_connection(session: Session, event: Event, now: Instant, i: int)
    requires
        0 <= i < crate::session::reaction(session, event, now).actions.len(),
        is_refusal(crate::session::reaction(session, event, now).actions[i]),
    ensures
        crate::session::reaction(session, event, now).closes,
{
}

/// Only the first text after an upgrade may repeat the authentication: any
/// text uses that up, and nothing gives it back.
pub proof fn law_a_repeated_authentication_is_accepted_once(
    session: Session,
    event: Event,
    now: Instant,
)
    ensures
        crate::session::reaction(session, event, now).session.accepts_repeat
            ==> session.accepts_repeat && !(event is Text),
{
}

/// The state of a connection after a row of events that did not close it.
pub open spec fn lived(session: Session, events: Seq<(Event, Instant)>) -> Session
    decreases events.len(),
{
    if events.len() == 0 {
        session
    } else {
        crate::session::reaction(
            lived(session, events.drop_last()),
            events.last().0,
            events.last().1,
        ).session
    }
}

/// How often a row of actions counts the connection.
pub open spec fn registrations(actions: Seq<ActionView>) -> nat {
    actions.filter(|action: ActionView| action is Register).len()
}

/// How often a connection is counted in a row of events.
pub open spec fn total_registrations(session: Session, events: Seq<(Event, Instant)>) -> nat
    decreases events.len(),
{
    if events.len() == 0 {
        0
    } else {
        total_registrations(session, events.drop_last()) + registrations(
            crate::session::reaction(
                lived(session, events.drop_last()),
                events.last().0,
                events.last().1,
            ).actions,
        )
    }
}

proof fn lemma_registrations_of_a_reaction(session: Session, event: Event, now: Instant)
    ensures
        ({
            let after = crate::session::reaction(session, event, now);
            &&& session.user_id is Some ==> after.session.user_id is Some && registrations(
                after.actions,
            ) == 0
            &&& session.user_id is None ==> registrations(after.actions) == (
            if after.session.user_id is Some {
                1nat
            } else {
                0nat
            })
        }),
{
    let after = crate::session::reaction(session, event, now);
    let counts = |action: ActionView| action is Register;
    reveal(Seq::filter);
    if after.actions.len() == 0 {
        assert(after.actions.filter(counts).len() == 0);
    } else if after.actions.len() == 1 {
        let front = after.actions.drop_last();
        assert(front.filter(counts).len() == 0);
    } else {
        let front = after.actions.drop_last();
        assert(front.drop_last().filter(counts).len() == 0);
        assert(front.last() == after.actions[0]);
        assert(after.actions.last() == after.actions[1]);
        assert(front.filter(counts).len() == 0);
    }
}

/// However a connection lives, it is counted at most once, and exactly where
/// its user is known: an authenticated upgrade is counted when it opens, any
/// other connection by its first accepted authentication.
pub proof fn law_a_connection_is_counted_once(
    initial: Option<AuthIdentity>,
    opened_at: Instant,
    events: Seq<(Event, Instant)>,
)
    ensures
        ({
            let opening = Session::opened(initial, opened_at);
            registrations(opening.actions) + total_registrations(opening.session, events) == (
            if lived(opening.session, events).user_id is Some {
                1nat
            } else {
                0nat
            })
        }),
    decreases events.len(),
{
    let opening = Session::opened(initial, opened_at);
    if events.len() == 0 {
        reveal(Seq::filter);
        let counts = |action: ActionView| action is Register;
        if opening.actions.len() == 1 {
            assert(opening.actions.drop_last().filter(counts).len() == 0);
        }
    } else {
        law_a_connection_is_counted_once(initial, opened_at, events.drop_last());
        lemma_registrations_of_a_reaction(
            lived(opening.session, events.drop_last()),
            events.last().0,
            events.last().1,
        );
    }
}

/// However a connection lives, it keeps its validity: it accepts a repeated
/// authentication only while its user is known.
pub proof fn law_connections_stay_well_formed(session: Session, events: Seq<(Event, Instant)>)
    requires
        session.wf(),
    ensures
        lived(session, events).wf(),
    decreases events.len(),
{
    if events.len() > 0 {
        law_connections_stay_well_formed(session, events.drop_last());
        let before = lived(session, events.drop_last());
        let event = events.last().0;
        let now = events.last().1;
        law_a_repeated_authentication_is_accepted_once(before, event, now);
        if before.user_id is Some {
            law_the_user_is_settled_once(before, event, now);
        }
    }
}

/// A client that has been silent for longer than the timeout is given up at
/// the next heartbeat; one that has not gets a heartbeat.
pub proof fn law_silent_clients_are_given_up(session: Session, now: Instant)
    ensures
        crate::session::reaction(session, Event::Heartbeat, now).closes <==> crate::clock::elapsed(
            now,
            session.last_heartbeat,
        ) > crate::session::HEARTBEAT_TIMEOUT_SECONDS * crate::clock::NANOS_PER_SECOND,
        !crate::session::reaction(session, Event::Heartbeat, now).closes
            ==> crate::session::reaction(session, Event::Heartbeat, now).actions
            == seq![ActionView::Heartbeat],
{
}

} // verus!
