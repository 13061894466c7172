//! What each operation does to the connections of users, and who hears of it.
use crate::outbound::FrameView;
use crate::outbound::SendOutcome;
use crate::presence::WsConnection;
use crate::receipt::Delivery;
use crate::receipt::Offer;
use crate::receipt::Signal;
use crate::ws::Arrival;
use crate::ws::Fanout;
use crate::ws::WsState;
use vstd::prelude::*;

verus! {

// ---------------------------------------------------------------------------
// Connections.
// ---------------------------------------------------------------------------
/// A connection is known by its queue and its signal, and a row of connections
/// by those of each, in order.
pub proof fn law_connections_are_known_by_their_handles(row: Seq<WsConnection>, i: int)
    requires
        0 <= i < row.len(),
    ensures
        crate::presence::connection_views(row).len() == row.len(),
        crate::presence::connection_views(row)[i].0 == crate::outbound::queue_of(row[i].sender),
        crate::presence::connection_views(row)[i].1 == crate::outbound::signal_of(
            row[i].disconnect,
        ),
{
}

/// A user without an entry has no connections.
pub proof fn law_connections_are_those_of_the_entry(
    connections: Map<i32, Seq<(nat, nat)>>,
    user_id: i32,
)
    ensures
        connections.contains_key(user_id) ==> crate::ws::connections_of(connections, user_id)
            == connections[user_id],
        !connections.contains_key(user_id) ==> crate::ws::connections_of(connections, user_id).len()
            == 0,
{
}

/// Connecting puts one connection behind those that the user has, and leaves
/// the other users alone.
pub proof fn law_a_join_adds_one_connection(
    connections: Map<i32, Seq<(nat, nat)>>,
    user_id: i32,
    queue: nat,
    signal: nat,
    other: i32,
)
    requires
        other != user_id,
    ensures
        ({
            let after = crate::ws::joined(connections, user_id, queue, signal);
            let before = crate::ws::connections_of(connections, user_id);
            &&& after.contains_key(user_id)
            &&& after[user_id].len() == before.len() + 1
            &&& after[user_id].drop_last() == before
            &&& after[user_id].last() == (queue, signal)
            &&& after.contains_key(other) == connections.contains_key(other)
            &&& connections.contains_key(other) ==> after[other] == connections[other]
        }),
{
    let before = crate::ws::connections_of(connections, user_id);
    assert(before.push((queue, signal)).drop_last() =~= before);
}

/// Taking the connections with a queue out of a row leaves all others, in
/// order.
pub proof fn law_a_queue_is_taken_out(
    a: Seq<(nat, nat)>,
    b: Seq<(nat, nat)>,
    connection: (nat, nat),
    queue: nat,
)
    ensures
        crate::ws::without_queue(a + b, queue) == crate::ws::without_queue(a, queue)
            + crate::ws::without_queue(b, queue),
        crate::ws::without_queue(seq![connection], queue) == (if connection.0 == queue {
            Seq::empty()
        } else {
            seq![connection]
        }),
        crate::ws::without_queue(Seq::empty(), queue).len() == 0,
{
    let other = crate::ws::other_than(queue);
    Seq::filter_distributes_over_add(a, b, other);
    reveal(Seq::filter);
    assert(seq![connection].drop_last() =~= Seq::<(nat, nat)>::empty());
    assert(seq![connection].drop_last().filter(other) =~= Seq::<(nat, nat)>::empty());
    assert(seq![connection].last() == connection);
    assert(crate::ws::without_queue(seq![connection], queue) =~= if connection.0 == queue {
        Seq::empty()
    } else {
        seq![connection]
    });
}

proof fn lemma_nothing_left(row: Seq<(nat, nat)>, queue: nat)
    ensures
        crate::ws::without_queue(row, queue).len() == 0 <==> (forall|i: int|
            0 <= i < row.len() ==> (#[trigger] row[i]).0 == queue),
    decreases row.len(),
{
    reveal(Seq::filter);
    if row.len() > 0 {
        let front = row.drop_last();
        lemma_nothing_left(front, queue);
        assert(row.last() == row[row.len() - 1]);
        if forall|i: int| 0 <= i < row.len() ==> (#[trigger] row[i]).0 == queue {
            assert forall|i: int| 0 <= i < front.len() implies (#[trigger] front[i]).0
                == queue by {
                assert(front[i] == row[i]);
            }
        }
        if crate::ws::without_queue(row, queue).len() == 0 {
            assert forall|i: int| 0 <= i < row.len() implies (#[trigger] row[i]).0 == queue by {
                if i < row.len() - 1 {
                    assert(front[i] == row[i]);
                }
            }
        }
    }
}

/// Closing takes the connections with its queue from the user, and the entry
/// where none is left; the other users keep theirs. The user goes offline
/// exactly where there was an entry and every connection in it has that queue.
pub proof fn law_a_leave_takes_its_connections(
    connections: Map<i32, Seq<(nat, nat)>>,
    user_id: i32,
    queue: nat,
    other: i32,
)
    requires
        other != user_id,
    ensures
        ({
            let after = crate::ws::left(connections, user_id, queue);
            let gone = crate::ws::leaves(connections, user_id, queue);
            &&& gone <==> connections.contains_key(user_id) && (forall|i: int|
                0 <= i < connections[user_id].len() ==> (#[trigger] connections[user_id][i]).0
                    == queue)
            &&& after.contains_key(user_id) <==> connections.contains_key(user_id) && !gone
            &&& after.contains_key(user_id) ==> after[user_id] == crate::ws::without_queue(
                connections[user_id],
                queue,
            )
            &&& after.contains_key(other) == connections.contains_key(other)
            &&& connections.contains_key(other) ==> after[other] == connections[other]
        }),
{
    if connections.contains_key(user_id) {
        lemma_nothing_left(connections[user_id], queue);
    }
}

// ---------------------------------------------------------------------------
// Deliveries.
// ---------------------------------------------------------------------------
/// A connection keeps its place unless the receiver of its queue is gone: a
/// full queue costs it nothing but the frame.
pub proof fn law_only_lost_receivers_cost_the_place(
    row: Seq<(nat, nat)>,
    deliveries: Seq<Delivery>,
    connection: (nat, nat),
    delivery: Delivery,
)
    requires
        row.len() == deliveries.len(),
    ensures
        crate::ws::kept(row.push(connection), deliveries.push(delivery)) == (match delivery.result() {
            SendOutcome::Sent => crate::ws::kept(row, deliveries).push(connection),
            SendOutcome::Full => crate::ws::kept(row, deliveries).push(connection),
            SendOutcome::Closed => crate::ws::kept(row, deliveries),
        }),
        crate::ws::kept(Seq::empty(), Seq::empty()).len() == 0,
        SendOutcome::Sent.keeps() && SendOutcome::Full.keeps() && !SendOutcome::Closed.keeps(),
{
    assert(row.push(connection).drop_last() =~= row);
    assert(deliveries.push(delivery).drop_last() =~= deliveries);
    assert(deliveries.push(delivery).last() == delivery);
}

/// A text to one user moves nobody else, and leaves the user the entry with the
/// connections that keep their place.
pub proof fn law_a_text_to_one_user_moves_nobody_else(
    connections: Map<i32, Seq<(nat, nat)>>,
    user_id: i32,
    deliveries: Seq<Delivery>,
    other: i32,
)
    requires
        other != user_id,
    ensures
        ({
            let after = crate::ws::after_delivery(connections, user_id, deliveries);
            &&& after.contains_key(user_id) == connections.contains_key(user_id)
            &&& connections.contains_key(user_id) ==> after[user_id] == crate::ws::kept(
                connections[user_id],
                deliveries,
            )
            &&& after.contains_key(other) == connections.contains_key(other)
            &&& connections.contains_key(other) ==> after[other] == connections[other]
        }),
{
}

/// A text is offered to each connection of a row once, in order, and to its own
/// queue.
pub proof fn law_texts_are_offered_in_order(
    deliveries: Seq<Delivery>,
    row: Seq<(nat, nat)>,
    text: Seq<char>,
    i: int,
)
    requires
        crate::ws::offered(deliveries, row, text),
        0 <= i < row.len(),
    ensures
        crate::ws::offers(deliveries).len() == row.len(),
        crate::ws::offers(deliveries)[i] == Offer::Frame(row[i].0, FrameView::Text(text)),
{
    assert(deliveries[i].to() == row[i].0);
}

/// What is handed out in a row of receipts is what each of them is for.
pub proof fn law_receipts_tell_what_was_handed_out(
    fanouts: Seq<Fanout>,
    fanout: Fanout,
    signals: Seq<Signal>,
    announcement: Vec<Fanout>,
    i: int,
)
    ensures
        crate::ws::all_offers(Seq::empty()).len() == 0,
        crate::ws::all_offers(fanouts.push(fanout)) == crate::ws::all_offers(fanouts)
            + crate::ws::offers(fanout.deliveries@),
        crate::ws::signal_offers(signals).len() == signals.len(),
        0 <= i < signals.len() ==> crate::ws::signal_offers(signals)[i] == Offer::Signal(
            signals[i].to(),
            signals[i].content(),
        ),
        crate::ws::announced_offers(None).len() == 0,
        crate::ws::announced_offers(Some(announcement)) == crate::ws::all_offers(announcement@),
{
    assert(fanouts.push(fanout).drop_last() =~= fanouts);
}

/// Each connection of a row is told to close, by its own signal.
pub proof fn law_signals_reach_each_connection(signals: Seq<Signal>, row: Seq<(nat, nat)>, i: int)
    requires
        crate::ws::all_signalled(signals, row),
        0 <= i < row.len(),
    ensures
        crate::ws::signal_offers(signals).len() == row.len(),
        crate::ws::signal_offers(signals)[i] == Offer::Signal(row[i].1, true),
{
    assert(signals[i].to() == row[i].1);
}

proof fn lemma_fanouts_hold_their_offers(fanouts: Seq<Fanout>, i: int, k: int)
    requires
        0 <= i < fanouts.len(),
        0 <= k < fanouts[i].deliveries@.len(),
    ensures
        crate::ws::all_offers(fanouts).contains(fanouts[i].deliveries@[k].offer()),
    decreases fanouts.len(),
{
    let front = crate::ws::all_offers(fanouts.drop_last());
    let last = crate::ws::offers(fanouts.last().deliveries@);
    let all = crate::ws::all_offers(fanouts);
    let offer = fanouts[i].deliveries@[k].offer();
    if i < fanouts.len() - 1 {
        lemma_fanouts_hold_their_offers(fanouts.drop_last(), i, k);
        let j = choose|j: int| 0 <= j < front.len() && front[j] == offer;
        assert(all[j] == offer);
    } else {
        assert(last[k] == offer);
        assert(all[front.len() + k] == offer);
    }
}

/// A broadcast is offered to each connection of each user, by one fanout for
/// each user: every one of them gets the text, users keep their entry, and
/// only connections without a receiver lose their place.
pub proof fn law_broadcasts_reach_everybody(
    before: Map<i32, Seq<(nat, nat)>>,
    after: Map<i32, Seq<(nat, nat)>>,
    fanouts: Seq<Fanout>,
    text: Seq<char>,
    user_id: i32,
    k: int,
)
    requires
        crate::ws::broadcast_done(before, after, fanouts, text),
    ensures
        after.contains_key(user_id) == before.contains_key(user_id),
        before.contains_key(user_id) ==> exists|i: int|
            0 <= i < fanouts.len() && #[trigger] is_only_fanout(fanouts, i, user_id)
                && fanouts[i].deliveries@.len() == before[user_id].len() && after[user_id]
                == crate::ws::kept(before[user_id], fanouts[i].deliveries@),
        before.contains_key(user_id) && 0 <= k < before[user_id].len() ==> crate::ws::all_offers(
            fanouts,
        ).contains(Offer::Frame(before[user_id][k].0, FrameView::Text(text))),
{
    assert(after.dom().contains(user_id) == before.dom().contains(user_id));
    if before.contains_key(user_id) {
        let i = choose|i: int|
            0 <= i < fanouts.len() && #[trigger] crate::ws::serves(fanouts[i], user_id);
        assert(fanouts[i].user_id == user_id);
        assert(crate::ws::offered(fanouts[i].deliveries@, before[user_id], text));
        assert forall|j: int| 0 <= j < fanouts.len() && j != i implies (
        #[trigger] fanouts[j]).user_id != user_id by {
            if j < i {
                assert(fanouts[j].user_id != fanouts[i].user_id);
            } else {
                assert(fanouts[i].user_id != fanouts[j].user_id);
            }
        }
        assert(is_only_fanout(fanouts, i, user_id));
        if 0 <= k < before[user_id].len() {
            assert(fanouts[i].deliveries@[k].to() == before[user_id][k].0);
            lemma_fanouts_hold_their_offers(fanouts, i, k);
        }
    }
}

/// A fanout is the only one of its user.
pub open spec fn is_only_fanout(fanouts: Seq<Fanout>, i: int, user_id: i32) -> bool {
    &&& fanouts[i].user_id == user_id
    &&& forall|j: int|
        0 <= j < fanouts.len() && j != i ==> (#[trigger] fanouts[j]).user_id != user_id
}

/// Nobody but users with an entry is served by a broadcast.
pub proof fn law_broadcasts_reach_nobody_else(
    before: Map<i32, Seq<(nat, nat)>>,
    after: Map<i32, Seq<(nat, nat)>>,
    fanouts: Seq<Fanout>,
    text: Seq<char>,
    i: int,
    k: int,
)
    requires
        crate::ws::broadcast_done(before, after, fanouts, text),
        0 <= i < fanouts.len(),
        0 <= k < fanouts[i].deliveries@.len(),
    ensures
        before.contains_key(fanouts[i].user_id),
        k < before[fanouts[i].user_id].len(),
        fanouts[i].deliveries@[k].to() == before[fanouts[i].user_id][k].0,
        fanouts[i].deliveries@[k].content() == FrameView::Text(text),
{
    assert(crate::ws::offered(fanouts[i].deliveries@, before[fanouts[i].user_id], text));
}

// ---------------------------------------------------------------------------
// Presence.
// ---------------------------------------------------------------------------
/// Where a user comes online, every connection of everybody hears that this
/// user is online, the new connection included.
pub proof fn law_everybody_hears_of_an_arrival(
    before: WsState,
    after: WsState,
    user_id: i32,
    queue: nat,
    signal: nat,
    arrival: Arrival,
    other: i32,
    k: int,
)
    requires
        crate::ws::arrived(before, after, user_id, queue, signal, arrival),
        !before.connections().contains_key(user_id) || before.connections()[user_id].len() == 0,
    ensures
        ({
            let frame = FrameView::Text(
                "{\"type\":\"user_online\",\"user_id\":"@ + crate::text::signed_decimal(
                    user_id as int,
                ) + seq!['}'],
            );
            &&& after.history().contains(Offer::Frame(queue, frame))
            &&& other != user_id && before.connections().contains_key(other) && 0 <= k
                < before.connections()[other].len() ==> after.history().contains(
                Offer::Frame(before.connections()[other][k].0, frame),
            )
        }),
{
    crate::message_laws::law_online_names_the_user(user_id, user_id);
    let text = crate::ws::online_text(user_id);
    let counted = crate::ws::joined(before.connections(), user_id, queue, signal);
    let fanouts = arrival.announcement->0@;
    let first = before.history().push(arrival.confirmation.offer());
    law_broadcasts_reach_everybody(
        counted,
        after.connections(),
        fanouts,
        text,
        user_id,
        counted[user_id].len() - 1,
    );
    law_broadcasts_reach_everybody(counted, after.connections(), fanouts, text, other, k);
    assert(counted[user_id][counted[user_id].len() - 1].0 == queue);
    lemma_contained_behind(first, crate::ws::all_offers(fanouts), after.history());
}

proof fn lemma_contained_behind(front: Seq<Offer>, back: Seq<Offer>, whole: Seq<Offer>)
    requires
        whole == front + back,
    ensures
        forall|offer: Offer| #[trigger] back.contains(offer) ==> whole.contains(offer),
{
    assert forall|offer: Offer| #[trigger] back.contains(offer) implies whole.contains(offer) by {
        let j = choose|j: int| 0 <= j < back.len() && back[j] == offer;
        assert(whole[front.len() + j] == offer);
    }
}

/// Where a user goes offline, every connection of everybody else hears that
/// this user is offline; where not, nothing is handed out.
pub proof fn law_everybody_hears_of_a_departure(
    before: WsState,
    after: WsState,
    user_id: i32,
    queue: nat,
    announcement: Option<Vec<Fanout>>,
    other: i32,
    k: int,
    i: int,
)
    requires
        crate::ws::departed(before, after, user_id, queue, announcement),
        other != user_id,
    ensures
        ({
            let text = "{\"type\":\"user_offline\",\"user_id\":"@ + crate::text::signed_decimal(
                user_id as int,
            ) + seq!['}'];
            let gone = before.connections().contains_key(user_id) && (forall|j: int|
                0 <= j < before.connections()[user_id].len() ==> (
                #[trigger] before.connections()[user_id][j]).0 == queue);
            &&& gone && before.connections().contains_key(other) && 0 <= k
                < before.connections()[other].len() ==> after.history().contains(
                Offer::Frame(before.connections()[other][k].0, FrameView::Text(text)),
            )
            &&& before.history().len() <= i < after.history().len() ==> gone
                && crate::ws_laws::is_text_offer(after.history()[i], text)
            &&& gone ==> !after.connections().contains_key(user_id)
            &&& !gone ==> after.history() == before.history()
        }),
{
    crate::message_laws::law_offline_names_the_user(user_id, user_id);
    let text = crate::ws::offline_text(user_id);
    let remaining = crate::ws::left(before.connections(), user_id, queue);
    law_a_leave_takes_its_connections(before.connections(), user_id, queue, other);
    if announcement is Some {
        let fanouts = announcement->0@;
        law_broadcasts_reach_everybody(remaining, after.connections(), fanouts, text, other, k);
        law_broadcasts_reach_everybody(remaining, after.connections(), fanouts, text, user_id, 0);
        lemma_contained_behind(before.history(), crate::ws::all_offers(fanouts), after.history());
        if before.history().len() <= i < after.history().len() {
            crate::ws_laws::lemma_broadcasts_offer_the_text(
                remaining,
                after.connections(),
                fanouts,
                text,
                i - before.history().len(),
            );
        }
    } else {
        assert(after.history() =~= before.history());
    }
}

} // verus!
