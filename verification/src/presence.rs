//! The map from users to their connections.
use crate::outbound::Frame;
use dashmap::DashMap;
use tokio::sync::mpsc;
use tokio::sync::watch;
use vstd::prelude::*;

verus! {

/// A connection: its outbound queue and its disconnect signal.
pub struct WsConnection {
    pub sender: mpsc::Sender<Frame>,
    pub disconnect: watch::Sender<bool>,
}

impl View for WsConnection {
    type V = (nat, nat);

    /// The queue and the signal of the connection.
    open spec fn view(&self) -> (nat, nat) {
        (crate::outbound::queue_of(self.sender), crate::outbound::signal_of(self.disconnect))
    }
}

/// The queues and signals of a row of connections.
pub open spec fn connection_views(connections: Seq<WsConnection>) -> Seq<(nat, nat)> {
    Seq::new(connections.len(), |i: int| connections[i]@)
}

/// The concurrent map of the `dashmap` crate.
#[verifier::external_type_specification]
#[verifier::external_body]
#[verifier::reject_recursive_types(K)]
#[verifier::reject_recursive_types(V)]
#[verifier::reject_recursive_types(S)]
pub struct ExDashMap<K, V, S>(DashMap<K, V, S>);

/// What a map of connections holds: the queue and the signal of each
/// connection of each user, in order.
pub uninterp spec fn registered(map: DashMap<i32, Vec<WsConnection>>) -> Map<i32, Seq<(nat, nat)>>;

/// Calls `DashMap::new`. The contract claims that the map is empty.
#[verifier::external_body]
pub(crate) fn new_map() -> (r: DashMap<i32, Vec<WsConnection>>)
    ensures
        registered(r).dom() == Set::<i32>::empty(),
{
    DashMap::new()
}

/// Calls `DashMap::remove`. The contract claims that the entry of the user is
/// gone, that the other entries stay, and that the connections of the entry
/// are handed out where there was one.
#[verifier::external_body]
pub(crate) fn take(map: &mut DashMap<i32, Vec<WsConnection>>, user_id: i32) -> (r: Option<
    Vec<WsConnection>,
>)
    ensures
        registered(*final(map)) == registered(*old(map)).remove(user_id),
        match r {
            Some(connections) => registered(*old(map)).contains_key(user_id) && registered(
                *old(map),
            )[user_id] == connection_views(connections@),
            None => !registered(*old(map)).contains_key(user_id),
        },
{
    map.remove(&user_id).map(|entry| entry.1)
}

/// Calls `DashMap::insert`. The contract claims that the user has the given
/// connections, and that the other entries stay.
#[verifier::external_body]
pub(crate) fn put(
    map: &mut DashMap<i32, Vec<WsConnection>>,
    user_id: i32,
    connections: Vec<WsConnection>,
)
    ensures
        registered(*final(map)) == registered(*old(map)).insert(
            user_id,
            connection_views(connections@),
        ),
{
    map.insert(user_id, connections);
}

/// Calls `DashMap::contains_key`. The contract claims that the outcome says
/// whether the user has an entry.
#[verifier::external_body]
pub(crate) fn has(map: &DashMap<i32, Vec<WsConnection>>, user_id: i32) -> (r: bool)
    ensures
        r == registered(*map).contains_key(user_id),
{
    map.contains_key(&user_id)
}

/// Calls `DashMap::iter` and takes the key of each entry. The contract claims
/// that every user with an entry is named once, and nobody else. The order in
/// which they are named is open.
#[verifier::external_body]
pub(crate) fn users(map: &DashMap<i32, Vec<WsConnection>>) -> (r: Vec<i32>)
    ensures
        r@.no_duplicates(),
        forall|user_id: i32| #[trigger] r@.contains(user_id) <==> registered(*map).contains_key(
            user_id,
        ),
{
    map.iter().map(|entry| *entry.key()).collect()
}

} // verus!
