//! Sliding-window rate limiting per client address.
use crate::address::parse_ip_address;
use crate::address::IpAddress;
use crate::clock::Duration;
use crate::clock::Instant;
use crate::clock::NANOS_PER_SECOND;
use crate::headers::header_text;
use crate::status::Status;
use crate::text::split_at_each;
use crate::text::trim;
use axum::http::HeaderMap;
use std::collections::HashMap;
use std::collections::VecDeque;
use std::hash::Hash;
use vstd::prelude::*;

verus! {

/// Admits a bounded number of requests per client within a sliding window.
pub struct RateLimiter {
    /// The admitted requests of each IPv4 client, oldest first.
    v4: HashMap<u32, VecDeque<Instant>>,
    /// The admitted requests of each IPv6 client, oldest first.
    v6: HashMap<u128, VecDeque<Instant>>,
    last_sweep: Instant,
    max_requests: usize,
    window: Duration,
}

/// What a limiter remembers.
#[verifier::ext_equal]
pub struct LimiterState {
    /// The admitted requests of each client, oldest first.
    pub requests: Map<IpAddress, Seq<Instant>>,
    /// When stale clients were last forgotten.
    pub last_sweep: Instant,
    /// How many requests one window may hold.
    pub max_requests: nat,
    /// The length of the window in nanoseconds.
    pub window: nat,
}

impl LimiterState {
    /// A limiter that has admitted nothing.
    pub open spec fn fresh(max_requests: nat, window: nat, now: Instant) -> LimiterState {
        LimiterState { requests: Map::empty(), last_sweep: now, max_requests, window }
    }
}

/// A request has left the window.
pub open spec fn expired(time: Instant, now: Instant, window: nat) -> bool {
    crate::clock::elapsed(now, time) >= window
}

/// The requests that are still inside the window.
pub open spec fn fresh(times: Seq<Instant>, now: Instant, window: nat) -> Seq<Instant> {
    times.filter(|time: Instant| !expired(time, now, window))
}

/// The requests without those at the front that have left the window.
pub open spec fn drop_expired(times: Seq<Instant>, now: Instant, window: nat) -> Seq<Instant>
    decreases times.len(),
{
    if times.len() > 0 && expired(times[0], now, window) {
        drop_expired(times.drop_first(), now, window)
    } else {
        times
    }
}

/// The requests of all clients after those outside the window, and the clients
/// left with none, have been forgotten.
pub open spec fn swept<K>(
    requests: Map<K, Seq<Instant>>,
    now: Instant,
    window: nat,
) -> Map<K, Seq<Instant>> {
    Map::new(
        |client: K|
            requests.contains_key(client) && fresh(requests[client], now, window).len() > 0,
        |client: K| fresh(requests[client], now, window),
    )
}

/// The requests of one client; none where the client is unknown.
pub open spec fn requests_of<K>(requests: Map<K, Seq<Instant>>, client: K) -> Seq<Instant> {
    if requests.contains_key(client) {
        requests[client]
    } else {
        Seq::empty()
    }
}

impl LimiterState {
    /// A whole window has passed since the last sweep.
    pub open spec fn sweeps_at(self, now: Instant) -> bool {
        crate::clock::elapsed(now, self.last_sweep) >= self.window
    }

    /// The requests of all clients once the sweep that is due at `now` is done.
    pub open spec fn requests_at(self, now: Instant) -> Map<IpAddress, Seq<Instant>> {
        if self.sweeps_at(now) {
            swept(self.requests, now, self.window)
        } else {
            self.requests
        }
    }

    /// The requests of one client that count against it at `now`.
    pub open spec fn counted(self, address: IpAddress, now: Instant) -> Seq<Instant> {
        drop_expired(requests_of(self.requests_at(now), address), now, self.window)
    }

    /// A request of `address` at `now` is admitted.
    pub open spec fn admits(self, address: IpAddress, now: Instant) -> bool {
        self.counted(address, now).len() < self.max_requests
    }

    /// How many nanoseconds a refused request has to wait.
    pub open spec fn wait(self, address: IpAddress, now: Instant) -> nat {
        let passed = crate::clock::elapsed(now, self.counted(address, now)[0]);
        if self.window >= passed {
            (self.window - passed) as nat
        } else {
            0
        }
    }

    /// What the limiter remembers after a request of `address` at `now`.
    pub open spec fn after(self, address: IpAddress, now: Instant) -> LimiterState {
        let counted = self.counted(address, now);
        LimiterState {
            requests: self.requests_at(now).insert(
                address,
                if self.admits(address, now) {
                    counted.push(now)
                } else {
                    counted
                },
            ),
            last_sweep: if self.sweeps_at(now) {
                now
            } else {
                self.last_sweep
            },
            ..self
        }
    }
}

/// The requests that a table of queues holds.
pub open spec fn tabled<K>(queues: Map<K, VecDeque<Instant>>) -> Map<K, Seq<Instant>> {
    queues.map_values(|times: VecDeque<Instant>| times@)
}

/// The requests of the clients of both families.
pub open spec fn both_families(
    v4: Map<u32, Seq<Instant>>,
    v6: Map<u128, Seq<Instant>>,
) -> Map<IpAddress, Seq<Instant>> {
    Map::new(
        |address: IpAddress|
            match address {
                IpAddress::V4(bits) => v4.contains_key(bits),
                IpAddress::V6(bits) => v6.contains_key(bits),
            },
        |address: IpAddress|
            match address {
                IpAddress::V4(bits) => v4[bits],
                IpAddress::V6(bits) => v6[bits],
            },
    )
}

fn keep_fresh(times: &VecDeque<Instant>, now: Instant, window: Duration) -> (r: VecDeque<Instant>)
    ensures
        r@ == fresh(times@, now, window.nanos as nat),
{
    let mut kept: VecDeque<Instant> = VecDeque::new();
    let mut i: usize = 0;
    let ghost inside = |time: Instant| !expired(time, now, window.nanos as nat);
    assert(times@.take(0).filter(inside) =~= Seq::empty()) by {
        reveal(Seq::filter);
    }
    while i < times.len()
        invariant
            i <= times.len(),
            inside == (|time: Instant| !expired(time, now, window.nanos as nat)),
            kept@ == times@.take(i as int).filter(inside),
        decreases times.len() - i,
    {
        let time: Instant = times[i];
        proof {
            reveal(Seq::filter);
            assert(times@.take(i + 1).drop_last() =~= times@.take(i as int));
            assert(times@.take(i + 1).last() == time);
        }
        if now.saturating_duration_since(time).nanos < window.nanos {
            assert(inside(time));
            kept.push_back(time);
        } else {
            assert(!inside(time));
        }
        i = i + 1;
    }
    assert(times@.take(times@.len() as int) =~= times@);
    kept
}

fn expire_front(times: &mut VecDeque<Instant>, now: Instant, window: Duration)
    ensures
        final(times)@ == drop_expired(old(times)@, now, window.nanos as nat),
{
    while times.len() > 0 && now.saturating_duration_since(times[0]).nanos >= window.nanos
        invariant
            drop_expired(times@, now, window.nanos as nat) == drop_expired(
                old(times)@,
                now,
                window.nanos as nat,
            ),
        decreases times@.len(),
    {
        let ghost before = times@;
        let _ = times.pop_front();
        assert(times@ =~= before.drop_first());
    }
}

fn clients<K: Copy + Eq + Hash>(queues: &HashMap<K, VecDeque<Instant>>) -> (r: Vec<K>)
    requires
        vstd::std_specs::hash::obeys_key_model::<K>(),
    ensures
        r@.no_duplicates(),
        forall|client: K| #[trigger] r@.contains(client) <==> queues@.contains_key(client),
{
    let mut out: Vec<K> = Vec::new();
    for client in it: queues.keys()
        invariant
            out@ == it.seq().unref().take(it.index()),
    {
        out.push(*client);
        assert(out@ =~= it.seq().unref().take(it.index() + 1));
    }
    proof {
        let keys = vstd::std_specs::iter::IteratorSpec::remaining(
            &vstd::std_specs::hash::spec_keys_iter(queues),
        );
        assert(out@ =~= keys.unref());
        assert(keys.unref().to_set() == queues@.dom());
        assert forall|client: K| #[trigger] out@.contains(client) <==> queues@.contains_key(
            client,
        ) by {
            assert(out@.to_set().contains(client) == queues@.dom().contains(client));
        }
    }
    out
}

fn sweep<K: Copy + Eq + Hash>(
    queues: &mut HashMap<K, VecDeque<Instant>>,
    now: Instant,
    window: Duration,
)
    requires
        vstd::std_specs::hash::obeys_key_model::<K>(),
    ensures
        tabled(final(queues)@) == swept(tabled(old(queues)@), now, window.nanos as nat),
{
    let everybody: Vec<K> = clients(queues);
    let ghost before = queues@;
    let ghost width = window.nanos as nat;
    let mut i: usize = 0;
    assert forall|j: int| 0 <= j < everybody@.len() implies queues@.contains_key(
        #[trigger] everybody@[j],
    ) by {
        assert(everybody@.contains(everybody@[j]));
    }
    while i < everybody.len()
        invariant
            vstd::std_specs::hash::obeys_key_model::<K>(),
            width == window.nanos as nat,
            before == old(queues)@,
            i <= everybody@.len(),
            everybody@.no_duplicates(),
            forall|client: K| #[trigger] everybody@.contains(client) <==> before.contains_key(
                client,
            ),
            forall|client: K| #[trigger] queues@.contains_key(client) ==> before.contains_key(
                client,
            ),
            forall|j: int|
                0 <= j < i ==> {
                    let client = #[trigger] everybody@[j];
                    let kept = fresh(before[client]@, now, width);
                    &&& queues@.contains_key(client) <==> kept.len() > 0
                    &&& kept.len() > 0 ==> queues@[client]@ == kept
                },
            forall|j: int|
                i <= j < everybody@.len() ==> queues@.contains_key(#[trigger] everybody@[j])
                    && queues@[everybody@[j]] == before[everybody@[j]],
        decreases everybody@.len() - i,
    {
        let client: K = everybody[i];
        assert(everybody@.contains(client));
        let ghost earlier = queues@;
        match queues.remove(&client) {
            Some(times) => {
                let kept: VecDeque<Instant> = keep_fresh(&times, now, window);
                if kept.len() > 0 {
                    let _ = queues.insert(client, kept);
                }
            },
            None => {},
        }
        assert forall|j: int| 0 <= j < everybody@.len() && j != i implies {
            let other = #[trigger] everybody@[j];
            &&& queues@.contains_key(other) == earlier.contains_key(other)
            &&& queues@.contains_key(other) ==> queues@[other] == earlier[other]
        } by {
            assert(everybody@[j] != everybody@[i as int]);
        }
        i = i + 1;
    }
    proof {
        let left = tabled(queues@);
        let expected = swept(tabled(before), now, width);
        assert forall|client: K| #[trigger] left.contains_key(client) == expected.contains_key(
            client,
        ) && (left.contains_key(client) ==> left[client] == expected[client]) by {
            if before.contains_key(client) {
                assert(everybody@.contains(client));
                let j = choose|j: int| 0 <= j < everybody@.len() && everybody@[j] == client;
                assert(everybody@[j] == client);
            }
        }
        assert(left.dom() =~= expected.dom());
        assert(left =~= expected);
    }
}

fn count<K: Copy + Eq + Hash>(
    queues: &mut HashMap<K, VecDeque<Instant>>,
    client: K,
    now: Instant,
    window: Duration,
    max_requests: usize,
) -> (r: Result<(), Duration>)
    requires
        vstd::std_specs::hash::obeys_key_model::<K>(),
        max_requests > 0,
    ensures
        ({
            let counted = drop_expired(
                requests_of(tabled(old(queues)@), client),
                now,
                window.nanos as nat,
            );
            &&& tabled(final(queues)@) == tabled(old(queues)@).insert(
                client,
                if counted.len() < max_requests {
                    counted.push(now)
                } else {
                    counted
                },
            )
            &&& match r {
                Ok(()) => counted.len() < max_requests,
                Err(wait) => counted.len() >= max_requests && wait.nanos == (
                if window.nanos >= crate::clock::elapsed(now, counted[0]) {
                    window.nanos - crate::clock::elapsed(now, counted[0])
                } else {
                    0
                }),
            }
        }),
{
    let ghost before = queues@;
    let mut times: VecDeque<Instant> = match queues.remove(&client) {
        Some(times) => times,
        None => VecDeque::new(),
    };
    assert(times@ =~= requests_of(tabled(before), client));
    expire_front(&mut times, now, window);
    let answer: Result<(), Duration> = if times.len() >= max_requests {
        Err(window.saturating_sub(now.saturating_duration_since(times[0])))
    } else {
        times.push_back(now);
        Ok(())
    };
    let ghost counted = times@;
    let _ = queues.insert(client, times);
    assert(tabled(queues@) =~= tabled(before).insert(client, counted));
    answer
}

impl RateLimiter {
    /// What the limiter remembers.
    pub closed spec fn state(&self) -> LimiterState {
        LimiterState {
            requests: both_families(tabled(self.v4@), tabled(self.v6@)),
            last_sweep: self.last_sweep,
            max_requests: self.max_requests as nat,
            window: self.window.nanos as nat,
        }
    }

    /// A limiter that has admitted nothing; `now` counts as its last sweep.
    pub fn new(max_requests: usize, window: Duration, now: Instant) -> (r: RateLimiter)
        ensures
            r.state() == LimiterState::fresh(max_requests as nat, window.nanos as nat, now),
    {
        let limiter = RateLimiter {
            v4: HashMap::new(),
            v6: HashMap::new(),
            last_sweep: now,
            max_requests,
            window,
        };
        assert(limiter.state().requests =~= Map::empty());
        limiter
    }

    /// The most requests that one window may hold.
    pub fn max_requests(&self) -> (r: usize)
        ensures
            r == self.state().max_requests,
    {
        self.max_requests
    }

    /// Whether the limiter remembers `address`.
    pub fn remembers(&self, address: IpAddress) -> (r: bool)
        ensures
            r == self.state().requests.contains_key(address),
    {
        match address {
            IpAddress::V4(bits) => self.v4.contains_key(&bits),
            IpAddress::V6(bits) => self.v6.contains_key(&bits),
        }
    }

    /// Counts a request of `address` at `now`: admits it, or says how long the
    /// client has to wait.
    pub fn check_at(&mut self, address: IpAddress, now: Instant) -> (r: Result<(), Duration>)
        requires
            old(self).state().max_requests > 0,
        ensures
            final(self).state() == old(self).state().after(address, now),
            match r {
                Ok(()) => old(self).state().admits(address, now),
                Err(wait) => !old(self).state().admits(address, now) && wait.nanos
                    == old(self).state().wait(address, now),
            },
    {
        let ghost start = self.state();
        if now.saturating_duration_since(self.last_sweep).nanos >= self.window.nanos {
            self.last_sweep = now;
            sweep(&mut self.v4, now, self.window);
            sweep(&mut self.v6, now, self.window);
        }
        assert(self.state().requests =~= start.requests_at(now));
        let answer: Result<(), Duration> = match address {
            IpAddress::V4(bits) => count(&mut self.v4, bits, now, self.window, self.max_requests),
            IpAddress::V6(bits) => count(&mut self.v6, bits, now, self.window, self.max_requests),
        };
        assert(self.state().requests =~= start.after(address, now).requests);
        answer
    }
}

/// The whole seconds that cover `nanos`, at least one.
pub open spec fn whole_seconds(nanos: nat) -> nat {
    let covering = (nanos + 999_999_999) / 1_000_000_000;
    if covering == 0 {
        1
    } else {
        covering
    }
}

/// The seconds to report to a client that has to wait: rounded up, at least
/// one, and at most what `u64` can hold.
pub fn retry_after_seconds(duration: Duration) -> (r: u64)
    ensures
        r == (if whole_seconds(duration.nanos as nat) <= u64::MAX {
            whole_seconds(duration.nanos as nat)
        } else {
            u64::MAX as nat
        }),
{
    let secs: u128 = duration.nanos / NANOS_PER_SECOND;
    let rest: u128 = duration.nanos % NANOS_PER_SECOND;
    let rounded: u128 = if rest > 0 {
        secs + 1
    } else {
        secs
    };
    if rounded == 0 {
        1
    } else if rounded > u64::MAX as u128 {
        u64::MAX
    } else {
        rounded as u64
    }
}

/// The address that a forwarding header names, once trimmed.
pub open spec fn named_address(text: Option<Seq<char>>) -> Option<IpAddress> {
    match text {
        Some(value) => crate::address::ip_address_of(crate::text::trimmed(value)),
        None => None,
    }
}

/// The last hop of a comma-separated list of hops.
pub open spec fn last_hop(text: Option<Seq<char>>) -> Option<Seq<char>> {
    match text {
        Some(value) => Some(crate::text::split(value, ',').last()),
        None => None,
    }
}

/// The client that the forwarding headers of a request name. They count only
/// where the peer is the host itself: first `x-real-ip`, then the last hop of
/// `x-forwarded-for`; where neither names an address, the peer is the client.
pub open spec fn client_named(
    peer: IpAddress,
    real_ip: Option<Seq<char>>,
    forwarded: Option<Seq<char>>,
) -> IpAddress {
    if !peer.loopback() {
        peer
    } else {
        match named_address(real_ip) {
            Some(address) => address,
            None => match named_address(last_hop(forwarded)) {
                Some(address) => address,
                None => peer,
            },
        }
    }
}

/// The client behind a request that came from `peer` with `headers`.
pub open spec fn client_of(peer: IpAddress, headers: HeaderMap) -> IpAddress {
    client_named(
        peer,
        crate::headers::header_text_of(headers, "x-real-ip"@),
        crate::headers::header_text_of(headers, "x-forwarded-for"@),
    )
}

/// The client that the texts of the two forwarding headers name.
pub fn client_from_values(
    peer_ip: IpAddress,
    real_ip: Option<&str>,
    forwarded: Option<&str>,
) -> (r: IpAddress)
    ensures
        r == client_named(
            peer_ip,
            crate::text::optional_text(real_ip),
            crate::text::optional_text(forwarded),
        ),
{
    if !peer_ip.is_loopback() {
        return peer_ip;
    }
    match real_ip {
        Some(value) => {
            match parse_ip_address(trim(value)) {
                Some(address) => {
                    return address;
                },
                None => {},
            }
        },
        None => {},
    }
    match forwarded {
        Some(value) => {
            let hops: Vec<&str> = split_at_each(value, ',');
            let last: &str = hops[hops.len() - 1];
            assert(crate::text::views(hops@).last() == last@);
            match parse_ip_address(trim(last)) {
                Some(address) => address,
                None => peer_ip,
            }
        },
        None => peer_ip,
    }
}

/// The client behind a request that came from `peer_ip` with `headers`.
pub fn client_ip(peer_ip: IpAddress, headers: &HeaderMap) -> (r: IpAddress)
    ensures
        r == client_of(peer_ip, *headers),
{
    client_from_values(
        peer_ip,
        header_text(headers, "x-real-ip"),
        header_text(headers, "x-forwarded-for"),
    )
}

/// What a refused client is told.
pub const TOO_MANY_REQUESTS: &'static str = "Too many requests. Try again later.";

/// The answer to a request that is refused: the status, the seconds for the
/// `retry-after` header and the error text.
pub struct Rejection {
    pub status: Status,
    pub retry_after: u64,
    pub error: &'static str,
}

/// Counts a request at the limiter under the client behind it, and gives the
/// answer where it is refused.
pub fn screen_request(
    limiter: &mut RateLimiter,
    peer_ip: IpAddress,
    headers: &HeaderMap,
    now: Instant,
) -> (r: Option<Rejection>)
    requires
        old(limiter).state().max_requests > 0,
    ensures
        final(limiter).state() == old(limiter).state().after(client_of(peer_ip, *headers), now),
        match r {
            None => old(limiter).state().admits(client_of(peer_ip, *headers), now),
            Some(answer) => {
                let wait = old(limiter).state().wait(client_of(peer_ip, *headers), now);
                &&& !old(limiter).state().admits(client_of(peer_ip, *headers), now)
                &&& answer.status == Status::TooManyRequests
                &&& answer.retry_after == (if whole_seconds(wait) <= u64::MAX {
                    whole_seconds(wait)
                } else {
                    u64::MAX as nat
                })
                &&& answer.error@ == TOO_MANY_REQUESTS@
            },
        },
{
    let client: IpAddress = client_ip(peer_ip, headers);
    match limiter.check_at(client, now) {
        Ok(()) => None,
        Err(wait) => Some(
            Rejection {
                status: Status::TooManyRequests,
                retry_after: retry_after_seconds(wait),
                error: TOO_MANY_REQUESTS,
            },
        ),
    }
}

/// A limiter remembers the times in its tables, each under the address that it
/// was counted for, and has the limit and the window that it was made with.
proof fn law_limiters_remember_their_tables(limiter: RateLimiter, short: u32, long: u128)
    ensures
        limiter.state().max_requests == limiter.max_requests,
        limiter.state().window == limiter.window.nanos,
        limiter.state().last_sweep == limiter.last_sweep,
        limiter.state().requests.contains_key(IpAddress::V4(short)) == limiter.v4@.contains_key(
            short,
        ),
        limiter.state().requests.contains_key(IpAddress::V6(long)) == limiter.v6@.contains_key(
            long,
        ),
        limiter.v4@.contains_key(short) ==> limiter.state().requests[IpAddress::V4(short)]
            == limiter.v4@[short]@,
        limiter.v6@.contains_key(long) ==> limiter.state().requests[IpAddress::V6(long)]
            == limiter.v6@[long]@,
{
}

} // verus!
