//! What holds of a single request at the rate limiter, and of the client that
//! it counts for.
use crate::address::IpAddress;
use crate::clock::Instant;
use crate::rate_limit::LimiterState;
use axum::http::HeaderMap;
use std::collections::VecDeque;
use vstd::prelude::*;

verus! {

// ---------------------------------------------------------------------------
// The client behind a request.
// ---------------------------------------------------------------------------
/// Where the peer is the host itself, the address in `x-real-ip` is the client,
/// of whichever family it is and whatever `x-forwarded-for` says.
pub proof fn law_the_real_address_is_the_client(
    peer: IpAddress,
    left: Seq<char>,
    notation: Seq<char>,
    right: Seq<char>,
    forwarded: Option<Seq<char>>,
    address: IpAddress,
)
    requires
        peer.loopback(),
        crate::text_laws::is_blank(left),
        crate::text_laws::is_tight(notation),
        crate::text_laws::is_blank(right),
        crate::address::ip_address_of(notation) == Some(address),
    ensures
        crate::rate_limit::client_named(peer, Some(left + notation + right), forwarded) == address,
{
    crate::text_laws::law_trimming_keeps_the_core(left, notation, right);
}

/// The address that a text names, once the white space around it is gone, is
/// the client where it stands in `x-real-ip`; where none is named there, the
/// address behind the last comma of `x-forwarded-for` is; where none is named
/// there either, the peer is. Both families count alike.
pub proof fn law_forwarding_headers_name_the_client(
    peer: IpAddress,
    real_ip: Option<Seq<char>>,
    hops: Seq<char>,
    last: Seq<char>,
    address: IpAddress,
)
    requires
        peer.loopback(),
        !last.contains(','),
    ensures
        real_ip is Some && crate::address::ip_address_of(crate::text::trimmed(real_ip->0)) == Some(
            address,
        ) ==> crate::rate_limit::client_named(peer, real_ip, None) == address
            && crate::rate_limit::client_named(peer, real_ip, Some(last)) == address
            && crate::rate_limit::client_named(peer, real_ip, Some(hops + seq![','] + last))
            == address,
        (real_ip is None || crate::address::ip_address_of(crate::text::trimmed(real_ip->0)) is None)
            && crate::address::ip_address_of(crate::text::trimmed(last)) == Some(address)
            ==> crate::rate_limit::client_named(peer, real_ip, Some(hops + seq![','] + last))
            == address && crate::rate_limit::client_named(peer, real_ip, Some(last)) == address,
        (real_ip is None || crate::address::ip_address_of(crate::text::trimmed(real_ip->0)) is None)
            && crate::address::ip_address_of(crate::text::trimmed(last)) is None
            ==> crate::rate_limit::client_named(peer, real_ip, Some(hops + seq![','] + last))
            == peer && crate::rate_limit::client_named(peer, real_ip, Some(last)) == peer,
        (real_ip is None || crate::address::ip_address_of(crate::text::trimmed(real_ip->0)) is None)
            ==> crate::rate_limit::client_named(peer, real_ip, None) == peer,
{
    crate::text::lemma_split_without_separator(last, ',');
    crate::text::lemma_split_join(hops, last, ',');
    let parts = crate::text::split(hops + seq![','] + last, ',');
    assert(parts.last() == last);
    assert(seq![last].last() == last);
}

/// A peer elsewhere is the client itself, whatever the two headers say.
pub proof fn law_remote_peers_are_the_client(
    peer: IpAddress,
    real_ip: Option<Seq<char>>,
    forwarded: Option<Seq<char>>,
)
    requires
        !peer.loopback(),
    ensures
        crate::rate_limit::client_named(peer, real_ip, forwarded) == peer,
{
}

/// The two headers are `x-real-ip` and `x-forwarded-for`.
pub proof fn law_two_headers_name_the_client(peer: IpAddress, headers: HeaderMap)
    ensures
        ({
            let texts = crate::headers::header_texts(headers);
            crate::rate_limit::client_of(peer, headers) == crate::rate_limit::client_named(
                peer,
                if texts.contains_key("x-real-ip"@) {
                    Some(texts["x-real-ip"@])
                } else {
                    None
                },
                if texts.contains_key("x-forwarded-for"@) {
                    Some(texts["x-forwarded-for"@])
                } else {
                    None
                },
            )
        }),
{
}

// ---------------------------------------------------------------------------
// Single requests.
// ---------------------------------------------------------------------------
/// Time passes from the earlier instant to the later one, and none passes
/// backwards.
pub proof fn law_time_passes_forwards(earlier: Instant, later: Instant)
    requires
        earlier.nanos <= later.nanos,
    ensures
        earlier.nanos + crate::clock::elapsed(later, earlier) == later.nanos,
        crate::clock::elapsed(earlier, later) == 0,
{
}

/// A request leaves the window once as much time has passed as the window is
/// long, and not before.
pub proof fn law_requests_leave_the_window(time: Instant, now: Instant, window: nat)
    ensures
        crate::rate_limit::expired(time, now, window) <==> window == 0 || now.nanos - time.nanos
            >= window,
{
}

/// Forgetting the requests at the front that have left the window stops at the
/// first one that has not.
pub proof fn law_the_front_is_forgotten(
    stale: Seq<Instant>,
    rest: Seq<Instant>,
    now: Instant,
    window: nat,
)
    requires
        forall|i: int|
            0 <= i < stale.len() ==> window == 0 || now.nanos - (#[trigger] stale[i]).nanos
                >= window,
        rest.len() > 0 ==> window > 0 && now.nanos - rest[0].nanos < window,
    ensures
        crate::rate_limit::drop_expired(stale + rest, now, window) == rest,
    decreases stale.len(),
{
    if stale.len() == 0 {
        assert(stale + rest =~= rest);
    } else {
        assert((stale + rest)[0] == stale[0]);
        assert((stale + rest).drop_first() =~= stale.drop_first() + rest);
        assert forall|i: int| 0 <= i < stale.drop_first().len() implies window == 0 || now.nanos - (
        #[trigger] stale.drop_first()[i]).nanos >= window by {
            assert(stale.drop_first()[i] == stale[i + 1]);
        }
        law_the_front_is_forgotten(stale.drop_first(), rest, now, window);
    }
}

/// A sweep keeps exactly the requests inside the window, in order, and drops
/// the clients that are left with none.
pub proof fn law_sweeps_keep_what_is_fresh(
    a: Seq<Instant>,
    b: Seq<Instant>,
    time: Instant,
    requests: Map<IpAddress, Seq<Instant>>,
    client: IpAddress,
    now: Instant,
    window: nat,
)
    ensures
        crate::rate_limit::fresh(a + b, now, window) == crate::rate_limit::fresh(a, now, window)
            + crate::rate_limit::fresh(b, now, window),
        crate::rate_limit::fresh(seq![time], now, window) == (if window > 0 && now.nanos
            - time.nanos < window {
            seq![time]
        } else {
            Seq::empty()
        }),
        crate::rate_limit::swept(requests, now, window).contains_key(client) <==> (
        requests.contains_key(client) && crate::rate_limit::fresh(
            requests[client],
            now,
            window,
        ).len() > 0),
        crate::rate_limit::swept(requests, now, window).contains_key(client)
            ==> crate::rate_limit::swept(requests, now, window)[client] == crate::rate_limit::fresh(
            requests[client],
            now,
            window,
        ),
{
    let inside = |time: Instant| !crate::rate_limit::expired(time, now, window);
    Seq::filter_distributes_over_add(a, b, inside);
    reveal(Seq::filter);
    assert(seq![time].drop_last() =~= Seq::<Instant>::empty());
    assert(seq![time].drop_last().filter(inside) =~= Seq::<Instant>::empty());
    assert(seq![time].last() == time);
    assert(crate::rate_limit::fresh(seq![time], now, window) =~= if inside(time) {
        seq![time]
    } else {
        Seq::empty()
    });
}

/// A client whose requests inside the window are fewer than the limit is
/// admitted and the request is remembered; otherwise it is not, and the wait
/// ends when its oldest request leaves the window, which is a whole window
/// where the clock has run backwards since. The limit and the window never
/// change.
pub proof fn law_a_request_is_counted_or_refused(
    state: LimiterState,
    address: IpAddress,
    now: Instant,
)
    ensures
        ({
            let counted = state.counted(address, now);
            let after = state.after(address, now);
            &&& after.max_requests == state.max_requests
            &&& after.window == state.window
            &&& after.requests.contains_key(address)
            &&& state.admits(address, now) <==> counted.len() < state.max_requests
            &&& counted.len() < state.max_requests ==> after.requests[address].len()
                == counted.len() + 1 && after.requests[address].drop_last() == counted
                && after.requests[address].last() == now
            &&& counted.len() >= state.max_requests ==> after.requests[address] == counted
            &&& counted.len() >= state.max_requests && counted.len() > 0 && counted[0].nanos
                <= now.nanos && now.nanos - counted[0].nanos <= state.window ==> now.nanos
                + state.wait(address, now) == counted[0].nanos + state.window
            &&& counted.len() >= state.max_requests && counted.len() > 0 && counted[0].nanos
                > now.nanos ==> state.wait(address, now) == state.window
        }),
{
    let counted = state.counted(address, now);
    assert(counted.push(now).drop_last() =~= counted);
}

/// The requests of a client that count are those it is remembered for, swept
/// where a whole window has passed since the last sweep, without those at the
/// front that have left the window; the other clients are swept at the same
/// time, and only then.
pub proof fn law_sweeps_come_once_a_window(
    state: LimiterState,
    address: IpAddress,
    other: IpAddress,
    now: Instant,
)
    requires
        address != other,
    ensures
        ({
            let due = state.window == 0 || now.nanos - state.last_sweep.nanos >= state.window;
            let swept = crate::rate_limit::swept(state.requests, now, state.window);
            let after = state.after(address, now);
            let held = if due {
                swept
            } else {
                state.requests
            };
            &&& due ==> after.last_sweep == now
            &&& !due ==> after.last_sweep == state.last_sweep
            &&& after.requests.contains_key(other) == held.contains_key(other)
            &&& held.contains_key(other) ==> after.requests[other] == held[other]
            &&& held.contains_key(address) ==> state.counted(address, now)
                == crate::rate_limit::drop_expired(held[address], now, state.window)
            &&& !held.contains_key(address) ==> state.counted(address, now).len() == 0
        }),
{
}

/// A limiter starts with nobody remembered and with the limit and the window
/// that it was made with.
pub proof fn law_limiters_start_empty(max_requests: nat, window: nat, now: Instant)
    ensures
        ({
            let state = LimiterState::fresh(max_requests, window, now);
            &&& forall|address: IpAddress| !#[trigger] state.requests.contains_key(address)
            &&& state.last_sweep == now
            &&& state.max_requests == max_requests
            &&& state.window == window
        }),
{
}

/// The tables of the two families hold the clients of both, each under its own
/// address.
pub proof fn law_both_families_are_remembered(
    v4: Map<u32, VecDeque<Instant>>,
    v6: Map<u128, VecDeque<Instant>>,
    short: u32,
    long: u128,
)
    ensures
        ({
            let both = crate::rate_limit::both_families(
                crate::rate_limit::tabled(v4),
                crate::rate_limit::tabled(v6),
            );
            &&& both.contains_key(IpAddress::V4(short)) == v4.contains_key(short)
            &&& both.contains_key(IpAddress::V6(long)) == v6.contains_key(long)
            &&& v4.contains_key(short) ==> both[IpAddress::V4(short)] == v4[short]@
            &&& v6.contains_key(long) ==> both[IpAddress::V6(long)] == v6[long]@
        }),
{
}

/// The seconds that a refused client is told are its wait, rounded up to whole
/// seconds, and one where there is no wait.
pub proof fn law_waits_are_rounded_up(seconds: nat, rest: nat)
    requires
        rest < 1_000_000_000,
    ensures
        crate::rate_limit::whole_seconds(0) == 1,
        seconds > 0 ==> crate::rate_limit::whole_seconds(seconds * 1_000_000_000) == seconds,
        rest > 0 ==> crate::rate_limit::whole_seconds(seconds * 1_000_000_000 + rest) == seconds
            + 1,
        crate::rate_limit::TOO_MANY_REQUESTS@ == "Too many requests. Try again later."@,
{
}

} // verus!
