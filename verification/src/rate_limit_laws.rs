//! What holds of the rate limiter over many requests.
use crate::address::IpAddress;
use crate::clock::Instant;
use crate::rate_limit::LimiterState;
use axum::http::HeaderMap;
use vstd::prelude::*;

verus! {

/// A request as the limiter sees it.
pub struct Arrival {
    pub address: IpAddress,
    pub time: Instant,
}

/// Times in the order in which they came.
pub open spec fn in_order(times: Seq<Instant>) -> bool {
    forall|i: int, j: int|
        0 <= i <= j < times.len() ==> (#[trigger] times[i]).nanos <= (#[trigger] times[j]).nanos
}

/// No time is later than `now`.
pub open spec fn up_to(times: Seq<Instant>, now: Instant) -> bool {
    forall|i: int| 0 <= i < times.len() ==> (#[trigger] times[i]).nanos <= now.nanos
}

/// The state of a limiter that has been asked up to `now` by a clock that
/// never runs backwards: every client has at most as many requests as a window
/// may hold, in order, none of them later than `now`.
pub open spec fn tidy(state: LimiterState, now: Instant) -> bool {
    &&& state.max_requests > 0
    &&& forall|address: IpAddress|
        {
            let times = #[trigger] crate::rate_limit::requests_of(state.requests, address);
            &&& in_order(times)
            &&& up_to(times, now)
            &&& times.len() <= state.max_requests
        }
}

/// What a limiter remembers after a row of requests.
pub open spec fn run(start: LimiterState, arrivals: Seq<Arrival>) -> LimiterState
    decreases arrivals.len(),
{
    if arrivals.len() == 0 {
        start
    } else {
        let last = arrivals.last();
        run(start, arrivals.drop_last()).after(last.address, last.time)
    }
}

/// The times of the requests of `address` that are admitted in a row of
/// requests.
pub open spec fn admitted(
    start: LimiterState,
    arrivals: Seq<Arrival>,
    address: IpAddress,
) -> Seq<Instant>
    decreases arrivals.len(),
{
    if arrivals.len() == 0 {
        Seq::empty()
    } else {
        let last = arrivals.last();
        let before = admitted(start, arrivals.drop_last(), address);
        if last.address == address && run(start, arrivals.drop_last()).admits(address, last.time) {
            before.push(last.time)
        } else {
            before
        }
    }
}

/// The requests come in the order of their times.
pub open spec fn arrivals_in_order(arrivals: Seq<Arrival>) -> bool {
    forall|i: int, j: int|
        0 <= i <= j < arrivals.len() ==> (#[trigger] arrivals[i]).time.nanos <= (
        #[trigger] arrivals[j]).time.nanos
}

/// A time lies in the window that ends at `end`.
pub open spec fn in_window(time: Instant, end: Instant, window: nat) -> bool {
    time.nanos <= end.nanos && !crate::rate_limit::expired(time, end, window)
}

proof fn lemma_drop_expired_is_skip(times: Seq<Instant>, now: Instant, window: nat) -> (k: int)
    ensures
        0 <= k <= times.len(),
        crate::rate_limit::drop_expired(times, now, window) == times.skip(k),
        forall|i: int| 0 <= i < k ==> crate::rate_limit::expired(#[trigger] times[i], now, window),
        k < times.len() ==> !crate::rate_limit::expired(times[k], now, window),
    decreases times.len(),
{
    if times.len() > 0 && crate::rate_limit::expired(times[0], now, window) {
        let j = lemma_drop_expired_is_skip(times.drop_first(), now, window);
        assert(times.drop_first().skip(j) =~= times.skip(j + 1));
        assert forall|i: int| 0 <= i < j + 1 implies crate::rate_limit::expired(
            #[trigger] times[i],
            now,
            window,
        ) by {
            if i > 0 {
                assert(times.drop_first()[i - 1] == times[i]);
            }
        }
        j + 1
    } else {
        assert(times.skip(0) =~= times);
        0
    }
}

proof fn lemma_fresh_in_order(times: Seq<Instant>, now: Instant, window: nat)
    requires
        in_order(times),
    ensures
        crate::rate_limit::fresh(times, now, window) == crate::rate_limit::drop_expired(
            times,
            now,
            window,
        ),
    decreases times.len(),
{
    reveal(Seq::filter);
    let inside = |time: Instant| !crate::rate_limit::expired(time, now, window);
    if times.len() > 0 {
        let front = times.drop_last();
        assert(in_order(front)) by {
            assert forall|i: int, j: int| 0 <= i <= j < front.len() implies (
            #[trigger] front[i]).nanos <= (#[trigger] front[j]).nanos by {
                assert(times[i].nanos <= times[j].nanos);
            }
        }
        lemma_fresh_in_order(front, now, window);
        let k = lemma_drop_expired_is_skip(times, now, window);
        let m = lemma_drop_expired_is_skip(front, now, window);
        let last = times.last();
        if inside(last) {
            if k < times.len() - 1 {
                if m < k {
                    assert(front[m] == times[m]);
                } else if k < m {
                    assert(front[k] == times[k]);
                }
                assert(m == k);
                assert(times.skip(k) =~= front.skip(m).push(last));
            } else {
                if k == times.len() {
                    assert(times[k - 1] == last);
                }
                if m < front.len() {
                    assert(front[m] == times[m]);
                }
                assert(times.skip(k) =~= front.skip(m).push(last));
            }
        } else {
            assert forall|i: int| 0 <= i < front.len() implies crate::rate_limit::expired(
                #[trigger] front[i],
                now,
                window,
            ) by {
                assert(times[i].nanos <= times[times.len() - 1].nanos);
            }
            if m < front.len() {
                assert(crate::rate_limit::expired(front[m], now, window));
            }
            if k < times.len() {
                if k < front.len() {
                    assert(front[k] == times[k]);
                } else {
                    assert(times[k] == last);
                }
            }
            assert(times.skip(k) =~= front.skip(m));
        }
    } else {
        assert(crate::rate_limit::fresh(times, now, window) =~= Seq::empty());
        assert(crate::rate_limit::drop_expired(times, now, window) =~= Seq::empty());
    }
}

/// Forgetting what left the window earlier makes no difference later.
proof fn lemma_drop_expired_later(times: Seq<Instant>, now: Instant, later: Instant, window: nat)
    requires
        now.nanos <= later.nanos,
    ensures
        crate::rate_limit::drop_expired(
            crate::rate_limit::drop_expired(times, now, window),
            later,
            window,
        ) == crate::rate_limit::drop_expired(times, later, window),
    decreases times.len(),
{
    if times.len() > 0 && crate::rate_limit::expired(times[0], now, window) {
        lemma_drop_expired_later(times.drop_first(), now, later, window);
        assert(crate::rate_limit::expired(times[0], later, window));
    }
}

/// What counts against a client is the part of its requests that is inside the
/// window, whether or not a sweep is due.
proof fn lemma_counted(state: LimiterState, address: IpAddress, now: Instant)
    requires
        in_order(crate::rate_limit::requests_of(state.requests, address)),
    ensures
        state.counted(address, now) == crate::rate_limit::drop_expired(
            crate::rate_limit::requests_of(state.requests, address),
            now,
            state.window,
        ),
        crate::rate_limit::requests_of(state.requests_at(now), address)
            == crate::rate_limit::requests_of(state.requests, address)
            || crate::rate_limit::requests_of(state.requests_at(now), address)
            == crate::rate_limit::drop_expired(
            crate::rate_limit::requests_of(state.requests, address),
            now,
            state.window,
        ),
{
    let times = crate::rate_limit::requests_of(state.requests, address);
    if state.sweeps_at(now) {
        lemma_fresh_in_order(times, now, state.window);
        lemma_drop_expired_later(times, now, now, state.window);
        let left = crate::rate_limit::requests_of(state.requests_at(now), address);
        if state.requests.contains_key(address) {
            if crate::rate_limit::fresh(times, now, state.window).len() == 0 {
                assert(left =~= crate::rate_limit::fresh(times, now, state.window));
            }
        }
    }
}

proof fn lemma_skip_in_order(times: Seq<Instant>, k: int, now: Instant)
    requires
        in_order(times),
        up_to(times, now),
        0 <= k <= times.len(),
    ensures
        in_order(times.skip(k)),
        up_to(times.skip(k), now),
{
    let rest = times.skip(k);
    assert forall|i: int, j: int| 0 <= i <= j < rest.len() implies (#[trigger] rest[i]).nanos <= (
    #[trigger] rest[j]).nanos by {
        assert(times[i + k].nanos <= times[j + k].nanos);
    }
    assert forall|i: int| 0 <= i < rest.len() implies (#[trigger] rest[i]).nanos <= now.nanos by {
        assert(times[i + k].nanos <= now.nanos);
    }
}

/// A request leaves a tidy state tidy, so no client ever has more requests
/// remembered than a window may hold.
pub proof fn law_stays_tidy(
    state: LimiterState,
    before: Instant,
    address: IpAddress,
    now: Instant,
)
    requires
        tidy(state, before),
        before.nanos <= now.nanos,
    ensures
        tidy(state.after(address, now), now),
{
    let next = state.after(address, now);
    assert forall|other: IpAddress|
        {
            let times = #[trigger] crate::rate_limit::requests_of(next.requests, other);
            &&& in_order(times)
            &&& up_to(times, now)
            &&& times.len() <= next.max_requests
        } by {
        let old_times = crate::rate_limit::requests_of(state.requests, other);
        assert(in_order(old_times));
        assert(up_to(old_times, before));
        assert(up_to(old_times, now));
        lemma_counted(state, other, now);
        let k = lemma_drop_expired_is_skip(old_times, now, state.window);
        lemma_skip_in_order(old_times, k, now);
        let times = crate::rate_limit::requests_of(next.requests, other);
        if other == address {
            let counted = state.counted(address, now);
            if state.admits(address, now) {
                assert(times == counted.push(now));
            } else {
                assert(times == counted);
            }
        } else {
            assert(times == crate::rate_limit::requests_of(state.requests_at(now), other));
        }
    }
}

/// A request of one client never changes how another client is answered later.
pub proof fn law_clients_are_independent(
    state: LimiterState,
    before: Instant,
    address: IpAddress,
    now: Instant,
    other: IpAddress,
    later: Instant,
)
    requires
        tidy(state, before),
        before.nanos <= now.nanos <= later.nanos,
        address != other,
    ensures
        state.after(address, now).counted(other, later) == state.counted(other, later),
        state.after(address, now).admits(other, later) == state.admits(other, later),
        state.after(address, now).wait(other, later) == state.wait(other, later),
{
    let next = state.after(address, now);
    law_stays_tidy(state, before, address, now);
    let times = crate::rate_limit::requests_of(state.requests, other);
    let next_times = crate::rate_limit::requests_of(next.requests, other);
    assert(in_order(times));
    assert(in_order(next_times));
    lemma_counted(state, other, now);
    lemma_counted(state, other, later);
    lemma_counted(next, other, later);
    assert(next_times == crate::rate_limit::requests_of(state.requests_at(now), other));
    lemma_drop_expired_later(times, now, later, state.window);
}

/// A refused client that asks again is admitted exactly from the end of the
/// wait that it was told.
pub proof fn law_wait_is_exact(
    state: LimiterState,
    before: Instant,
    address: IpAddress,
    now: Instant,
    later: Instant,
)
    requires
        tidy(state, before),
        before.nanos <= now.nanos <= later.nanos,
        !state.admits(address, now),
    ensures
        0 < state.wait(address, now) <= state.window,
        state.after(address, now).admits(address, later) <==> later.nanos - now.nanos >= state.wait(
            address,
            now,
        ),
{
    let next = state.after(address, now);
    law_stays_tidy(state, before, address, now);
    let times = crate::rate_limit::requests_of(state.requests, address);
    assert(in_order(times));
    assert(times.len() <= state.max_requests);
    lemma_counted(state, address, now);
    let k = lemma_drop_expired_is_skip(times, now, state.window);
    let counted = state.counted(address, now);
    assert(counted.len() == state.max_requests);
    assert(k == 0);
    assert(counted =~= times);
    assert(times[0].nanos <= before.nanos);
    let next_times = crate::rate_limit::requests_of(next.requests, address);
    assert(next_times == counted);
    assert(in_order(next_times));
    lemma_counted(next, address, later);
    let m = lemma_drop_expired_is_skip(next_times, later, state.window);
    if later.nanos - now.nanos >= state.wait(address, now) {
        assert(crate::rate_limit::expired(next_times[0], later, state.window));
        assert(m > 0);
    } else {
        assert(!crate::rate_limit::expired(next_times[0], later, state.window));
        assert(m == 0);
    }
}

/// Once a sweep is due, a request leaves no client behind whose requests have
/// all left the window, save the one that asks.
pub proof fn law_sweep_forgets_stale_clients(
    state: LimiterState,
    address: IpAddress,
    now: Instant,
    other: IpAddress,
)
    requires
        state.sweeps_at(now),
        address != other,
        state.after(address, now).requests.contains_key(other),
    ensures
        state.requests.contains_key(other),
        exists|i: int|
            0 <= i < state.requests[other].len() && !crate::rate_limit::expired(
                #[trigger] state.requests[other][i],
                now,
                state.window,
            ),
{
    let times = state.requests[other];
    let inside = |time: Instant| !crate::rate_limit::expired(time, now, state.window);
    let kept = crate::rate_limit::fresh(times, now, state.window);
    assert(kept.len() > 0);
    assert(kept.contains(kept[0]));
    times.lemma_filter_contains_rev(inside, kept[0]);
    let i = choose|i: int| 0 <= i < times.len() && times[i] == kept[0];
    times.lemma_filter_pred(inside, 0);
    assert(inside(kept[0]));
    assert(!crate::rate_limit::expired(times[i], now, state.window));
}


/// The last time of a row of requests, or `start` where there are none.
pub open spec fn last_time(arrivals: Seq<Arrival>, start: Instant) -> Instant {
    if arrivals.len() == 0 {
        start
    } else {
        arrivals.last().time
    }
}

/// A limiter that has admitted nothing yet.
pub open spec fn blank(state: LimiterState) -> bool {
    &&& state.requests == Map::<IpAddress, Seq<Instant>>::empty()
    &&& state.max_requests > 0
}

proof fn lemma_run_keeps_limits(start: LimiterState, arrivals: Seq<Arrival>)
    ensures
        run(start, arrivals).max_requests == start.max_requests,
        run(start, arrivals).window == start.window,
    decreases arrivals.len(),
{
    if arrivals.len() > 0 {
        lemma_run_keeps_limits(start, arrivals.drop_last());
    }
}

/// After a row of requests in order the limiter remembers, of each client, the
/// admitted requests from some point on; those before it have left the window.
/// Admitted requests are in order, and two of them that are `max_requests`
/// apart are a window apart.
proof fn lemma_run_remembers_admitted(
    start: LimiterState,
    arrivals: Seq<Arrival>,
    address: IpAddress,
    origin: Instant,
)
    requires
        blank(start),
        arrivals_in_order(arrivals),
        forall|i: int| 0 <= i < arrivals.len() ==> origin.nanos <= (#[trigger] arrivals[i]).time.nanos,
    ensures
        ({
            let times = admitted(start, arrivals, address);
            let kept = crate::rate_limit::requests_of(run(start, arrivals).requests, address);
            let now = last_time(arrivals, origin);
            &&& tidy(run(start, arrivals), now)
            &&& in_order(times)
            &&& up_to(times, now)
            &&& kept.len() <= times.len()
            &&& kept == times.skip(times.len() - kept.len())
            &&& forall|i: int|
                0 <= i < times.len() - kept.len() ==> crate::rate_limit::expired(
                    #[trigger] times[i],
                    now,
                    start.window,
                )
            &&& forall|i: int, j: int|
                0 <= i && j < times.len() && i + start.max_requests <= j
                    ==> crate::rate_limit::expired(
                    #[trigger] times[i],
                    #[trigger] times[j],
                    start.window,
                )
        }),
    decreases arrivals.len(),
{
    let times = admitted(start, arrivals, address);
    let state = run(start, arrivals);
    let kept = crate::rate_limit::requests_of(state.requests, address);
    if arrivals.len() == 0 {
        assert(kept =~= times.skip(0));
        assert forall|other: IpAddress|
            {
                let t = #[trigger] crate::rate_limit::requests_of(state.requests, other);
                &&& in_order(t)
                &&& up_to(t, origin)
                &&& t.len() <= state.max_requests
            } by {}
    } else {
        let front = arrivals.drop_last();
        let last = arrivals.last();
        let now = last.time;
        assert(arrivals_in_order(front)) by {
            assert forall|i: int, j: int| 0 <= i <= j < front.len() implies (
            #[trigger] front[i]).time.nanos <= (#[trigger] front[j]).time.nanos by {
                assert(arrivals[i].time.nanos <= arrivals[j].time.nanos);
            }
        }
        assert forall|i: int| 0 <= i < front.len() implies origin.nanos <= (
        #[trigger] front[i]).time.nanos by {
            assert(origin.nanos <= arrivals[i].time.nanos);
        }
        lemma_run_remembers_admitted(start, front, address, origin);
        lemma_run_keeps_limits(start, front);
        let before = run(start, front);
        let earlier = last_time(front, origin);
        assert(earlier.nanos <= now.nanos) by {
            if front.len() > 0 {
                assert(arrivals[front.len() - 1].time.nanos <= arrivals[arrivals.len()
                    - 1].time.nanos);
            } else {
                assert(origin.nanos <= arrivals[0].time.nanos);
            }
        }
        law_stays_tidy(before, earlier, last.address, now);
        let old_times = admitted(start, front, address);
        let old_kept = crate::rate_limit::requests_of(before.requests, address);
        let cut = old_times.len() - old_kept.len();
        lemma_counted(before, address, now);
        let k = lemma_drop_expired_is_skip(old_kept, now, before.window);
        let counted = before.counted(address, now);
        assert(counted =~= old_times.skip(cut + k));
        assert forall|i: int| 0 <= i < cut + k implies crate::rate_limit::expired(
            #[trigger] old_times[i],
            now,
            start.window,
        ) by {
            if i >= cut {
                assert(old_kept[i - cut] == old_times[i]);
            }
        }
        if last.address == address {
            if before.admits(address, now) {
                assert(times == old_times.push(now));
                assert(kept == counted.push(now));
                assert(kept =~= times.skip(times.len() - kept.len()));
                assert forall|i: int, j: int|
                    0 <= i && j < times.len() && i + start.max_requests
                        <= j implies crate::rate_limit::expired(
                    #[trigger] times[i],
                    #[trigger] times[j],
                    start.window,
                ) by {
                    if j == old_times.len() {
                        assert(i < cut + k);
                        assert(times[i] == old_times[i]);
                    } else {
                        assert(times[i] == old_times[i] && times[j] == old_times[j]);
                    }
                }
            } else {
                assert(kept == counted);
                assert(kept =~= times.skip(times.len() - kept.len()));
            }
        } else {
            assert(kept == crate::rate_limit::requests_of(before.requests_at(now), address));
            if kept == old_kept {
                assert forall|i: int|
                    0 <= i < times.len() - kept.len() implies crate::rate_limit::expired(
                    #[trigger] times[i],
                    now,
                    start.window,
                ) by {
                    assert(crate::rate_limit::expired(old_times[i], earlier, start.window));
                }
            } else {
                assert(kept =~= times.skip(times.len() - kept.len()));
            }
        }
    }
}

proof fn lemma_window_count(times: Seq<Instant>, end: Instant, window: nat, max: nat)
    requires
        in_order(times),
        forall|i: int, j: int|
            0 <= i && j < times.len() && i + max <= j ==> crate::rate_limit::expired(
                #[trigger] times[i],
                #[trigger] times[j],
                window,
            ),
    ensures
        times.filter(|time: Instant| in_window(time, end, window)).len() <= max,
    decreases times.len(),
{
    let inside = |time: Instant| in_window(time, end, window);
    reveal(Seq::filter);
    if times.len() > 0 {
        let front = times.drop_last();
        let last = times.last();
        assert(in_order(front)) by {
            assert forall|i: int, j: int| 0 <= i <= j < front.len() implies (
            #[trigger] front[i]).nanos <= (#[trigger] front[j]).nanos by {
                assert(times[i].nanos <= times[j].nanos);
            }
        }
        assert forall|i: int, j: int|
            0 <= i && j < front.len() && i + max <= j implies crate::rate_limit::expired(
            #[trigger] front[i],
            #[trigger] front[j],
            window,
        ) by {
            assert(times[i] == front[i] && times[j] == front[j]);
        }
        lemma_window_count(front, end, window, max);
        if inside(last) && times.len() > max {
            let cut = times.len() - max;
            let stale = times.take(cut as int);
            let rest = times.skip(cut as int);
            assert(stale + rest =~= times);
            assert forall|i: int| 0 <= i < stale.len() implies !inside(#[trigger] stale[i]) by {
                assert(times[i] == stale[i]);
                assert(times[times.len() - 1] == last);
                assert(crate::rate_limit::expired(times[i], times[times.len() - 1], window));
            }
            Seq::filter_distributes_over_add(stale, rest, inside);
            assert(stale.filter(inside).len() == 0) by {
                if stale.filter(inside).len() > 0 {
                    let e = stale.filter(inside)[0];
                    assert(stale.filter(inside).contains(e));
                    stale.lemma_filter_pred(inside, 0);
                    stale.lemma_filter_contains_rev(inside, e);
                    let i = choose|i: int| 0 <= i < stale.len() && stale[i] == e;
                    assert(!inside(stale[i]));
                }
            }
            rest.lemma_filter_len(inside);
        } else if inside(last) {
            times.lemma_filter_len(inside);
        }
    }
}

/// However requests arrive, as long as the clock does not run backwards, no
/// window of time holds more admitted requests of one client than the limiter
/// allows.
pub proof fn law_no_window_holds_more_than_the_limit(
    start: LimiterState,
    arrivals: Seq<Arrival>,
    address: IpAddress,
    end: Instant,
)
    requires
        blank(start),
        arrivals_in_order(arrivals),
    ensures
        admitted(start, arrivals, address).filter(
            |time: Instant| in_window(time, end, start.window),
        ).len() <= start.max_requests,
{
    let origin = Instant { nanos: 0 };
    lemma_run_remembers_admitted(start, arrivals, address, origin);
    lemma_window_count(
        admitted(start, arrivals, address),
        end,
        start.window,
        start.max_requests,
    );
}

/// A client that has fewer than the allowed number of admitted requests inside
/// the window is admitted.
pub proof fn law_admits_below_the_limit(
    start: LimiterState,
    arrivals: Seq<Arrival>,
    address: IpAddress,
    now: Instant,
)
    requires
        blank(start),
        arrivals_in_order(arrivals),
        arrivals.len() > 0 ==> arrivals.last().time.nanos <= now.nanos,
    ensures
        run(start, arrivals).admits(address, now) <==> admitted(start, arrivals, address).filter(
            |time: Instant| in_window(time, now, start.window),
        ).len() < start.max_requests,
{
    let origin = Instant { nanos: 0 };
    lemma_run_remembers_admitted(start, arrivals, address, origin);
    lemma_run_keeps_limits(start, arrivals);
    let state = run(start, arrivals);
    let times = admitted(start, arrivals, address);
    let kept = crate::rate_limit::requests_of(state.requests, address);
    let earlier = last_time(arrivals, origin);
    assert(in_order(kept));
    lemma_counted(state, address, now);
    lemma_fresh_in_order(kept, now, start.window);
    let inside = |time: Instant| in_window(time, now, start.window);
    let unexpired = |time: Instant| !crate::rate_limit::expired(time, now, start.window);
    let stale = times.take(times.len() - kept.len());
    assert(stale + kept =~= times);
    Seq::filter_distributes_over_add(stale, kept, inside);
    assert(stale.filter(inside).len() == 0) by {
        if stale.filter(inside).len() > 0 {
            let e = stale.filter(inside)[0];
            assert(stale.filter(inside).contains(e));
            stale.lemma_filter_pred(inside, 0);
            stale.lemma_filter_contains_rev(inside, e);
            let i = choose|i: int| 0 <= i < stale.len() && stale[i] == e;
            assert(crate::rate_limit::expired(times[i], earlier, start.window));
        }
    }
    lemma_same_filter(kept, inside, unexpired);
}

proof fn lemma_same_filter(
    times: Seq<Instant>,
    first: spec_fn(Instant) -> bool,
    second: spec_fn(Instant) -> bool,
)
    requires
        forall|i: int| 0 <= i < times.len() ==> first(#[trigger] times[i]) == second(times[i]),
    ensures
        times.filter(first) == times.filter(second),
    decreases times.len(),
{
    reveal(Seq::filter);
    if times.len() > 0 {
        let front = times.drop_last();
        assert forall|i: int| 0 <= i < front.len() implies first(#[trigger] front[i]) == second(
            front[i],
        ) by {
            assert(front[i] == times[i]);
        }
        lemma_same_filter(front, first, second);
        assert(times[times.len() - 1] == times.last());
    }
}

/// The seconds that a refused client is told cover its wait, and no fewer than
/// those would, unless a single second already does.
pub proof fn law_reported_seconds_cover_the_wait(nanos: nat)
    ensures
        crate::rate_limit::whole_seconds(nanos) >= 1,
        crate::rate_limit::whole_seconds(nanos) * 1_000_000_000 >= nanos,
        crate::rate_limit::whole_seconds(nanos) > 1 ==> (crate::rate_limit::whole_seconds(nanos)
            - 1) * 1_000_000_000 < nanos,
{
}

/// A peer that is not the host itself cannot pass for another client, whatever
/// headers it sends.
pub proof fn law_remote_peers_cannot_forge_their_address(peer: IpAddress, headers: HeaderMap)
    requires
        !peer.loopback(),
    ensures
        crate::rate_limit::client_of(peer, headers) == peer,
{
}

} // verus!
