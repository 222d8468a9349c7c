//! What holds of the rate limiter over more than one call.

use vstd::prelude::*;

use crate::rate_limit::{
    is_oldest, lemma_expire_valid, lemma_live_is_suffix, live, prune, Allowance, LimiterState,
};

verus! {

/// Trimming twice is trimming once at the later cutoff.
proof fn lemma_live_twice(times: Seq<nat>, first: int, second: int)
    requires
        first <= second,
    ensures
        live(live(times, first), second) == live(times, second),
    decreases times.len(),
{
    if times.len() > 0 && times[0] < first {
        lemma_live_twice(times.drop_first(), first, second);
    }
}

/// An instant at or after the cutoff stays behind the live instants that precede it.
proof fn lemma_live_push(times: Seq<nat>, now: nat, cutoff: int)
    requires
        now >= cutoff,
    ensures
        live(times.push(now), cutoff) == live(times, cutoff).push(now),
    decreases times.len(),
{
    if times.len() > 0 {
        assert(times.push(now)[0] == times[0]);
        if times[0] < cutoff {
            assert(times.push(now).drop_first() =~= times.drop_first().push(now));
            lemma_live_push(times.drop_first(), now, cutoff);
        }
    }
}

/// Where a client is held, there is room for one and it has at most the limit.
proof fn lemma_held_client_counts(state: LimiterState, key: Seq<char>)
    requires
        state.valid(),
        state.windows.contains_key(key),
    ensures
        state.max_clients > 0,
        state.limit > 0,
{
    assert(state.windows.dom().contains(key));
    assert(state.windows.dom().len() > 0);
}

/// Every request leaves a valid state valid: clients and instants stay bounded for ever.
pub proof fn law_memory_is_bounded(
    pre: LimiterState,
    key: Seq<char>,
    now: nat,
    post: LimiterState,
    verdict: Allowance,
)
    requires
        pre.valid(),
        pre.admits(key, now, post, verdict),
    ensures
        post.valid(),
{
    lemma_expire_valid(pre, now);
}

/// Cleaning up at any time before a request has no influence on that request.
pub proof fn law_cleanup_is_invisible(
    state: LimiterState,
    cleaned: nat,
    key: Seq<char>,
    now: nat,
    post: LimiterState,
    verdict: Allowance,
)
    requires
        cleaned <= now,
    ensures
        state.expire(cleaned).expire(now) == state.expire(now),
        state.expire(cleaned).admits(key, now, post, verdict) <==> state.admits(
            key,
            now,
            post,
            verdict,
        ),
{
    let first = cleaned - state.window;
    let second = now - state.window;
    let once = prune(state.windows, second);
    let twice = prune(prune(state.windows, first), second);
    assert forall|k: Seq<char>| state.windows.contains_key(k) implies live(
        live(#[trigger] state.windows[k], first),
        second,
    ) == live(state.windows[k], second) by {
        lemma_live_twice(state.windows[k], first, second);
    }
    assert(twice =~= once) by {
        assert forall|k: Seq<char>| once.contains_key(k) == #[trigger] twice.contains_key(k) by {
            if state.windows.contains_key(k) {
                let t = state.windows[k];
                assert(live(live(t, first), second) == live(t, second));
            }
        }
    }
    assert(state.expire(cleaned).expire(now) == state.expire(now));
    let other = state.expire(cleaned);
    assert forall|w: Map<Seq<char>, Seq<nat>>| #[trigger]
        other.with_windows(w) == state.with_windows(w) by {}
}

/// Everything that is older than the window is gone after a cleanup.
pub proof fn law_stale_clients_are_removed(state: LimiterState, now: nat)
    requires
        forall|key: Seq<char>, i: int|
            state.windows.contains_key(key) && 0 <= i < state.windows[key].len()
                ==> #[trigger] state.windows[key][i] < now - state.window,
    ensures
        state.expire(now).windows == Map::<Seq<char>, Seq<nat>>::empty(),
{
    let cutoff = now - state.window;
    assert forall|key: Seq<char>| state.windows.contains_key(key) implies live(
        #[trigger] state.windows[key],
        cutoff,
    ).len() == 0 by {
        lemma_live_is_suffix(state.windows[key], cutoff);
    }
    assert(state.expire(now).windows =~= Map::<Seq<char>, Seq<nat>>::empty());
}

/// A client whose instants have all left the window is treated as a new one: it passes unless
/// nobody may, and is counted from this request on unless nobody can be held.
pub proof fn law_limit_is_restored(
    pre: LimiterState,
    key: Seq<char>,
    now: nat,
    post: LimiterState,
    verdict: Allowance,
)
    requires
        pre.limit > 0,
        pre.windows.contains_key(key) ==> forall|i: int|
            0 <= i < pre.windows[key].len() ==> pre.windows[key][i] < now - pre.window,
        pre.admits(key, now, post, verdict),
    ensures
        verdict is Allowed,
        pre.max_clients > 0 ==> post.windows.contains_key(key) && post.windows[key] == seq![now],
{
    if pre.windows.contains_key(key) {
        lemma_live_is_suffix(pre.windows[key], now - pre.window);
    }
}

/// A limiter whose limit is zero refuses everything, and one that may hold no client refuses
/// nothing else. Neither of them ever holds a client.
pub proof fn law_zero_settings(
    pre: LimiterState,
    key: Seq<char>,
    now: nat,
    post: LimiterState,
    verdict: Allowance,
)
    requires
        pre.valid(),
        pre.limit == 0 || pre.max_clients == 0,
        pre.admits(key, now, post, verdict),
    ensures
        verdict is Denied <==> pre.limit == 0,
        verdict is Denied ==> verdict->retry_after@ == pre.window,
        post.windows == Map::<Seq<char>, Seq<nat>>::empty(),
{
    lemma_expire_valid(pre, now);
    let left = pre.expire(now);
    assert forall|k: Seq<char>| !left.windows.contains_key(k) by {
        if left.windows.contains_key(k) {
            lemma_held_client_counts(left, k);
        }
    }
    assert(left.windows =~= Map::<Seq<char>, Seq<nat>>::empty());
}

/// A refused request is not counted: it leaves the state as a cleanup would.
pub proof fn law_refusal_is_not_counted(
    pre: LimiterState,
    key: Seq<char>,
    now: nat,
    post: LimiterState,
    verdict: Allowance,
)
    requires
        pre.admits(key, now, post, verdict),
        verdict is Denied,
    ensures
        post == pre.expire(now),
{
}

/// After a refusal the client is refused up to and including the moment that `retry_after`
/// names, and let through at any later one.
pub proof fn law_retry_after_is_exact(
    pre: LimiterState,
    key: Seq<char>,
    now: nat,
    refused: LimiterState,
    verdict: Allowance,
    later: nat,
    post: LimiterState,
    second: Allowance,
)
    requires
        pre.valid(),
        pre.admits(key, now, refused, verdict),
        verdict is Denied,
        pre.limit > 0,
        refused.windows[key][0] <= now <= later,
        refused.admits(key, later, post, second),
    ensures
        second is Allowed <==> later > now + verdict->retry_after@,
{
    lemma_expire_valid(pre, now);
    let times = refused.windows[key];
    lemma_live_is_suffix(times, later - pre.window);
    lemma_live_is_suffix(pre.windows[key], now - pre.window);
    assert(times[0] >= now - pre.window);
}

/// A request of one client leaves the others as a cleanup would, except that a new client may
/// displace one of the oldest when the limiter is full.
pub proof fn law_others_are_untouched(
    pre: LimiterState,
    key: Seq<char>,
    now: nat,
    post: LimiterState,
    verdict: Allowance,
    other: Seq<char>,
)
    requires
        pre.admits(key, now, post, verdict),
        other != key,
    ensures
        post.windows.contains_key(other) ==> {
            &&& pre.expire(now).windows.contains_key(other)
            &&& post.windows[other] == pre.expire(now).windows[other]
        },
        pre.expire(now).windows.contains_key(other) && !post.windows.contains_key(other) ==> {
            &&& !pre.expire(now).windows.contains_key(key)
            &&& pre.expire(now).windows.len() >= pre.max_clients
            &&& is_oldest(pre.expire(now).windows, other)
        },
{
}

/// A verdict depends on the limit, the window and the client's own instants alone.
pub proof fn law_verdict_depends_on_own_window(
    left: LimiterState,
    right: LimiterState,
    key: Seq<char>,
    now: nat,
    left_post: LimiterState,
    left_verdict: Allowance,
    right_post: LimiterState,
    right_verdict: Allowance,
)
    requires
        left.limit == right.limit,
        left.window == right.window,
        left.windows.contains_key(key) == right.windows.contains_key(key),
        left.windows.contains_key(key) ==> left.windows[key] == right.windows[key],
        left.admits(key, now, left_post, left_verdict),
        right.admits(key, now, right_post, right_verdict),
    ensures
        left_verdict is Allowed == right_verdict is Allowed,
        left_verdict is Denied ==> left_verdict->retry_after@ == right_verdict->retry_after@,
{
}

/// No client can block another: whatever `busy` has sent, a request of `key` that would have
/// passed without it still passes. Where `busy` displaces nobody, because there is room for it
/// beside the others, the answer is the same altogether.
pub proof fn law_clients_are_independent(
    pre: LimiterState,
    busy: Seq<char>,
    now: nat,
    mid: LimiterState,
    busy_verdict: Allowance,
    key: Seq<char>,
    later: nat,
    post: LimiterState,
    verdict: Allowance,
    post_alone: LimiterState,
    verdict_alone: Allowance,
)
    requires
        busy != key,
        now <= later,
        pre.admits(busy, now, mid, busy_verdict),
        mid.admits(key, later, post, verdict),
        pre.admits(key, later, post_alone, verdict_alone),
    ensures
        verdict_alone is Allowed ==> verdict is Allowed,
        pre.expire(now).windows.dom().remove(busy).len() < pre.max_clients ==> {
            &&& verdict is Allowed == verdict_alone is Allowed
            &&& verdict is Denied ==> verdict->retry_after@ == verdict_alone->retry_after@
        },
{
    let cleaned = pre.expire(now);
    law_cleanup_is_invisible(pre, now, key, later, post_alone, verdict_alone);
    law_others_are_untouched(pre, busy, now, mid, busy_verdict, key);
    if cleaned.windows.dom().remove(busy).len() < pre.max_clients {
        if !cleaned.windows.contains_key(busy) {
            assert(cleaned.windows.dom().remove(busy) =~= cleaned.windows.dom());
        }
        assert(cleaned.windows.contains_key(key) == mid.windows.contains_key(key));
        law_verdict_depends_on_own_window(
            mid,
            cleaned,
            key,
            later,
            post,
            verdict,
            post_alone,
            verdict_alone,
        );
    }
}

/// One thing that happens to a limiter.
pub ghost enum Event {
    /// A request of `key` at `now`, answered with `verdict`.
    Check { key: Seq<char>, now: nat, verdict: Allowance },
    /// A cleanup at `now`.
    Cleanup { now: nat },
}

impl Event {
    /// When it happens.
    pub open spec fn time(self) -> nat {
        match self {
            Event::Check { now, .. } => now,
            Event::Cleanup { now } => now,
        }
    }

    /// Whether it may turn `pre` into `post`.
    pub open spec fn leads(self, pre: LimiterState, post: LimiterState) -> bool {
        match self {
            Event::Check { key, now, verdict } => pre.admits(key, now, post, verdict),
            Event::Cleanup { now } => post == pre.expire(now),
        }
    }

    /// Whether it is a request of `key`.
    pub open spec fn is_from(self, key: Seq<char>) -> bool {
        self matches Event::Check { key: k, .. } && k == key
    }

    /// Whether it is a request of `key` that passes.
    pub open spec fn passes(self, key: Seq<char>) -> bool {
        self matches Event::Check { key: k, verdict, .. } && k == key && verdict is Allowed
    }
}

/// Whether `events` lead through `states`, one after the other, whatever the clock says.
pub open spec fn is_run(states: Seq<LimiterState>, events: Seq<Event>) -> bool {
    &&& states.len() == events.len() + 1
    &&& states[0].valid()
    &&& forall|i: int| 0 <= i < events.len() ==> (#[trigger] events[i]).leads(
        states[i],
        states[i + 1],
    )
}

/// Whether the clock never goes back from one event to the next.
pub open spec fn in_order(events: Seq<Event>) -> bool {
    forall|i: int, j: int|
        0 <= i <= j < events.len() ==> (#[trigger] events[i]).time() <= (#[trigger]
        events[j]).time()
}

/// When the requests of `key` that passed were made.
pub open spec fn passed(events: Seq<Event>, key: Seq<char>) -> Seq<nat>
    decreases events.len(),
{
    if events.len() == 0 {
        Seq::empty()
    } else if events.last().passes(key) {
        passed(events.drop_last(), key).push(events.last().time())
    } else {
        passed(events.drop_last(), key)
    }
}

/// How many requests of `key` there were.
pub open spec fn requests(events: Seq<Event>, key: Seq<char>) -> nat
    decreases events.len(),
{
    if events.len() == 0 {
        0
    } else if events.last().is_from(key) {
        requests(events.drop_last(), key) + 1
    } else {
        requests(events.drop_last(), key)
    }
}

/// Whether the limiter never loses sight of `key` during the run: no other client displaces it
/// while it has live instants, and no request of it passes without being held, as all do where
/// the maximum of clients is zero.
pub open spec fn keeps_track(
    states: Seq<LimiterState>,
    events: Seq<Event>,
    key: Seq<char>,
) -> bool {
    forall|i: int|
        0 <= i < events.len() ==> ((states[i].expire(
            (#[trigger] events[i]).time(),
        ).windows.contains_key(key) || events[i].passes(key)) ==> states[i + 1].windows.contains_key(
            key,
        ))
}

/// The instants that `state` holds for `key`.
pub open spec fn held(state: LimiterState, key: Seq<char>) -> Seq<nat> {
    if state.windows.contains_key(key) {
        state.windows[key]
    } else {
        Seq::empty()
    }
}

/// A run without its last event is a run.
proof fn lemma_shorter_run(states: Seq<LimiterState>, events: Seq<Event>, key: Seq<char>)
    requires
        is_run(states, events),
        keeps_track(states, events, key),
        events.len() > 0,
    ensures
        is_run(states.drop_last(), events.drop_last()),
        keeps_track(states.drop_last(), events.drop_last(), key),
        in_order(events) ==> in_order(events.drop_last()),
{
    let states0 = states.drop_last();
    let events0 = events.drop_last();
    assert forall|i: int| 0 <= i < events0.len() implies (#[trigger] events0[i]).leads(
        states0[i],
        states0[i + 1],
    ) by {
        assert(events[i].leads(states[i], states[i + 1]));
    }
    if in_order(events) {
        assert forall|i: int, j: int| 0 <= i <= j < events0.len() implies (#[trigger]
        events0[i]).time() <= (#[trigger] events0[j]).time() by {
            assert(events[i].time() <= events[j].time());
        }
    }
    assert forall|i: int|
        0 <= i < events0.len() && (states0[i].expire(
            (#[trigger] events0[i]).time(),
        ).windows.contains_key(key) || events0[i].passes(key)) implies states0[i
        + 1].windows.contains_key(key) by {
        assert(events[i].time() == events0[i].time());
    }
}

/// One event changes what is held for `key` as its window says: what is no longer live goes, and
/// a request of `key` that passes is added.
proof fn lemma_held_after(
    pre: LimiterState,
    event: Event,
    post: LimiterState,
    key: Seq<char>,
)
    requires
        pre.valid(),
        event.leads(pre, post),
        pre.expire(event.time()).windows.contains_key(key) || event.passes(key)
            ==> post.windows.contains_key(key),
    ensures
        post.valid(),
        post.limit == pre.limit,
        post.window == pre.window,
        post.max_clients == pre.max_clients,
        held(post, key) == if event.passes(key) {
            live(held(pre, key), event.time() - pre.window).push(event.time())
        } else {
            live(held(pre, key), event.time() - pre.window)
        },
        event.is_from(key) ==> (event.passes(key) <==> live(
            held(pre, key),
            event.time() - pre.window,
        ).len() < pre.limit),
{
    let now = event.time();
    let rest = live(held(pre, key), now - pre.window);
    lemma_expire_valid(pre, now);
    assert(held(pre.expire(now), key) =~= rest);
    if let Event::Check { key: k, verdict, .. } = event {
        law_memory_is_bounded(pre, k, now, post, verdict);
        if k == key {
            if verdict is Allowed {
                assert(held(post, key) =~= rest.push(now));
            }
        } else {
            law_others_are_untouched(pre, k, now, post, verdict, key);
        }
    }
}

/// The limiter holds exactly the instants of the passed requests that the last event found live,
/// in the order in which they were made, as long as it keeps track of the client.
pub proof fn law_limiter_holds_live_passed_requests(
    states: Seq<LimiterState>,
    events: Seq<Event>,
    key: Seq<char>,
)
    requires
        is_run(states, events),
        in_order(events),
        keeps_track(states, events, key),
        !states[0].windows.contains_key(key),
    ensures
        states.last().valid(),
        states.last().window == states[0].window,
        states.last().limit == states[0].limit,
        events.len() == 0 ==> held(states.last(), key) == Seq::<nat>::empty(),
        events.len() > 0 ==> held(states.last(), key) == live(
            passed(events, key),
            events.last().time() - states[0].window,
        ),
        forall|i: int|
            0 <= i < passed(events, key).len() ==> events.len() > 0 && #[trigger] passed(
                events,
                key,
            )[i] <= events.last().time(),
        forall|i: int, j: int|
            0 <= i <= j < passed(events, key).len() ==> passed(events, key)[i] <= passed(
                events,
                key,
            )[j],
    decreases events.len(),
{
    if events.len() > 0 {
        let n = events.len() - 1;
        let events0 = events.drop_last();
        lemma_shorter_run(states, events, key);
        law_limiter_holds_live_passed_requests(states.drop_last(), events0, key);
        let pre = states[n];
        let now = events[n].time();
        let cutoff = now - pre.window;
        let earlier = passed(events0, key);
        assert(events[n].leads(states[n], states[n + 1]));
        lemma_held_after(pre, events[n], states[n + 1], key);
        if n > 0 {
            assert(events[n - 1].time() <= events[n].time());
            lemma_live_twice(earlier, events0.last().time() - pre.window, cutoff);
        }
        lemma_live_push(earlier, now, cutoff);
    }
}

/// Where no more clients turn up than may be held, the limiter keeps track of all of them.
pub proof fn law_clients_that_fit_are_kept(
    states: Seq<LimiterState>,
    events: Seq<Event>,
    clients: Set<Seq<char>>,
    key: Seq<char>,
)
    requires
        is_run(states, events),
        clients.finite(),
        clients.len() <= states[0].max_clients,
        states[0].windows.dom().subset_of(clients),
        forall|i: int|
            0 <= i < events.len() ==> (#[trigger] events[i] matches Event::Check { key: k, .. }
                ==> clients.contains(k)),
    ensures
        keeps_track(states, events, key),
{
    assert forall|i: int|
        0 <= i < events.len() && (states[i].expire(
            (#[trigger] events[i]).time(),
        ).windows.contains_key(key) || events[i].passes(key)) implies states[i
        + 1].windows.contains_key(key) by {
        lemma_only_these_clients(states, events, clients, i);
        let pre = states[i];
        let now = events[i].time();
        assert(events[i].leads(pre, states[i + 1]));
        if let Event::Check { key: k, verdict, .. } = events[i] {
            let dom = pre.expire(now).windows.dom();
            assert(clients.contains(k));
            assert(clients.len() == clients.remove(k).len() + 1);
            if k != key {
                law_others_are_untouched(pre, k, now, states[i + 1], verdict, key);
                if !dom.contains(k) {
                    assert(dom.subset_of(clients.remove(k)));
                    vstd::set_lib::lemma_len_subset(dom, clients.remove(k));
                }
            }
        }
    }
}

/// The clients that are held at any point of a run are among those that turned up.
proof fn lemma_only_these_clients(
    states: Seq<LimiterState>,
    events: Seq<Event>,
    clients: Set<Seq<char>>,
    at: int,
)
    requires
        is_run(states, events),
        states[0].windows.dom().subset_of(clients),
        forall|i: int|
            0 <= i < events.len() ==> (#[trigger] events[i] matches Event::Check { key: k, .. }
                ==> clients.contains(k)),
        0 <= at <= events.len(),
    ensures
        states[at].windows.dom().subset_of(clients),
        states[at].max_clients == states[0].max_clients,
    decreases at,
{
    if at > 0 {
        lemma_only_these_clients(states, events, clients, at - 1);
        let event = events[at - 1];
        let pre = states[at - 1];
        let post = states[at];
        assert(event.leads(states[at - 1], states[at - 1 + 1]));
        assert forall|k: Seq<char>| post.windows.dom().contains(k) implies clients.contains(k) by {
            if let Event::Check { key, now, verdict } = event {
                if k != key {
                    law_others_are_untouched(pre, key, now, post, verdict, k);
                    assert(pre.windows.dom().contains(k));
                }
            } else {
                assert(pre.windows.dom().contains(k));
            }
        }
    }
}

/// The limit itself: of the requests of one client that passed, no more than `limit` lie within
/// the length of the window, wherever it is placed, as long as the limiter keeps track of the
/// client.
pub proof fn law_limit_holds_in_every_window(
    states: Seq<LimiterState>,
    events: Seq<Event>,
    key: Seq<char>,
    first: int,
    last: int,
)
    requires
        is_run(states, events),
        in_order(events),
        keeps_track(states, events, key),
        !states[0].windows.contains_key(key),
        0 <= first <= last < passed(events, key).len(),
        passed(events, key)[last] - passed(events, key)[first] <= states[0].window,
    ensures
        last - first + 1 <= states[0].limit,
    decreases events.len(),
{
    let times = passed(events, key);
    law_limiter_holds_live_passed_requests(states, events, key);
    if last == times.len() - 1 && events.last().passes(key) {
        let cutoff = events.last().time() - states[0].window;
        let dropped = lemma_live_is_suffix(times, cutoff);
        assert(times[last] == events.last().time());
        if dropped > first {
            assert(times[first] < cutoff);
        }
        assert(held(states.last(), key).len() >= last - first + 1);
        assert(states.last().windows.contains_key(key));
    } else {
        lemma_shorter_run(states, events, key);
        law_limit_holds_in_every_window(
            states.drop_last(),
            events.drop_last(),
            key,
            first,
            last,
        );
    }
}

/// How many of `times` lie between `from` and `to`, both included.
pub open spec fn count_between(times: Seq<nat>, from: int, to: int) -> nat
    decreases times.len(),
{
    if times.len() == 0 {
        0
    } else {
        count_between(times.drop_last(), from, to) + if from <= times.last() <= to {
            1nat
        } else {
            0nat
        }
    }
}

/// In a sequence that only grows, what lies between the cutoff and the end is what is live.
proof fn lemma_count_is_live(times: Seq<nat>, from: int, to: int)
    requires
        forall|i: int, j: int| 0 <= i <= j < times.len() ==> times[i] <= times[j],
        forall|i: int| 0 <= i < times.len() ==> times[i] <= to,
    ensures
        count_between(times, from, to) == live(times, from).len(),
    decreases times.len(),
{
    if times.len() > 0 {
        let rest = times.drop_last();
        lemma_count_is_live(rest, from, to);
        assert(rest.push(times.last()) =~= times);
        if times.last() >= from {
            lemma_live_push(rest, times.last(), from);
        } else {
            lemma_live_is_suffix(times, from);
            lemma_live_is_suffix(rest, from);
        }
    }
}

/// What a refusal means: exactly `limit` requests of the client have passed that lie in the
/// window that ends with the refused one, as long as the limiter keeps track of the client.
pub proof fn law_refusal_means_limit_used_up(
    states: Seq<LimiterState>,
    events: Seq<Event>,
    key: Seq<char>,
)
    requires
        is_run(states, events),
        in_order(events),
        keeps_track(states, events, key),
        !states[0].windows.contains_key(key),
        events.len() > 0,
        events.last().is_from(key),
    ensures
        !events.last().passes(key) <==> count_between(
            passed(events.drop_last(), key),
            events.last().time() - states[0].window,
            events.last().time() as int,
        ) == states[0].limit,
{
    let n = events.len() - 1;
    let events0 = events.drop_last();
    let earlier = passed(events0, key);
    let now = events[n].time();
    let cutoff = now - states[0].window;
    lemma_shorter_run(states, events, key);
    law_limiter_holds_live_passed_requests(states.drop_last(), events0, key);
    assert(events[n].leads(states[n], states[n + 1]));
    lemma_held_after(states[n], events[n], states[n + 1], key);
    if n > 0 {
        assert(events[n - 1].time() <= events[n].time());
        lemma_live_twice(earlier, events0.last().time() - states[0].window, cutoff);
    }
    assert(live(held(states[n], key), cutoff) == live(earlier, cutoff));
    lemma_live_is_suffix(held(states[n], key), cutoff);
    lemma_count_is_live(earlier, cutoff, now as int);
}

/// Of the requests of a client that all lie within one window, as many pass as the limit allows,
/// also where the clock went back between them, as long as the limiter keeps track of the
/// client and no event comes more than a window after one of them.
pub proof fn law_limit_needs_no_order(
    states: Seq<LimiterState>,
    events: Seq<Event>,
    key: Seq<char>,
)
    requires
        is_run(states, events),
        keeps_track(states, events, key),
        !states[0].windows.contains_key(key),
        forall|i: int, j: int|
            0 <= i < j < events.len() && (#[trigger] events[i]).is_from(key) ==> (#[trigger]
            events[j]).time() - events[i].time() <= states[0].window,
    ensures
        passed(events, key).len() == if requests(events, key) <= states[0].limit {
            requests(events, key)
        } else {
            states[0].limit
        },
{
    lemma_nothing_expires(states, events, key);
}

/// Within one window the limiter holds every passed request.
proof fn lemma_nothing_expires(states: Seq<LimiterState>, events: Seq<Event>, key: Seq<char>)
    requires
        is_run(states, events),
        keeps_track(states, events, key),
        !states[0].windows.contains_key(key),
        forall|i: int, j: int|
            0 <= i < j < events.len() && (#[trigger] events[i]).is_from(key) ==> (#[trigger]
            events[j]).time() - events[i].time() <= states[0].window,
    ensures
        states.last().valid(),
        states.last().limit == states[0].limit,
        states.last().window == states[0].window,
        held(states.last(), key) == passed(events, key),
        forall|m: int|
            0 <= m < passed(events, key).len() ==> exists|i: int|
                0 <= i < events.len() && (#[trigger] events[i]).is_from(key) && events[i].time()
                    == #[trigger] passed(events, key)[m],
        passed(events, key).len() == if requests(events, key) <= states[0].limit {
            requests(events, key)
        } else {
            states[0].limit
        },
    decreases events.len(),
{
    if events.len() > 0 {
        let n = events.len() - 1;
        let events0 = events.drop_last();
        let earlier = passed(events0, key);
        let now = events[n].time();
        let cutoff = now - states[0].window;
        lemma_shorter_run(states, events, key);
        assert forall|i: int, j: int|
            0 <= i < j < events0.len() && (#[trigger] events0[i]).is_from(key) implies (#[trigger]
        events0[j]).time() - events0[i].time() <= states[0].window by {
            assert(events[i].is_from(key));
            assert(events[j].time() == events0[j].time());
        }
        lemma_nothing_expires(states.drop_last(), events0, key);
        assert(live(earlier, cutoff) == earlier) by {
            if earlier.len() > 0 {
                let i = choose|i: int|
                    0 <= i < events0.len() && (#[trigger] events0[i]).is_from(key)
                        && events0[i].time() == earlier[0];
                assert(events[i].is_from(key));
                assert(events[n].time() - events[i].time() <= states[0].window);
            }
        }
        assert(events[n].leads(states[n], states[n + 1]));
        lemma_held_after(states[n], events[n], states[n + 1], key);
        let times = passed(events, key);
        assert forall|m: int| 0 <= m < times.len() implies exists|i: int|
            0 <= i < events.len() && (#[trigger] events[i]).is_from(key) && events[i].time()
                == #[trigger] times[m] by {
            if m < earlier.len() {
                assert(times[m] == earlier[m]);
                let i = choose|i: int|
                    0 <= i < events0.len() && (#[trigger] events0[i]).is_from(key)
                        && events0[i].time() == earlier[m];
                assert(events[i].is_from(key));
            } else {
                assert(events[n].is_from(key));
            }
        }
    }
}

/// Whether the first `dropped` of `times` have left a window of length `window` at `now`, and
/// the next one has not: it lies at most `window` in the past.
pub open spec fn leave_window(times: Seq<nat>, dropped: int, window: nat, now: nat) -> bool {
    &&& 0 <= dropped <= times.len()
    &&& forall|i: int| 0 <= i < dropped ==> #[trigger] times[i] + window < now
    &&& dropped < times.len() ==> times[dropped] + window >= now
}

/// What a cleanup does to one client: the instants at the front that have left the window go, all
/// others stay as they are, and a client without instants is forgotten. Nobody is added and no
/// setting changes.
pub proof fn law_cleanup_drops_what_left_the_window(
    state: LimiterState,
    now: nat,
    key: Seq<char>,
) -> (dropped: int)
    ensures
        leave_window(held(state, key), dropped, state.window, now),
        state.expire(now).windows.contains_key(key) <==> dropped < held(state, key).len(),
        state.expire(now).windows.contains_key(key) ==> state.expire(now).windows[key] == held(
            state,
            key,
        ).skip(dropped),
        state.expire(now).limit == state.limit,
        state.expire(now).window == state.window,
        state.expire(now).max_clients == state.max_clients,
{
    lemma_live_is_suffix(held(state, key), now - state.window) as int
}

/// How a request is judged: it passes exactly if fewer than `limit` of the client's instants are
/// left in the window. Otherwise it has to wait until the oldest of them is as old as the window
/// is long; for a whole window if there is none, or if that one is still to come.
pub proof fn law_request_is_judged_by_what_is_left(
    pre: LimiterState,
    key: Seq<char>,
    now: nat,
    post: LimiterState,
    verdict: Allowance,
) -> (dropped: int)
    requires
        pre.admits(key, now, post, verdict),
    ensures
        leave_window(held(pre, key), dropped, pre.window, now),
        verdict is Allowed <==> held(pre, key).len() - dropped < pre.limit,
        verdict is Denied ==> {
            let wait = verdict->retry_after@;
            if dropped < held(pre, key).len() && held(pre, key)[dropped] <= now {
                now + wait == held(pre, key)[dropped] + pre.window
            } else {
                wait == pre.window
            }
        },
{
    lemma_live_is_suffix(held(pre, key), now - pre.window) as int
}

/// What is remembered of a request: one that passes stands behind what is left of the client's
/// instants, unless no client may be held; one that is refused changes nothing of what is left.
pub proof fn law_passed_request_is_remembered(
    pre: LimiterState,
    key: Seq<char>,
    now: nat,
    post: LimiterState,
    verdict: Allowance,
) -> (dropped: int)
    requires
        pre.windows.len() <= pre.max_clients,
        pre.windows.dom().finite(),
        pre.admits(key, now, post, verdict),
    ensures
        leave_window(held(pre, key), dropped, pre.window, now),
        verdict is Allowed && pre.max_clients > 0 ==> {
            &&& post.windows.contains_key(key)
            &&& post.windows[key] == held(pre, key).skip(dropped).push(now)
        },
        verdict is Denied || pre.max_clients == 0 ==> {
            &&& post.windows.contains_key(key) <==> dropped < held(pre, key).len()
            &&& held(post, key) == held(pre, key).skip(dropped)
        },
        post.limit == pre.limit,
        post.window == pre.window,
        post.max_clients == pre.max_clients,
{
    let dropped = lemma_live_is_suffix(held(pre, key), now - pre.window) as int;
    assert(pre.max_clients == 0 ==> !pre.windows.dom().contains(key));
    assert(held(pre, key).skip(dropped).push(now).len() >= 1);
    if dropped == held(pre, key).len() {
        assert(held(pre, key).skip(dropped) =~= Seq::<nat>::empty());
        assert(Seq::<nat>::empty().push(now) =~= seq![now]);
    }
    dropped
}

/// Who is displaced: only a client that is not the one that asks, only for a new client that
/// passes, only where as many clients are left as may be held, never one with a later first
/// instant than another, and never two at once.
pub proof fn law_displaced_client_is_the_oldest(
    pre: LimiterState,
    key: Seq<char>,
    now: nat,
    post: LimiterState,
    verdict: Allowance,
    victim: Seq<char>,
    other: Seq<char>,
)
    requires
        pre.admits(key, now, post, verdict),
        pre.expire(now).windows.contains_key(victim),
        !post.windows.contains_key(victim),
    ensures
        victim != key,
        verdict is Allowed,
        !pre.expire(now).windows.contains_key(key),
        pre.expire(now).windows.len() >= pre.max_clients > 0,
        pre.expire(now).windows.contains_key(other) ==> {
            &&& pre.expire(now).windows[victim][0] <= pre.expire(now).windows[other][0]
            &&& other != victim ==> post.windows.contains_key(other)
        },
{
}

/// The bounds of every valid state: no more clients than the maximum, and of each at least one
/// and at most `limit` instants.
pub proof fn law_valid_states_are_bounded(state: LimiterState, key: Seq<char>)
    requires
        state.valid(),
    ensures
        state.windows.dom().finite(),
        state.windows.len() <= state.max_clients,
        state.windows.contains_key(key) ==> 1 <= state.windows[key].len() <= state.limit,
{
}

} // verus!
