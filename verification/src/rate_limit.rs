//! A sliding-window rate limiter with bounded memory.
//!
//! For every client the limiter keeps the instants of the requests that it let through, oldest
//! first. A request passes while fewer than `limit` of them lie inside the window; otherwise it
//! is refused until the oldest one leaves the window. Instants that have left the window are
//! dropped on every call, a client without instants has no entry, and once `max_clients` clients
//! are held a new one displaces the client whose oldest instant is the earliest. A limiter whose
//! limit is zero refuses every request; one that may hold no client has nothing to count by, and
//! refuses none unless its limit is zero.
//!
//! Ages are compared with the length of the window, so a window that reaches back behind the
//! origin of the clock simply holds everything since then.

use std::collections::VecDeque;

use vstd::prelude::*;

use crate::time::{Duration, Instant};

verus! {

/// The verdict on one request.
#[derive(Debug)]
pub enum Allowance {
    /// The request passes.
    Allowed,
    /// The client has used up its limit; `retry_after` is the time to wait.
    Denied { retry_after: Duration },
}

/// What the limiter remembers of one client.
struct Client {
    /// What identifies the client.
    key: String,
    /// When its requests were let through, in the order of arrival.
    times: VecDeque<Instant>,
}

/// Lets at most `limit` requests of a client through in any `window`, for up to `max_clients`
/// clients at a time.
pub struct RateLimiter {
    clients: Vec<Client>,
    limit: usize,
    window: Duration,
    max_clients: usize,
}

/// The limiter as a value: which instants it holds for which client, and its settings.
pub ghost struct LimiterState {
    /// The instants held for each client, in nanoseconds.
    pub windows: Map<Seq<char>, Seq<nat>>,
    /// How many instants of a client may lie in the window.
    pub limit: nat,
    /// The length of the window in nanoseconds.
    pub window: nat,
    /// How many clients are held at most.
    pub max_clients: nat,
}

/// `times` without the leading instants that come before `cutoff`.
pub open spec fn live(times: Seq<nat>, cutoff: int) -> Seq<nat>
    decreases times.len(),
{
    if times.len() == 0 || times[0] >= cutoff {
        times
    } else {
        live(times.drop_first(), cutoff)
    }
}

/// `windows` with every client trimmed to its live instants, and without the clients that have
/// none left.
pub open spec fn prune(windows: Map<Seq<char>, Seq<nat>>, cutoff: int) -> Map<
    Seq<char>,
    Seq<nat>,
> {
    Map::new(
        |key: Seq<char>| windows.contains_key(key) && live(windows[key], cutoff).len() > 0,
        |key: Seq<char>| live(windows[key], cutoff),
    )
}

/// Whether no client of `windows` has an earlier first instant than `key`.
pub open spec fn is_oldest(windows: Map<Seq<char>, Seq<nat>>, key: Seq<char>) -> bool {
    &&& windows.contains_key(key)
    &&& forall|other: Seq<char>| #[trigger]
        windows.contains_key(other) ==> windows[key][0] <= windows[other][0]
}

/// The time from `now` until `oldest` leaves a window of length `window`.
pub open spec fn time_until_free(window: nat, now: nat, oldest: nat) -> int {
    let age = if now >= oldest {
        now - oldest
    } else {
        0int
    };
    if window >= age {
        window - age
    } else {
        0
    }
}

impl LimiterState {
    /// What holds of every limiter: no client without instants, no client with more instants
    /// than the limit, no more clients than the maximum.
    pub open spec fn valid(self) -> bool {
        &&& self.windows.dom().finite()
        &&& self.windows.len() <= self.max_clients
        &&& forall|key: Seq<char>| #[trigger]
            self.windows.contains_key(key) ==> 0 < self.windows[key].len() <= self.limit
    }

    /// The state with other instants and the same settings.
    pub open spec fn with_windows(self, windows: Map<Seq<char>, Seq<nat>>) -> LimiterState {
        LimiterState { windows, ..self }
    }

    /// The state after everything that left the window before `now` is forgotten.
    pub open spec fn expire(self, now: nat) -> LimiterState {
        self.with_windows(prune(self.windows, now - self.window))
    }

    /// Whether a request of `key` at `now` may turn this state into `post` with `verdict`.
    ///
    /// The verdict follows from the state. Where nothing may pass, a request is refused for a
    /// whole window. Where no client may be held, it passes uncounted. Where a new client
    /// displaces another and several are the oldest, any of them may be the one that goes.
    pub open spec fn admits(
        self,
        key: Seq<char>,
        now: nat,
        post: LimiterState,
        verdict: Allowance,
    ) -> bool {
        let held = self.expire(now).windows;
        if held.contains_key(key) {
            if held[key].len() >= self.limit {
                &&& verdict matches Allowance::Denied { retry_after }
                &&& retry_after@ == time_until_free(self.window, now, held[key][0])
                &&& post == self.with_windows(held)
            } else {
                &&& verdict is Allowed
                &&& post == self.with_windows(held.insert(key, held[key].push(now)))
            }
        } else if self.limit == 0 {
            &&& verdict matches Allowance::Denied { retry_after }
            &&& retry_after@ == self.window
            &&& post == self.with_windows(held)
        } else {
            &&& verdict is Allowed
            &&& if self.max_clients == 0 {
                post == self.with_windows(held)
            } else if held.len() >= self.max_clients {
                exists|victim: Seq<char>| #[trigger]
                    is_oldest(held, victim) && post == self.with_windows(
                        held.remove(victim).insert(key, seq![now]),
                    )
            } else {
                post == self.with_windows(held.insert(key, seq![now]))
            }
        }
    }
}

spec fn instants(times: Seq<Instant>) -> Seq<nat> {
    times.map_values(|t: Instant| t@)
}

spec fn distinct(clients: Seq<Client>) -> bool {
    forall|i: int, j: int|
        0 <= i < clients.len() && 0 <= j < clients.len() && i != j ==> (#[trigger]
        clients[i]).key@ != (#[trigger] clients[j]).key@
}

spec fn held_at(clients: Seq<Client>, key: Seq<char>, i: int) -> bool {
    0 <= i < clients.len() && clients[i].key@ == key
}

spec fn index_of(clients: Seq<Client>, key: Seq<char>) -> int {
    choose|i: int| held_at(clients, key, i)
}

spec fn windows_of(clients: Seq<Client>) -> Map<Seq<char>, Seq<nat>> {
    Map::new(
        |key: Seq<char>| exists|i: int| held_at(clients, key, i),
        |key: Seq<char>| instants(clients[index_of(clients, key)].times@),
    )
}

impl View for RateLimiter {
    type V = LimiterState;

    closed spec fn view(&self) -> LimiterState {
        LimiterState {
            windows: windows_of(self.clients@),
            limit: self.limit as nat,
            window: self.window@,
            max_clients: self.max_clients as nat,
        }
    }
}

/// Each client stands in the map with its own instants.
proof fn lemma_window_at(clients: Seq<Client>, i: int)
    requires
        distinct(clients),
        0 <= i < clients.len(),
    ensures
        windows_of(clients).contains_key(clients[i].key@),
        windows_of(clients)[clients[i].key@] == instants(clients[i].times@),
{
    let key = clients[i].key@;
    assert(held_at(clients, key, i));
    assert(held_at(clients, key, index_of(clients, key)));
}

/// The map has as many keys as there are clients.
proof fn lemma_windows_len(clients: Seq<Client>)
    requires
        distinct(clients),
    ensures
        windows_of(clients).dom().finite(),
        windows_of(clients).len() == clients.len(),
{
    let keys = clients.map_values(|c: Client| c.key@);
    assert(keys.no_duplicates());
    keys.unique_seq_to_set();
    assert(windows_of(clients).dom() =~= keys.to_set()) by {
        assert forall|key: Seq<char>|
            windows_of(clients).dom().contains(key) == keys.to_set().contains(key) by {
            if windows_of(clients).dom().contains(key) {
                let i = choose|i: int| held_at(clients, key, i);
                assert(keys[i] == key);
            }
            if keys.contains(key) {
                let i = keys.index_of(key);
                assert(held_at(clients, key, i));
            }
        }
    }
}

/// Giving the client at `i` other instants changes its entry of the map alone.
proof fn lemma_replaced(pre: Seq<Client>, post: Seq<Client>, i: int, times: Seq<nat>)
    requires
        distinct(pre),
        0 <= i < pre.len() == post.len(),
        post[i].key@ == pre[i].key@,
        instants(post[i].times@) == times,
        forall|j: int| 0 <= j < pre.len() && j != i ==> #[trigger] post[j] == pre[j],
    ensures
        distinct(post),
        windows_of(post) == windows_of(pre).insert(pre[i].key@, times),
{
    let inserted = windows_of(pre).insert(pre[i].key@, times);
    lemma_window_at(pre, i);
    assert(forall|j: int| 0 <= j < pre.len() ==> (#[trigger] post[j]).key@ == pre[j].key@);
    assert forall|key: Seq<char>| #[trigger]
        windows_of(post).contains_key(key) implies inserted.contains_key(key)
        && windows_of(post)[key] == inserted[key] by {
        let j = choose|j: int| held_at(post, key, j);
        assert(held_at(post, key, j));
        assert(held_at(pre, key, j));
        lemma_window_at(post, j);
        lemma_window_at(pre, j);
    }
    assert forall|key: Seq<char>|
        inserted.contains_key(key) implies #[trigger] windows_of(post).contains_key(key) by {
        let j = choose|j: int| held_at(pre, key, j);
        assert(held_at(pre, key, j));
        assert(held_at(post, key, j));
    }
    assert(windows_of(post) =~= inserted);
}

/// A client under a new key adds its entry to the map.
proof fn lemma_added(pre: Seq<Client>, post: Seq<Client>, key: Seq<char>, times: Seq<nat>)
    requires
        distinct(pre),
        !windows_of(pre).contains_key(key),
        post.len() == pre.len() + 1,
        post.drop_last() == pre,
        post.last().key@ == key,
        instants(post.last().times@) == times,
    ensures
        distinct(post),
        windows_of(post) == windows_of(pre).insert(key, times),
{
    let inserted = windows_of(pre).insert(key, times);
    assert(forall|j: int| 0 <= j < pre.len() ==> #[trigger] post[j] == pre[j]);
    assert forall|j: int| 0 <= j < pre.len() implies (#[trigger] pre[j]).key@ != key by {
        lemma_window_at(pre, j);
    }
    assert forall|other: Seq<char>| #[trigger]
        windows_of(post).contains_key(other) implies inserted.contains_key(other)
        && windows_of(post)[other] == inserted[other] by {
        let j = choose|j: int| held_at(post, other, j);
        assert(held_at(post, other, j));
        lemma_window_at(post, j);
        if j < pre.len() {
            lemma_window_at(pre, j);
        }
    }
    assert forall|other: Seq<char>|
        inserted.contains_key(other) implies #[trigger] windows_of(post).contains_key(other) by {
        if other == key {
            assert(held_at(post, other, pre.len() as int));
        } else {
            let j = choose|j: int| held_at(pre, other, j);
            assert(held_at(pre, other, j));
            assert(held_at(post, other, j));
        }
    }
    assert(windows_of(post) =~= inserted);
}

/// The live instants are what follows some number of instants that all come before the cutoff.
pub proof fn lemma_live_is_suffix(times: Seq<nat>, cutoff: int) -> (dropped: nat)
    ensures
        dropped <= times.len(),
        live(times, cutoff) == times.skip(dropped as int),
        forall|i: int| 0 <= i < dropped ==> times[i] < cutoff,
        dropped < times.len() ==> times[dropped as int] >= cutoff,
    decreases times.len(),
{
    if times.len() == 0 || times[0] >= cutoff {
        assert(times.skip(0) =~= times);
        0
    } else {
        let rest = times.drop_first();
        let n = lemma_live_is_suffix(rest, cutoff);
        assert(rest.skip(n as int) =~= times.skip(n as int + 1));
        assert forall|i: int| 0 <= i < n + 1 implies times[i] < cutoff by {
            if i > 0 {
                assert(rest[i - 1] == times[i]);
            }
        }
        n + 1
    }
}

/// Forgetting what has left the window keeps a state valid and never adds a client.
pub proof fn lemma_expire_valid(state: LimiterState, now: nat)
    requires
        state.valid(),
    ensures
        state.expire(now).valid(),
        state.expire(now).windows.len() <= state.windows.len(),
{
    let cutoff = now - state.window;
    let pruned = state.expire(now).windows;
    assert(pruned.dom().subset_of(state.windows.dom()));
    vstd::set_lib::lemma_len_subset(pruned.dom(), state.windows.dom());
    assert forall|key: Seq<char>| #[trigger] pruned.contains_key(key) implies pruned[key].len()
        <= state.windows[key].len() by {
        lemma_live_is_suffix(state.windows[key], cutoff);
    }
}

/// Drops the leading instants that left a window of length `window` before `now`.
fn trim(times: &mut VecDeque<Instant>, now: Instant, window: Duration)
    ensures
        instants(final(times)@) == live(instants(old(times)@), now@ - window@),
{
    while times.len() > 0 && window.is_shorter(now.saturating_duration_since(times[0]))
        invariant
            live(instants(times@), now@ - window@) == live(instants(old(times)@), now@ - window@),
        ensures
            times@.len() == 0 || times@[0]@ >= now@ - window@,
        decreases times@.len(),
    {
        assert(instants(times@)[0] == times@[0]@);
        let ghost pre = times@;
        times.pop_front();
        assert(instants(times@) =~= instants(pre).drop_first());
    }
    assert(times@.len() > 0 ==> instants(times@)[0] == times@[0]@);
}

impl RateLimiter {
    /// Whether the limiter is in one of the states that its methods produce.
    pub open spec fn wf(self) -> bool {
        &&& self.keys_distinct()
        &&& self@.valid()
    }

    /// No two entries belong to the same client.
    pub closed spec fn keys_distinct(self) -> bool {
        distinct(self.clients@)
    }

    /// A limiter that holds no client yet.
    pub fn new(limit: usize, window: Duration, max_clients: usize) -> (limiter: Self)
        ensures
            limiter.wf(),
            limiter@ == (LimiterState {
                windows: Map::empty(),
                limit: limit as nat,
                window: window@,
                max_clients: max_clients as nat,
            }),
    {
        let limiter = RateLimiter { clients: Vec::new(), limit, window, max_clients };
        proof {
            assert(limiter@.windows =~= Map::empty());
        }
        limiter
    }

    /// Forgets every instant that left the window before `now`, and every client without
    /// instants. Returns how many clients were forgotten.
    pub fn remove_expired(&mut self, now: Instant) -> (removed: usize)
        requires
            old(self).wf(),
        ensures
            final(self).wf(),
            final(self)@ == old(self)@.expire(now@),
            removed == old(self)@.windows.len() - final(self)@.windows.len(),
    {
        let before = self.clients.len();
        let window = self.window;
        let ghost all = self@.windows;
        let ghost cutoff = now@ - self.window@;
        proof {
            lemma_windows_len(self.clients@);
            assert forall|j: int| 0 <= j < self.clients@.len() implies {
                let c = #[trigger] self.clients@[j];
                &&& all.contains_key(c.key@)
                &&& instants(c.times@) == all[c.key@]
            } by {
                lemma_window_at(self.clients@, j);
            }
        }
        let mut i: usize = 0;
        while i < self.clients.len()
            invariant
                i <= self.clients.len() <= before,
                window == self.window,
                self.limit == old(self).limit,
                self.window == old(self).window,
                self.max_clients == old(self).max_clients,
                cutoff == now@ - window@,
                distinct(self.clients@),
                forall|j: int|
                    0 <= j < i ==> {
                        let c = #[trigger] self.clients@[j];
                        &&& all.contains_key(c.key@)
                        &&& instants(c.times@) == live(all[c.key@], cutoff)
                        &&& c.times@.len() > 0
                    },
                forall|j: int|
                    i <= j < self.clients@.len() ==> {
                        let c = #[trigger] self.clients@[j];
                        &&& all.contains_key(c.key@)
                        &&& instants(c.times@) == all[c.key@]
                    },
                forall|key: Seq<char>|
                    #[trigger] all.contains_key(key) && live(all[key], cutoff).len() > 0
                        ==> exists|j: int| held_at(self.clients@, key, j),
            decreases self.clients@.len() - i,
        {
            let ghost pre = self.clients@;
            let ghost at = i as int;
            trim(&mut self.clients[i].times, now, window);
            let ghost mid = self.clients@;
            assert(mid[at].key == pre[at].key);
            assert(forall|j: int| 0 <= j < pre.len() && j != at ==> mid[j] == pre[j]);
            if self.clients[i].times.len() == 0 {
                self.clients.swap_remove(i);
                assert forall|key: Seq<char>| #[trigger]
                    all.contains_key(key) && live(all[key], cutoff).len()
                        > 0 implies exists|j: int| held_at(self.clients@, key, j) by {
                    let j = choose|j: int| held_at(pre, key, j);
                    assert(held_at(pre, key, j));
                    if j == pre.len() - 1 {
                        assert(held_at(self.clients@, key, at));
                    } else {
                        assert(held_at(self.clients@, key, j));
                    }
                }
            } else {
                i += 1;
                assert forall|key: Seq<char>| #[trigger]
                    all.contains_key(key) && live(all[key], cutoff).len()
                        > 0 implies exists|j: int| held_at(self.clients@, key, j) by {
                    let j = choose|j: int| held_at(pre, key, j);
                    assert(held_at(self.clients@, key, j));
                }
            }
        }
        proof {
            lemma_windows_len(self.clients@);
            let pruned = prune(all, cutoff);
            assert forall|key: Seq<char>| #[trigger]
                self@.windows.contains_key(key) implies pruned.contains_key(key)
                && self@.windows[key] == pruned[key] by {
                let j = choose|j: int| held_at(self.clients@, key, j);
                assert(held_at(self.clients@, key, j));
                lemma_window_at(self.clients@, j);
            }
            assert(self@.windows =~= pruned);
            lemma_expire_valid(old(self)@, now@);
        }
        before - self.clients.len()
    }

    /// Where the client `key` stands among the clients, if it is held.
    fn position(&self, key: &str) -> (found: Option<usize>)
        ensures
            match found {
                Some(i) => held_at(self.clients@, key@, i as int),
                None => !self@.windows.contains_key(key@),
            },
    {
        let wanted = key.to_owned();
        let mut i: usize = 0;
        while i < self.clients.len()
            invariant
                i <= self.clients@.len(),
                wanted@ == key@,
                forall|j: int| 0 <= j < i ==> (#[trigger] self.clients@[j]).key@ != key@,
            decreases self.clients@.len() - i,
        {
            if self.clients[i].key == wanted {
                return Some(i);
            }
            i += 1;
        }
        None
    }

    /// Forgets a client whose first instant is the earliest of all, if there is a client.
    fn evict_oldest(&mut self)
        requires
            old(self).wf(),
        ensures
            final(self).wf(),
            if old(self)@.windows.len() == 0 {
                final(self)@ == old(self)@
            } else {
                exists|victim: Seq<char>| #[trigger]
                    is_oldest(old(self)@.windows, victim) && final(self)@ == old(
                        self,
                    )@.with_windows(old(self)@.windows.remove(victim))
            },
    {
        proof {
            lemma_windows_len(self.clients@);
        }
        if self.clients.len() == 0 {
            return ;
        }
        proof {
            assert forall|j: int| 0 <= j < self.clients@.len() implies (#[trigger]
            self.clients@[j]).times@.len() > 0 by {
                lemma_window_at(self.clients@, j);
            }
        }
        let mut oldest: usize = 0;
        let mut i: usize = 1;
        while i < self.clients.len()
            invariant
                oldest < i <= self.clients@.len(),
                forall|j: int|
                    0 <= j < self.clients@.len() ==> (#[trigger] self.clients@[j]).times@.len() > 0,
                forall|j: int|
                    0 <= j < i ==> self.clients@[oldest as int].times@[0]@ <= (#[trigger]
                    self.clients@[j]).times@[0]@,
                *self == *old(self),
            decreases self.clients@.len() - i,
        {
            if self.clients[i].times[0].is_before(self.clients[oldest].times[0]) {
                oldest = i;
            }
            i += 1;
        }
        let ghost victim = self.clients@[oldest as int].key@;
        let ghost pre = self.clients@;
        let ghost windows = self@.windows;
        proof {
            lemma_window_at(pre, oldest as int);
            assert forall|other: Seq<char>| #[trigger]
                windows.contains_key(other) implies windows[victim][0] <= windows[other][0] by {
                let j = choose|j: int| held_at(pre, other, j);
                assert(held_at(pre, other, j));
                lemma_window_at(pre, j);
            }
            assert(is_oldest(windows, victim));
        }
        self.clients.swap_remove(oldest);
        proof {
            let last = pre.len() - 1;
            assert forall|key: Seq<char>| #[trigger]
                self@.windows.contains_key(key) implies windows.remove(victim).contains_key(key)
                && self@.windows[key] == windows.remove(victim)[key] by {
                let j = choose|j: int| held_at(self.clients@, key, j);
                assert(held_at(self.clients@, key, j));
                lemma_window_at(self.clients@, j);
                lemma_window_at(
                    pre,
                    if j == oldest {
                        last
                    } else {
                        j
                    },
                );
            }
            assert forall|key: Seq<char>|
                windows.remove(victim).contains_key(key) implies #[trigger] self@.windows.contains_key(
                key,
            ) by {
                let j = choose|j: int| held_at(pre, key, j);
                assert(held_at(pre, key, j));
                assert(held_at(
                    self.clients@,
                    key,
                    if j == last {
                        oldest as int
                    } else {
                        j
                    },
                ));
            }
            assert(self@.windows =~= windows.remove(victim));
        }
    }

    /// Decides on a request of the client `key` at `now`, and remembers it if it passes.
    ///
    /// Under a limit of zero nothing passes. With no room for any client everything else does,
    /// and nothing is remembered.
    pub fn check(&mut self, key: &str, now: Instant) -> (verdict: Allowance)
        requires
            old(self).wf(),
        ensures
            final(self).wf(),
            old(self)@.admits(key@, now@, final(self)@, verdict),
    {
        self.remove_expired(now);
        let ghost held = self@.windows;
        let ghost pre = self.clients@;
        match self.position(key) {
            Some(i) => {
                proof {
                    lemma_window_at(pre, i as int);
                }
                if self.clients[i].times.len() >= self.limit {
                    let age = now.saturating_duration_since(self.clients[i].times[0]);
                    return Allowance::Denied { retry_after: self.window.saturating_sub(age) };
                }
                self.clients[i].times.push_back(now);
                proof {
                    assert(instants(self.clients@[i as int].times@) =~= held[key@].push(now@));
                    lemma_replaced(pre, self.clients@, i as int, held[key@].push(now@));
                }
            },
            None => {
                if self.limit == 0 {
                    return Allowance::Denied { retry_after: self.window };
                }
                if self.max_clients == 0 {
                    return Allowance::Allowed;
                }
                if self.clients.len() >= self.max_clients {
                    self.evict_oldest();
                }
                let ghost room = self.clients@;
                let mut times: VecDeque<Instant> = VecDeque::new();
                times.push_back(now);
                self.clients.push(Client { key: key.to_owned(), times });
                proof {
                    assert(self.clients@.drop_last() =~= room);
                    assert(instants(self.clients@.last().times@) =~= seq![now@]);
                    lemma_added(room, self.clients@, key@, seq![now@]);
                }
            },
        }
        proof {
            lemma_windows_len(pre);
            lemma_windows_len(self.clients@);
        }
        Allowance::Allowed
    }

    /// How many clients the limiter holds.
    pub fn len(&self) -> (n: usize)
        requires
            self.wf(),
        ensures
            n == self@.windows.len(),
    {
        proof {
            lemma_windows_len(self.clients@);
        }
        self.clients.len()
    }
}

} // verus!
