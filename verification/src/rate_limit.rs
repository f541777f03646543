//! Per-client rate limiting: each client may make a fixed number of requests
//! in a window of time that starts with its first request.
use vstd::prelude::*;

use crate::error::ErrorResponse;
use crate::models::{ErrorBody, ErrorBodyView, ErrorDetail};
use crate::text::same_text;

verus! {

/// Nanoseconds in a second.
pub const NANOS_PER_SEC: u128 = 1_000_000_000;

/// A client's request count in its current window and the window's start,
/// in nanoseconds on a monotonic clock.
pub type Slot = (u64, u128);

/// Counts the requests of each client in its current window.
///
/// The clients are kept in a vector, each at most once, beside a vector of
/// their slots, and found by a linear search. The specification of
/// `std::collections::HashMap` in vstd states what `get` and `insert` do only
/// for key types with `obeys_key_model`, a fact that vstd gives for the
/// integer types and `bool` but not for `String` (and that nothing but an
/// unproved assumption could add); with `String` keys a map here would carry
/// no provable contract at all.
#[derive(Debug)]
pub struct RateLimiter {
    clients: Vec<String>,
    slots: Vec<Slot>,
    max_requests: u64,
    window: u128,
}

pub struct RateLimiterView {
    pub clients: Map<Seq<char>, Slot>,
    pub max_requests: u64,
    pub window: u128,
}

/// The time from `start` to `now`, zero where `now` is earlier (as
/// `Instant::duration_since` measures it).
pub open spec fn elapsed(now: u128, start: u128) -> int {
    if now >= start {
        now - start
    } else {
        0
    }
}

/// The slot of a client after a request at `now`: a new window starts for a
/// new client and after the old window has run out; the count grows by one
/// (it stays at its maximum once it has reached `u64::MAX`).
pub open spec fn slot_after(prev: Option<Slot>, now: u128, window: u128) -> Slot {
    let base: Slot = match prev {
        None => (0, now),
        Some(s) => if elapsed(now, s.1) > window {
            (0, now)
        } else {
            s
        },
    };
    (if base.0 == u64::MAX {
        base.0
    } else {
        (base.0 + 1) as u64
    }, base.1)
}

/// The answer to a request that brought the count to `count`: how many
/// requests are left, or a refusal once the count exceeds the maximum.
pub open spec fn admission(count: u64, max_requests: u64) -> Result<u64, ()> {
    if count > max_requests {
        Err(())
    } else {
        Ok((max_requests - count) as u64)
    }
}

/// The slot that `m` holds for `client`, if any.
pub open spec fn slot_of(m: Map<Seq<char>, Slot>, client: Seq<char>) -> Option<Slot> {
    if m.contains_key(client) {
        Some(m[client])
    } else {
        None
    }
}

/// The clients whose window has not run out at `now`, with their slots.
pub open spec fn live_clients(m: Map<Seq<char>, Slot>, now: u128, window: u128) -> Map<
    Seq<char>,
    Slot,
> {
    Map::new(|k: Seq<char>| m.contains_key(k) && elapsed(now, m[k].1) <= window, |k: Seq<char>| m[k])
}

/// The position at which `k` stands in `keys`.
pub closed spec fn index_in(keys: Seq<Seq<char>>, k: Seq<char>) -> int {
    choose|i: int| 0 <= i < keys.len() && keys[i] == k
}

impl RateLimiter {
    pub closed spec fn keys(&self) -> Seq<Seq<char>> {
        self.clients@.map_values(|c: String| c@)
    }

    pub closed spec fn index_of(&self, k: Seq<char>) -> int {
        index_in(self.keys(), k)
    }

    /// The limiter's invariant: one slot per client, each client once.
    pub closed spec fn wf(&self) -> bool {
        &&& self.clients@.len() == self.slots@.len()
        &&& forall|i: int, j: int|
            0 <= i < j < self.keys().len() ==> self.keys()[i] != self.keys()[j]
    }
}

impl View for RateLimiter {
    type V = RateLimiterView;

    closed spec fn view(&self) -> RateLimiterView {
        RateLimiterView {
            clients: Map::new(
                |k: Seq<char>| exists|i: int| 0 <= i < self.keys().len() && self.keys()[i] == k,
                |k: Seq<char>| self.slots@[self.index_of(k)],
            ),
            max_requests: self.max_requests,
            window: self.window,
        }
    }
}

impl RateLimiter {
    /// A limiter that admits `max_requests` requests per client in each
    /// window of `window_secs` seconds.
    pub fn new(max_requests: u64, window_secs: u64) -> (r: Self)
        ensures
            r.wf(),
            r@.clients == Map::<Seq<char>, Slot>::empty(),
            r@.max_requests == max_requests,
            r@.window == window_secs * NANOS_PER_SEC,
    {
        let r = RateLimiter {
            clients: Vec::new(),
            slots: Vec::new(),
            max_requests,
            window: window_secs as u128 * NANOS_PER_SEC,
        };
        assert(r@.clients =~= Map::<Seq<char>, Slot>::empty());
        r
    }

    /// The position of `client` among the tracked clients, if it is tracked.
    fn find(&self, client: &str) -> (r: Option<usize>)
        requires
            self.wf(),
        ensures
            match r {
                Some(i) => i < self.keys().len() && self.keys()[i as int] == client@,
                None => forall|i: int| 0 <= i < self.keys().len() ==> self.keys()[i] != client@,
            },
    {
        let n = self.clients.len();
        let mut i: usize = 0;
        while i < n
            invariant
                n == self.clients@.len(),
                n == self.keys().len(),
                i <= n,
                forall|j: int| 0 <= j < i ==> self.keys()[j] != client@,
            decreases n - i,
        {
            if same_text(self.clients[i].as_str(), client) {
                return Some(i);
            }
            i = i + 1;
        }
        None
    }

    /// Counts a request of `client` at time `now` (nanoseconds) and answers
    /// how many more the client may make in its window, or refuses it.
    pub fn check(&mut self, client: &str, now: u128) -> (r: Result<u64, ()>)
        requires
            old(self).wf(),
        ensures
            final(self).wf(),
            final(self)@.max_requests == old(self)@.max_requests,
            final(self)@.window == old(self)@.window,
            final(self)@.clients == old(self)@.clients.insert(
                client@,
                slot_after(slot_of(old(self)@.clients, client@), now, old(self)@.window),
            ),
            r == admission(
                slot_after(slot_of(old(self)@.clients, client@), now, old(self)@.window).0,
                old(self)@.max_requests,
            ),
    {
        let ghost old_view = self@;
        let ghost old_keys = self.keys();
        let found = self.find(client);
        let slot: Slot = match found {
            Some(i) => {
                proof {
                    let j = self.index_of(client@);
                    assert(self.keys()[i as int] == client@);
                    assert(old_view.clients.contains_key(client@));
                    assert(j == i);
                }
                let prev = self.slots[i];
                let start = prev.1;
                let age = if now >= start { now - start } else { 0 };
                let base: Slot = if age > self.window { (0, now) } else { prev };
                let count = if base.0 == u64::MAX { base.0 } else { base.0 + 1 };
                let slot: Slot = (count, base.1);
                self.slots.set(i, slot);
                proof {
                    assert(self.keys() =~= old_keys);
                    assert(self@.clients =~= old_view.clients.insert(client@, slot)) by {
                        assert forall|k: Seq<char>| #[trigger] self@.clients.contains_key(k)
                            <==> old_view.clients.insert(client@, slot).contains_key(k) by {}
                        assert forall|k: Seq<char>| #[trigger] self@.clients.contains_key(k)
                            implies self@.clients[k] == old_view.clients.insert(client@, slot)[k] by {
                            let a = self.index_of(k);
                            if k != client@ {
                                assert(a != i);
                            }
                        }
                    }
                }
                slot
            },
            None => {
                proof {
                    assert(!old_view.clients.contains_key(client@));
                }
                let slot: Slot = (1, now);
                self.clients.push(String::from_str(client));
                self.slots.push(slot);
                proof {
                    assert(self.keys() =~= old_keys.push(client@));
                    assert(self@.clients =~= old_view.clients.insert(client@, slot)) by {
                        let n = old_keys.len() as int;
                        assert forall|k: Seq<char>| #[trigger] self@.clients.contains_key(k)
                            <==> old_view.clients.insert(client@, slot).contains_key(k) by {
                            if k == client@ {
                                assert(self.keys()[n] == k);
                            } else if old_view.clients.contains_key(k) {
                                let j = choose|j: int| 0 <= j < old_keys.len() && old_keys[j] == k;
                                assert(self.keys()[j] == k);
                            }
                        }
                        assert forall|k: Seq<char>| #[trigger] self@.clients.contains_key(k)
                            implies self@.clients[k] == old_view.clients.insert(client@, slot)[k] by {
                            let a = self.index_of(k);
                            if k == client@ {
                                assert(a == n);
                            } else {
                                let b = choose|j: int| 0 <= j < old_keys.len() && old_keys[j] == k;
                                assert(self.keys()[b] == k);
                                assert(a == b);
                            }
                        }
                    }
                }
                slot
            },
        };
        if slot.0 > self.max_requests {
            Err(())
        } else {
            Ok(self.max_requests - slot.0)
        }
    }
}

impl RateLimiter {
    /// Forgets the clients whose window has run out at `now`.
    pub fn retain_live(&mut self, now: u128)
        requires
            old(self).wf(),
        ensures
            final(self).wf(),
            final(self)@.max_requests == old(self)@.max_requests,
            final(self)@.window == old(self)@.window,
            final(self)@.clients == live_clients(old(self)@.clients, now, old(self)@.window),
            forall|k: Seq<char>|
                old(self)@.clients.contains_key(k) && elapsed(now, old(self)@.clients[k].1)
                    <= old(self)@.window ==> #[trigger] final(self)@.clients.contains_key(k)
                    && final(self)@.clients[k] == old(self)@.clients[k],
            forall|k: Seq<char>|
                #[trigger] final(self)@.clients.contains_key(k) ==> old(self)@.clients.contains_key(k)
                    && final(self)@.clients[k] == old(self)@.clients[k] && elapsed(
                    now,
                    old(self)@.clients[k].1,
                ) <= old(self)@.window,
    {
        let ghost old_view = self@;
        let ghost old_keys = self.keys();
        let ghost old_slots = self.slots@;
        let window = self.window;
        let n = self.clients.len();
        let mut clients: Vec<String> = Vec::new();
        let mut slots: Vec<Slot> = Vec::new();
        let ghost mut src: Seq<int> = Seq::empty();
        let mut i: usize = 0;
        while i < n
            invariant
                self.wf(),
                self.keys() == old_keys,
                self.slots@ == old_slots,
                self.window == window,
                n == old_keys.len(),
                n == old_slots.len(),
                i <= n,
                clients@.len() == slots@.len(),
                src.len() == clients@.len(),
                forall|j: int| 0 <= j < src.len() ==> 0 <= #[trigger] src[j] < i,
                forall|j: int, k: int| 0 <= j < k < src.len() ==> src[j] < src[k],
                forall|j: int|
                    0 <= j < src.len() ==> #[trigger] clients@[j]@ == old_keys[src[j]]
                        && slots@[j] == old_slots[src[j]] && elapsed(now, old_slots[src[j]].1)
                        <= window,
                forall|k: int|
                    0 <= k < i && elapsed(now, old_slots[k].1) <= window ==> exists|j: int|
                        0 <= j < src.len() && #[trigger] src[j] == k,
            decreases n - i,
        {
            let slot = self.slots[i];
            let start = slot.1;
            let age = if now >= start { now - start } else { 0 };
            if age <= window {
                let ghost prev_clients = clients@;
                let ghost prev_slots = slots@;
                let ghost prev_src = src;
                clients.push(self.clients[i].clone());
                slots.push(slot);
                proof {
                    src = src.push(i as int);
                    assert(old_keys[i as int] == self.clients@[i as int]@);
                    assert forall|j: int| 0 <= j < src.len() implies #[trigger] clients@[j]@
                        == old_keys[src[j]] && slots@[j] == old_slots[src[j]] && elapsed(
                        now,
                        old_slots[src[j]].1,
                    ) <= window by {
                        if j < prev_src.len() {
                            assert(clients@[j] == prev_clients[j]);
                            assert(slots@[j] == prev_slots[j]);
                            assert(src[j] == prev_src[j]);
                        }
                    }
                    assert forall|k: int|
                        0 <= k < i + 1 && elapsed(now, old_slots[k].1) <= window implies exists|
                        j: int,
                    | 0 <= j < src.len() && #[trigger] src[j] == k by {
                        if k < i {
                            let j = choose|j: int| 0 <= j < prev_src.len() && #[trigger] prev_src[j] == k;
                            assert(src[j] == k);
                        } else {
                            assert(src[src.len() - 1] == k);
                        }
                    }
                }
            }
            i = i + 1;
        }
        let ghost new_keys = clients@.map_values(|c: String| c@);
        proof {
            assert forall|a: int, b: int| 0 <= a < b < new_keys.len() implies new_keys[a]
                != new_keys[b] by {
                assert(new_keys[a] == old_keys[src[a]]);
                assert(new_keys[b] == old_keys[src[b]]);
            }
        }
        self.clients = clients;
        self.slots = slots;
        proof {
            assert(self.keys() =~= new_keys);
            let expected = live_clients(old_view.clients, now, window);
            assert forall|k: Seq<char>| #[trigger] self@.clients.contains_key(k)
                <==> expected.contains_key(k) by {
                if self@.clients.contains_key(k) {
                    let j = choose|j: int| 0 <= j < new_keys.len() && new_keys[j] == k;
                    assert(new_keys[j] == old_keys[src[j]]);
                    assert(old_view.clients.contains_key(k));
                    assert(old_view.clients[k] == old_slots[src[j]]);
                }
                if expected.contains_key(k) {
                    let o = choose|o: int| 0 <= o < old_keys.len() && old_keys[o] == k;
                    let oi = index_in(old_keys, k);
                    assert(o == oi);
                    let j = choose|j: int| 0 <= j < src.len() && #[trigger] src[j] == o;
                    assert(new_keys[j] == k);
                }
            }
            assert forall|k: Seq<char>| #[trigger] self@.clients.contains_key(k)
                implies self@.clients[k] == expected[k] by {
                let j = self.index_of(k);
                assert(new_keys[j] == old_keys[src[j]]);
                assert(index_in(old_keys, k) == src[j]);
            }
            assert(self@.clients =~= expected);
        }
    }
}

/// The answer to a request that the rate limit refuses.
pub fn rate_limit_exceeded() -> (r: ErrorResponse)
    ensures
        r.status == 429,
        r.body@ == (ErrorBodyView {
            code: "RATE_LIMIT_EXCEEDED"@,
            message: "Too many requests. Please try again later."@,
        }),
{
    ErrorResponse {
        status: 429,
        body: ErrorBody {
            error: ErrorDetail {
                code: String::from_str("RATE_LIMIT_EXCEEDED"),
                message: String::from_str("Too many requests. Please try again later."),
            },
        },
    }
}

/// The answers that a client gets to requests at `times`, one after the
/// other, starting from the slot `prev`.
pub open spec fn answers(prev: Option<Slot>, times: Seq<u128>, window: u128, max_requests: u64) -> Seq<
    Result<u64, ()>,
>
    decreases times.len(),
{
    if times.len() == 0 {
        Seq::empty()
    } else {
        let s = slot_after(prev, times[0], window);
        seq![admission(s.0, max_requests)] + answers(
            Some(s),
            times.subrange(1, times.len() as int),
            window,
            max_requests,
        )
    }
}

/// `n`, held in a `u64` that stays at its maximum once it reaches it.
pub open spec fn capped(n: int) -> u64 {
    if n >= u64::MAX {
        u64::MAX
    } else {
        n as u64
    }
}

/// Within a window, the answers count on from the client's slot: the
/// `i`-th further request of a window that already holds `count` requests is
/// answered as the `count + i + 1`-th (held in a `u64` that stops at its
/// maximum).
pub proof fn lemma_answers_within_window(
    count: u64,
    start: u128,
    times: Seq<u128>,
    window: u128,
    max_requests: u64,
)
    requires
        forall|i: int| 0 <= i < times.len() ==> elapsed(#[trigger] times[i], start) <= window,
    ensures
        answers(Some((count, start)), times, window, max_requests).len() == times.len(),
        forall|i: int|
            0 <= i < times.len() ==> #[trigger] answers(Some((count, start)), times, window, max_requests)[i]
                == admission(capped(count + i + 1), max_requests),
    decreases times.len(),
{
    if times.len() > 0 {
        let rest = times.subrange(1, times.len() as int);
        assert(elapsed(times[0], start) <= window);
        let next: u64 = capped(count + 1);
        assert(slot_after(Some((count, start)), times[0], window) == (next, start));
        assert forall|i: int| 0 <= i < rest.len() implies elapsed(#[trigger] rest[i], start)
            <= window by {
            assert(rest[i] == times[i + 1]);
        }
        lemma_answers_within_window(next, start, rest, window, max_requests);
        let all = answers(Some((count, start)), times, window, max_requests);
        assert forall|i: int| 0 <= i < times.len() implies #[trigger] all[i] == admission(
            capped(count + i + 1),
            max_requests,
        ) by {
            if i > 0 {
                assert(rest[i - 1] == times[i]);
                assert(all[i] == answers(Some((next, start)), rest, window, max_requests)[i - 1]);
                assert(capped(next + (i - 1) + 1) == capped(count + i + 1));
            }
        }
    }
}

/// Each client may make `max_requests` requests in a window: a client
/// without a slot that makes requests within `window` of its first one is
/// told that `max_requests - 1`, `max_requests - 2`, ..., `0` requests are
/// left, and is refused from the request after that on. The count is held
/// in a `u64` that stops at its maximum, so this holds for any number of
/// requests when `max_requests` is below `u64::MAX`, and for up to
/// `u64::MAX` requests otherwise.
pub proof fn lemma_window_admits_max_requests(times: Seq<u128>, window: u128, max_requests: u64)
    requires
        0 < times.len(),
        max_requests < u64::MAX || times.len() <= u64::MAX,
        forall|i: int| 0 <= i < times.len() ==> elapsed(#[trigger] times[i], times[0]) <= window,
    ensures
        answers(None, times, window, max_requests).len() == times.len(),
        forall|i: int|
            0 <= i < times.len() ==> #[trigger] answers(None, times, window, max_requests)[i] == if i
                < max_requests {
                Ok((max_requests - i - 1) as u64)
            } else {
                Err(())
            },
{
    let rest = times.subrange(1, times.len() as int);
    assert(elapsed(times[0], times[0]) == 0);
    assert forall|i: int| 0 <= i < rest.len() implies elapsed(#[trigger] rest[i], times[0])
        <= window by {
        assert(rest[i] == times[i + 1]);
    }
    lemma_answers_within_window(1, times[0], rest, window, max_requests);
    let all = answers(None, times, window, max_requests);
    assert forall|i: int| 0 <= i < times.len() implies #[trigger] all[i] == if i < max_requests {
        Ok((max_requests - i - 1) as u64)
    } else {
        Err(())
    } by {
        if i > 0 {
            assert(all[i] == answers(Some((1, times[0])), rest, window, max_requests)[i - 1]);
            assert(capped(1 + (i - 1) + 1) == capped(i + 1));
        }
    }
}

/// Requests are counted per client: counting a request of `client` leaves
/// the slot of every other client as it was.
pub proof fn lemma_clients_are_independent(
    limiter: RateLimiterView,
    client: Seq<char>,
    other: Seq<char>,
    now: u128,
)
    requires
        client != other,
    ensures
        slot_of(
            limiter.clients.insert(
                client,
                slot_after(slot_of(limiter.clients, client), now, limiter.window),
            ),
            other,
        ) == slot_of(limiter.clients, other),
{
}

/// Once a client's window has run out, its next request opens a new window:
/// the request is counted as the first one and is admitted whenever any
/// request is.
pub proof fn lemma_expired_window_restarts(slot: Slot, now: u128, window: u128, max_requests: u64)
    requires
        elapsed(now, slot.1) > window,
    ensures
        slot_after(Some(slot), now, window) == (1u64, now),
        admission(slot_after(Some(slot), now, window).0, max_requests) == if max_requests >= 1 {
            Ok((max_requests - 1) as u64)
        } else {
            Err(())
        },
{
}

/// Forgetting the clients whose window has run out changes no later answer:
/// a forgotten client's next request, at a time no earlier than the cleanup,
/// gets the same slot as if it had been kept.
pub proof fn lemma_forgetting_expired_clients_is_invisible(
    slot: Slot,
    cleanup_time: u128,
    now: u128,
    window: u128,
)
    requires
        elapsed(cleanup_time, slot.1) > window,
        cleanup_time <= now,
    ensures
        slot_after(Some(slot), now, window) == slot_after(None, now, window),
{
}

/// A cleanup at `cleanup_time` changes no later answer: whatever the
/// tracked clients, for every client and every request no earlier than the
/// cleanup, the slot after the request (and so the answer) is the same
/// whether the cleanup ran or not. A client whose window is still running
/// at the cleanup keeps its slot, count and start unchanged.
pub proof fn lemma_cleanup_changes_no_later_answer(
    m: Map<Seq<char>, Slot>,
    cleanup_time: u128,
    now: u128,
    window: u128,
    client: Seq<char>,
)
    requires
        cleanup_time <= now,
    ensures
        slot_after(slot_of(live_clients(m, cleanup_time, window), client), now, window)
            == slot_after(slot_of(m, client), now, window),
        m.contains_key(client) && elapsed(cleanup_time, m[client].1) <= window ==> live_clients(
            m,
            cleanup_time,
            window,
        ).contains_key(client) && live_clients(m, cleanup_time, window)[client] == m[client],
{
}

} // verus!
