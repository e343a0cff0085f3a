//! The limit on requests to subscribe from one address of the network.
use vstd::prelude::*;
use vstd::string::*;

use crate::text;

verus! {

/// How many requests are let through.
pub const ATTEMPTS: usize = 5;

/// In how many seconds.
pub const WINDOW: i64 = 3600;

/// When requests came from which address, as far as that still counts.
#[derive(Debug)]
pub struct RateLimiter {
    entries: Vec<(String, Vec<i64>)>,
}

/// The times within the last hour.
pub open spec fn fresh(times: Seq<i64>, now: i64) -> Seq<i64> {
    times.filter(|t: i64| t > now - WINDOW)
}

/// The times that count after a request.
pub open spec fn after_attempt(times: Seq<i64>, now: i64) -> Seq<i64> {
    if fresh(times, now).len() < ATTEMPTS {
        fresh(times, now).push(now)
    } else {
        fresh(times, now)
    }
}

impl RateLimiter {
    /// There is an entry for the address.
    pub closed spec fn known(&self, ip: Seq<char>) -> bool {
        exists|i: int| 0 <= i < self.entries@.len() && (#[trigger] self.entries@[i]).0@ == ip
    }

    /// The times that count for an address.
    pub closed spec fn attempts(&self, ip: Seq<char>) -> Seq<i64> {
        if self.known(ip) {
            let i = choose|i: int|
                0 <= i < self.entries@.len() && (#[trigger] self.entries@[i]).0@ == ip;
            self.entries@[i].1@
        } else {
            Seq::empty()
        }
    }

    /// No address has two entries, and no more times count for one than are let through.
    pub closed spec fn wf(&self) -> bool {
        &&& forall|i: int, j: int|
            0 <= i < j < self.entries@.len() ==> (#[trigger] self.entries@[i]).0@ != (
            #[trigger] self.entries@[j]).0@
        &&& forall|i: int|
            0 <= i < self.entries@.len() ==> (#[trigger] self.entries@[i]).1@.len() <= ATTEMPTS
    }

    /// No more times count for an address than are let through.
    pub proof fn attempts_are_bounded(&self, ip: Seq<char>)
        requires
            self.wf(),
        ensures
            self.attempts(ip).len() <= ATTEMPTS,
    {
    }

    /// The times that count for the address of an entry are those in it.
    proof fn attempts_at(&self, i: int)
        requires
            self.wf(),
            0 <= i < self.entries@.len(),
        ensures
            self.known(self.entries@[i].0@),
            self.attempts(self.entries@[i].0@) == self.entries@[i].1@,
    {
        let ip = self.entries@[i].0@;
        assert(self.known(ip));
        let j = choose|j: int|
            0 <= j < self.entries@.len() && (#[trigger] self.entries@[j]).0@ == ip;
        if j < i {
            assert(self.entries@[j].0@ != self.entries@[i].0@);
        } else if i < j {
            assert(self.entries@[i].0@ != self.entries@[j].0@);
        }
    }

    /// A limiter that has seen no request.
    pub fn new() -> (r: RateLimiter)
        ensures
            r.wf(),
            forall|ip: Seq<char>| #[trigger] r.attempts(ip) == Seq::<i64>::empty(),
    {
        RateLimiter { entries: Vec::new() }
    }

    /// Whether a request from an address is let through: where fewer than five were in the last
    /// hour. One that is let through counts from now on.
    pub fn rate_ok(&mut self, ip: &str, now: i64) -> (r: bool)
        requires
            old(self).wf(),
            now >= i64::MIN + WINDOW,
        ensures
            final(self).wf(),
            r == (fresh(old(self).attempts(ip@), now).len() < ATTEMPTS),
            final(self).attempts(ip@) == after_attempt(old(self).attempts(ip@), now),
            forall|other: Seq<char>|
                other != ip@ ==> #[trigger] final(self).attempts(other) == old(self).attempts(
                    other,
                ),
    {
        let n: usize = self.entries.len();
        let mut i: usize = 0;
        while i < n && !text::same(self.entries[i].0.as_str(), ip)
            invariant
                i <= n,
                n == self.entries@.len(),
                *self == *old(self),
                forall|j: int| 0 <= j < i ==> (#[trigger] self.entries@[j]).0@ != ip@,
            decreases n - i,
        {
            i += 1;
        }
        let ghost before = *self;
        let kept: Vec<i64> = if i < n {
            proof {
                self.attempts_at(i as int);
            }
            keep_fresh(&self.entries[i].1, now)
        } else {
            Vec::new()
        };
        proof {
            if i == n {
                assert(!self.known(ip@));
                reveal(Seq::filter);
                assert(fresh(Seq::<i64>::empty(), now) =~= Seq::<i64>::empty());
            }
            assert(kept@ == fresh(before.attempts(ip@), now));
        }
        let mut times: Vec<i64> = kept;
        let ok: bool = times.len() < ATTEMPTS;
        if ok {
            times.push(now);
        }
        let ghost stored = times@;
        assert(stored.len() <= ATTEMPTS) by {
            if i < n {
                before.attempts(ip@).lemma_filter_len(|t: i64| t > now - WINDOW);
            }
        }
        if i < n {
            let key: String = ip.to_owned();
            self.entries.set(i, (key, times));
        } else {
            let key: String = ip.to_owned();
            self.entries.push((key, times));
        }
        proof {
            assert(self.wf());
            self.attempts_at(i as int);
            assert forall|other: Seq<char>| other != ip@ implies #[trigger] self.attempts(other)
                == before.attempts(other) by {
                if before.known(other) {
                    let k = choose|k: int|
                        0 <= k < before.entries@.len() && (#[trigger] before.entries@[k]).0@
                            == other;
                    assert(self.entries@[k] == before.entries@[k]);
                    self.attempts_at(k);
                    before.attempts_at(k);
                } else if self.known(other) {
                    let k = choose|k: int|
                        0 <= k < self.entries@.len() && (#[trigger] self.entries@[k]).0@ == other;
                    assert(k != i);
                    assert(before.entries@[k].0@ == other);
                }
            }
        }
        ok
    }
}

/// The times within the last hour.
fn keep_fresh(times: &Vec<i64>, now: i64) -> (r: Vec<i64>)
    requires
        now >= i64::MIN + WINDOW,
    ensures
        r@ == fresh(times@, now),
{
    let ghost pred = |t: i64| t > now - WINDOW;
    let mut out: Vec<i64> = Vec::new();
    let mut i: usize = 0;
    proof {
        reveal(Seq::filter);
        assert(out@ =~= times@.take(0).filter(pred));
    }
    while i < times.len()
        invariant
            i <= times@.len(),
            now >= i64::MIN + WINDOW,
            pred == (|t: i64| t > now - WINDOW),
            out@ == times@.take(i as int).filter(pred),
        decreases times@.len() - i,
    {
        proof {
            crate::tables::filter_of_push(times@.take(i as int), times@[i as int], pred);
            assert(times@.take(i as int).push(times@[i as int]) =~= times@.take(i + 1));
        }
        if times[i] > now - WINDOW {
            out.push(times[i]);
        }
        i += 1;
    }
    assert(times@.take(i as int) =~= times@);
    out
}

// ---------- The limit over time ----------

/// The times that count after requests at the given times, all from one address.
pub open spec fn counted(requests: Seq<i64>) -> Seq<i64>
    decreases requests.len(),
{
    if requests.len() == 0 {
        Seq::empty()
    } else {
        after_attempt(counted(requests.drop_last()), requests.last())
    }
}

/// The times of those requests that are let through.
pub open spec fn let_through(requests: Seq<i64>) -> Seq<i64>
    decreases requests.len(),
{
    if requests.len() == 0 {
        Seq::empty()
    } else {
        let before = let_through(requests.drop_last());
        let now = requests.last();
        if fresh(counted(requests.drop_last()), now).len() < ATTEMPTS {
            before.push(now)
        } else {
            before
        }
    }
}

/// A limiter that has seen no request from an address stands where no request was made.
pub proof fn no_request_yet(limiter: RateLimiter, ip: Seq<char>)
    requires
        limiter.attempts(ip) == Seq::<i64>::empty(),
    ensures
        limiter.attempts(ip) == counted(Seq::empty()),
        let_through(Seq::empty()) == Seq::<i64>::empty(),
{
}

/// One more call of `rate_ok` for an address: what counts then is what counts after one more
/// request, and the call says whether that request is let through.
pub proof fn one_more_request(
    before: RateLimiter,
    after: RateLimiter,
    ip: Seq<char>,
    requests: Seq<i64>,
    now: i64,
    ok: bool,
)
    requires
        before.attempts(ip) == counted(requests),
        ok == (fresh(before.attempts(ip), now).len() < ATTEMPTS),
        after.attempts(ip) == after_attempt(before.attempts(ip), now),
    ensures
        after.attempts(ip) == counted(requests.push(now)),
        let_through(requests.push(now)) == if ok {
            let_through(requests).push(now)
        } else {
            let_through(requests)
        },
{
    assert(requests.push(now).drop_last() =~= requests);
}

/// Times in the order in which they came.
pub open spec fn in_order(times: Seq<i64>) -> bool {
    forall|i: int, j: int| 0 <= i <= j < times.len() ==> times[i] <= times[j]
}

/// A filter by age takes a front part away from times that are in order.
proof fn fresh_is_a_tail(times: Seq<i64>, now: i64) -> (k: int)
    requires
        in_order(times),
    ensures
        0 <= k <= times.len(),
        fresh(times, now) == times.skip(k),
        forall|i: int| 0 <= i < k ==> times[i] <= now - WINDOW,
        forall|i: int| k <= i < times.len() ==> times[i] > now - WINDOW,
    decreases times.len(),
{
    reveal(Seq::filter);
    if times.len() == 0 {
        assert(fresh(times, now) =~= times.skip(0));
        0
    } else {
        let head = times.drop_last();
        let k = fresh_is_a_tail(head, now);
        if times.last() > now - WINDOW {
            assert forall|i: int| 0 <= i < head.len() implies times[i] == head[i] by {}
            assert(head.skip(k).push(times.last()) =~= times.skip(k));
            k
        } else {
            assert forall|i: int| 0 <= i < times.len() implies times[i] <= now - WINDOW by {
                assert(times[i] <= times[times.len() - 1]);
            }
            if k < head.len() {
                assert(head[k] > now - WINDOW);
            }
            assert(head.skip(k) =~= times.skip(times.len() as int));
            times.len() as int
        }
    }
}

/// What counts is the tail of what was let through, and what no longer counts is an hour old.
proof fn counted_is_a_tail(requests: Seq<i64>) -> (k: int)
    requires
        in_order(requests),
    ensures
        0 <= k <= let_through(requests).len(),
        counted(requests) == let_through(requests).skip(k),
        in_order(let_through(requests)),
        forall|i: int|
            0 <= i < let_through(requests).len() ==> let_through(requests)[i] <= requests.last(),
        forall|i: int| 0 <= i < k ==> let_through(requests)[i] <= requests.last() - WINDOW,
    decreases requests.len(),
{
    if requests.len() == 0 {
        assert(counted(requests) =~= let_through(requests).skip(0));
        0
    } else {
        let past = requests.drop_last();
        let now = requests.last();
        let before = let_through(past);
        let k = counted_is_a_tail(past);
        assert forall|i: int| 0 <= i < before.len() implies before[i] <= now by {
            assert(past.len() > 0);
            assert(before[i] <= past.last());
            assert(requests[past.len() - 1] <= requests[past.len() as int]);
        }
        let tail = before.skip(k);
        let m = fresh_is_a_tail(tail, now);
        assert(fresh(tail, now) =~= before.skip(k + m));
        assert forall|i: int| 0 <= i < k + m implies before[i] <= now - WINDOW by {
            if i < k {
                assert(past.len() > 0);
                assert(before[i] <= past.last() - WINDOW);
                assert(requests[past.len() - 1] <= requests[past.len() as int]);
            } else {
                assert(tail[i - k] <= now - WINDOW);
            }
        }
        if fresh(tail, now).len() < ATTEMPTS {
            assert(before.skip(k + m).push(now) =~= before.push(now).skip(k + m));
        }
        k + m
    }
}

/// The limit that the service promises: of the requests from one address, no more than five are let
/// through within an hour. The sixth after any that was let through comes at least an hour later.
pub proof fn at_most_five_an_hour(requests: Seq<i64>, i: int)
    requires
        in_order(requests),
        0 <= i,
        i + ATTEMPTS < let_through(requests).len(),
    ensures
        let_through(requests)[i + ATTEMPTS] - let_through(requests)[i] >= WINDOW,
    decreases requests.len(),
{
    let past = requests.drop_last();
    let now = requests.last();
    let before = let_through(past);
    let k = counted_is_a_tail(past);
    if i + ATTEMPTS < before.len() {
        at_most_five_an_hour(past, i);
    } else {
        let tail = before.skip(k);
        assert forall|j: int| 0 <= j < before.len() implies before[j] <= now by {
            assert(before[j] <= past.last());
            assert(requests[past.len() - 1] <= requests[past.len() as int]);
        }
        let m = fresh_is_a_tail(tail, now);
        assert(fresh(tail, now).len() == before.len() - k - m);
        assert(i < k + m);
        if i < k {
            assert(before[i] <= past.last() - WINDOW);
            assert(requests[past.len() - 1] <= requests[past.len() as int]);
        } else {
            assert(tail[i - k] <= now - WINDOW);
        }
    }
}

/// A request is let through exactly where fewer than five were before it, or the fifth last of them
/// is at least an hour ago; one that is refused does not count.
pub proof fn when_a_request_is_let_through(requests: Seq<i64>, now: i64)
    requires
        in_order(requests.push(now)),
    ensures
        ({
            let before = let_through(requests);
            let n = before.len() as int;
            let after = let_through(requests.push(now));
            let allowed = n < 5 || before[n - 5] <= now - 3600;
            &&& allowed ==> after == before.push(now)
            &&& !allowed ==> after == before
        }),
{
    assert(requests.push(now).drop_last() =~= requests);
    assert forall|i: int, j: int| 0 <= i <= j < requests.len() implies requests[i]
        <= requests[j] by {
        assert(requests.push(now)[i] <= requests.push(now)[j]);
    }
    let before = let_through(requests);
    let n = before.len() as int;
    let k = counted_is_a_tail(requests);
    let tail = before.skip(k);
    let m = fresh_is_a_tail(tail, now);
    if requests.len() > 0 {
        let e = requests.len() - 1;
        assert(requests.push(now)[e] <= requests.push(now)[e + 1]);
        assert(requests.last() <= now);
    }
    assert(fresh(tail, now).len() == n - k - m);
    if n >= 5 {
        let c = n - 5;
        if c < k {
            assert(before[c] <= requests.last() - WINDOW);
        } else if c < k + m {
            assert(tail[c - k] <= now - WINDOW);
        } else {
            assert(tail[c - k] > now - WINDOW);
        }
    }
}

} // verus!
