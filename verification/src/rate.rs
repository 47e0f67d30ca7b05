//! The limit on how often requests are served.
use vstd::prelude::*;

use crate::error::AppError;
use crate::json::JsonView;
use crate::table::Table;

verus! {

/// Remembers, for each key, when requests were admitted, and admits so many in a
/// window of time. Times are nanoseconds on a clock that does not go back.
pub struct RateLimiter {
    admitted: Table<Vec<u128>>,
    window: u128,
    max_requests: u32,
}

/// Those of the times that lie less than a window before `now`.
pub open spec fn recent(times: Seq<u128>, now: u128, window: u128) -> Seq<u128> {
    times.filter(|t: u128| t > now - window)
}

/// A request at `now` is admitted: fewer than `max` were in the window before it.
pub open spec fn admits(times: Seq<u128>, now: u128, window: u128, max: u32) -> bool {
    recent(times, now, window).len() < max
}

/// The times that are remembered after a request at `now`.
pub open spec fn after_request(times: Seq<u128>, now: u128, window: u128, max: u32) -> Seq<u128> {
    if admits(times, now, window, max) {
        recent(times, now, window).push(now)
    } else {
        recent(times, now, window)
    }
}

/// The answer to a request that is not admitted.
pub open spec fn is_refusal(e: AppError) -> bool {
    e.says(
        429,
        "RATE_LIMIT_EXCEEDED"@,
        "请求过于频繁，请稍后再试"@,
        JsonView::Object(Map::empty()),
    )
}

impl RateLimiter {
    /// The remembered times of the requests under `key`.
    pub closed spec fn times(self, key: Seq<char>) -> Seq<u128> {
        if self.admitted@.contains_key(key) {
            self.admitted@[key]@
        } else {
            Seq::empty()
        }
    }

    /// The length of the window, in nanoseconds.
    pub closed spec fn window(self) -> u128 {
        self.window
    }

    /// How many requests a window admits.
    pub closed spec fn max_requests(self) -> u32 {
        self.max_requests
    }

    /// The table of the times is in order.
    pub closed spec fn wf(self) -> bool {
        self.admitted.wf()
    }

    /// A request under `key` at `now` is admitted.
    pub open spec fn admits_at(self, key: Seq<char>, now: u128) -> bool {
        admits(self.times(key), now, self.window(), self.max_requests())
    }

    /// The limiter becomes `after` by a request under `key` at `now`.
    pub open spec fn becomes(self, after: RateLimiter, key: Seq<char>, now: u128) -> bool {
        &&& after.wf()
        &&& after.window() == self.window()
        &&& after.max_requests() == self.max_requests()
        &&& after.times(key) == after_request(
            self.times(key),
            now,
            self.window(),
            self.max_requests(),
        )
        &&& forall|other: Seq<char>|
            other != key ==> #[trigger] after.times(other) == self.times(other)
    }

    /// The limiter becomes `after` by a request under `key` at `now`, and `r` tells whether it
    /// is admitted.
    pub open spec fn answers(
        self,
        after: RateLimiter,
        key: Seq<char>,
        now: u128,
        r: Result<(), AppError>,
    ) -> bool {
        &&& r is Ok <==> self.admits_at(key, now)
        &&& r matches Err(e) ==> is_refusal(e)
        &&& self.becomes(after, key, now)
    }

    /// The limiter admits `max_requests` in `window_secs` seconds, and has admitted none yet.
    pub open spec fn is_fresh(
        self,
        window_secs: u64,
        max_requests: u32,
    ) -> bool {
        &&& self.wf()
        &&& self.window() == window_secs * 1_000_000_000
        &&& self.max_requests() == max_requests
        &&& forall|key: Seq<char>| #[trigger] self.times(key) == Seq::<u128>::empty()
    }

    /// A limit of `max_requests` in `window_secs` seconds.
    pub fn new(window_secs: u64, max_requests: u32) -> (r: RateLimiter)
        ensures
            r.is_fresh(window_secs, max_requests),
    {
        RateLimiter {
            admitted: Table::new(),
            window: window_secs as u128 * 1_000_000_000,
            max_requests,
        }
    }

    /// Admits the request at `now` under `key`, or answers that there were too many.
    pub fn check(&mut self, key: &str, now: u128) -> (r: Result<(), AppError>)
        requires
            old(self).wf(),
        ensures
            old(self).answers(*final(self), key@, now, r),
    {
        if !self.admitted.contains(key) {
            self.admitted.insert(key.to_owned(), Vec::new());
        }
        assert(self.times(key@) =~= old(self).times(key@));
        let ghost times = self.times(key@);
        let window: u128 = self.window;
        let max: u32 = self.max_requests;
        let ghost pred = |t: u128| t > now - window;
        let entries = self.admitted.get_mut(key);
        let mut kept: Vec<u128> = Vec::new();
        let mut i: usize = 0;
        proof {
            reveal(Seq::filter);
            assert(kept@ =~= times.take(0).filter(pred));
        }
        while i < entries.len()
            invariant
                i <= entries@.len(),
                entries@ == times,
                pred == (|t: u128| t > now - window),
                kept@ == times.take(i as int).filter(pred),
            decreases entries@.len() - i,
        {
            let t: u128 = entries[i];
            proof {
                reveal(Seq::filter);
                assert(times.take(i + 1).drop_last() =~= times.take(i as int));
                assert(times.take(i + 1).last() == t);
            }
            if now < window || t > now - window {
                kept.push(t);
            }
            i = i + 1;
        }
        assert(times.take(times.len() as int) =~= times);
        assert(kept@ == recent(times, now, window));
        if kept.len() >= max as usize {
            *entries = kept;
            Err(AppError::new(429, "RATE_LIMIT_EXCEEDED", "请求过于频繁，请稍后再试"))
        } else {
            kept.push(now);
            *entries = kept;
            Ok(())
        }
    }
}

// ===================== Laws =====================
/// The times that are remembered after requests at the times of `requests`, one after
/// the other, where none were before.
pub open spec fn remembered(requests: Seq<u128>, window: u128, max: u32) -> Seq<u128>
    decreases requests.len(),
{
    if requests.len() == 0 {
        seq![]
    } else {
        after_request(
            remembered(requests.drop_last(), window, max),
            requests.last(),
            window,
            max,
        )
    }
}

/// The times of those of the requests that were admitted.
pub open spec fn admitted_times(requests: Seq<u128>, window: u128, max: u32) -> Seq<u128>
    decreases requests.len(),
{
    if requests.len() == 0 {
        seq![]
    } else {
        let before = admitted_times(requests.drop_last(), window, max);
        if admits(remembered(requests.drop_last(), window, max), requests.last(), window, max) {
            before.push(requests.last())
        } else {
            before
        }
    }
}

/// The times do not fall.
pub open spec fn ascending(times: Seq<u128>) -> bool {
    forall|i: int, j: int| 0 <= i <= j < times.len() ==> times[i] <= times[j]
}

/// What is recent takes the last time or leaves it.
proof fn lemma_recent_push(times: Seq<u128>, t: u128, now: u128, window: u128)
    ensures
        recent(times.push(t), now, window) == (if t > now - window {
            recent(times, now, window).push(t)
        } else {
            recent(times, now, window)
        }),
{
    reveal(Seq::filter);
    assert(times.push(t).drop_last() =~= times);
}

/// What is recent later on was recent before.
proof fn lemma_recent_recent(times: Seq<u128>, before: u128, now: u128, window: u128)
    requires
        before <= now,
    ensures
        recent(recent(times, before, window), now, window) == recent(times, now, window),
    decreases times.len(),
{
    reveal(Seq::filter);
    if times.len() == 0 {
        assert(recent(times, before, window) =~= seq![]);
    } else {
        let rest = times.drop_last();
        lemma_recent_recent(rest, before, now, window);
        assert(times =~= rest.push(times.last()));
        lemma_recent_push(rest, times.last(), before, window);
        lemma_recent_push(rest, times.last(), now, window);
        lemma_recent_push(recent(rest, before, window), times.last(), now, window);
    }
}

/// Of ascending times all from a recent one on are recent.
proof fn lemma_recent_from(times: Seq<u128>, i: int, now: u128, window: u128)
    requires
        ascending(times),
        0 <= i < times.len(),
        times[i] > now - window,
    ensures
        recent(times, now, window).len() >= times.len() - i,
    decreases times.len(),
{
    let rest = times.drop_last();
    assert(times =~= rest.push(times.last()));
    lemma_recent_push(rest, times.last(), now, window);
    assert(times[i] <= times.last());
    if i < rest.len() {
        lemma_recent_from(rest, i, now, window);
    }
}

/// What is remembered is enough: from the last request on, the same requests are
/// recent as if all that were admitted had been remembered.
proof fn lemma_remembered(requests: Seq<u128>, window: u128, max: u32, now: u128)
    requires
        ascending(requests),
        requests.len() > 0 ==> requests.last() <= now,
    ensures
        recent(remembered(requests, window, max), now, window) == recent(
            admitted_times(requests, window, max),
            now,
            window,
        ),
    decreases requests.len(),
{
    if requests.len() > 0 {
        let rest = requests.drop_last();
        let t = requests.last();
        if rest.len() > 0 {
            assert(requests[rest.len() - 1] <= requests[rest.len() as int]);
        }
        lemma_remembered(rest, window, max, now);
        let r = remembered(rest, window, max);
        let a = admitted_times(rest, window, max);
        lemma_recent_recent(r, t, now, window);
        lemma_recent_push(recent(r, t, window), t, now, window);
        lemma_recent_push(a, t, now, window);
    }
}

/// The times that were admitted ascend, and none is behind the last request.
proof fn lemma_admitted_ascend(requests: Seq<u128>, window: u128, max: u32)
    requires
        ascending(requests),
    ensures
        ascending(admitted_times(requests, window, max)),
        forall|i: int|
            0 <= i < admitted_times(requests, window, max).len() ==> requests.len() > 0
                && #[trigger] admitted_times(requests, window, max)[i] <= requests.last(),
    decreases requests.len(),
{
    if requests.len() > 0 {
        let rest = requests.drop_last();
        lemma_admitted_ascend(rest, window, max);
        if rest.len() > 0 {
            assert(requests[rest.len() - 1] <= requests[rest.len() as int]);
        }
        let before = admitted_times(rest, window, max);
        assert forall|i: int| 0 <= i < before.len() implies #[trigger] before[i]
            <= requests.last() by {
            assert(before[i] <= rest.last());
        }
    }
}

/// No window admits more than the limit: between a request that was admitted and the
/// one admitted `max` places later lies a whole window.
pub proof fn law_window_admits_at_most(requests: Seq<u128>, window: u128, max: u32, i: int)
    requires
        ascending(requests),
        0 <= i,
        i + max < admitted_times(requests, window, max).len(),
    ensures
        admitted_times(requests, window, max)[i + max] - admitted_times(requests, window, max)[i]
            >= window,
    decreases requests.len(),
{
    if requests.len() > 0 {
        let rest = requests.drop_last();
        let t = requests.last();
        let before = admitted_times(rest, window, max);
        if i + max < before.len() {
            law_window_admits_at_most(rest, window, max, i);
        } else {
            if rest.len() > 0 {
                assert(requests[rest.len() - 1] <= requests[rest.len() as int]);
            }
            lemma_remembered(rest, window, max, t);
            lemma_admitted_ascend(rest, window, max);
            if i < before.len() && before[i] > t - window {
                lemma_recent_from(before, i, t, window);
            }
        }
    }
}

/// A request is refused only where the window before it has admitted all it may.
pub proof fn law_refused_only_when_full(requests: Seq<u128>, window: u128, max: u32)
    requires
        ascending(requests),
        requests.len() > 0,
        admitted_times(requests, window, max) == admitted_times(requests.drop_last(), window, max),
    ensures
        recent(admitted_times(requests.drop_last(), window, max), requests.last(), window).len()
            >= max,
{
    let rest = requests.drop_last();
    if rest.len() > 0 {
        assert(requests[rest.len() - 1] <= requests[rest.len() as int]);
    }
    lemma_remembered(rest, window, max, requests.last());
    let before = admitted_times(rest, window, max);
    assert(before.push(requests.last()).len() != before.len());
}

/// A call of a limiter: a request under `key` at `now`.
pub struct LimiterCall {
    pub key: Seq<char>,
    pub now: u128,
}

/// The calls, one after the other, lead through the limiters, the first of which remembers
/// nothing.
pub open spec fn is_limiter_history(limiters: Seq<RateLimiter>, calls: Seq<LimiterCall>) -> bool {
    &&& limiters.len() == calls.len() + 1
    &&& forall|key: Seq<char>| #[trigger] limiters[0].times(key) == Seq::<u128>::empty()
    &&& forall|k: int|
        0 <= k < calls.len() ==> limiters[k].becomes(
            limiters[k + 1],
            (#[trigger] calls[k]).key,
            calls[k].now,
        )
}

/// The times of those of the calls that are under `key`.
pub open spec fn times_under(calls: Seq<LimiterCall>, key: Seq<char>) -> Seq<u128>
    decreases calls.len(),
{
    if calls.len() == 0 {
        seq![]
    } else if calls.last().key == key {
        times_under(calls.drop_last(), key).push(calls.last().now)
    } else {
        times_under(calls.drop_last(), key)
    }
}

/// The times of those of the calls under `key` that the limiters admitted.
pub open spec fn admitted_under(
    limiters: Seq<RateLimiter>,
    calls: Seq<LimiterCall>,
    key: Seq<char>,
) -> Seq<u128>
    decreases calls.len(),
{
    if calls.len() == 0 {
        seq![]
    } else {
        let before = admitted_under(limiters, calls.drop_last(), key);
        let last = calls.last();
        if last.key == key && limiters[calls.len() - 1].admits_at(key, last.now) {
            before.push(last.now)
        } else {
            before
        }
    }
}

/// The earlier calls lead through the earlier limiters.
proof fn lemma_earlier_history(limiters: Seq<RateLimiter>, calls: Seq<LimiterCall>)
    requires
        is_limiter_history(limiters, calls),
        calls.len() > 0,
    ensures
        is_limiter_history(limiters.drop_last(), calls.drop_last()),
        limiters.drop_last()[0] == limiters[0],
{
    let before = limiters.drop_last();
    let earlier = calls.drop_last();
    assert forall|k: int| 0 <= k < earlier.len() implies before[k].becomes(
        before[k + 1],
        (#[trigger] earlier[k]).key,
        earlier[k].now,
    ) by {
        assert(earlier[k] == calls[k]);
    }
}

/// What was admitted under a key does not depend on later limiters.
proof fn lemma_admitted_under_earlier(
    limiters: Seq<RateLimiter>,
    calls: Seq<LimiterCall>,
    key: Seq<char>,
)
    requires
        limiters.len() > calls.len() + 1,
    ensures
        admitted_under(limiters.drop_last(), calls, key) == admitted_under(limiters, calls, key),
    decreases calls.len(),
{
    if calls.len() > 0 {
        lemma_admitted_under_earlier(limiters, calls.drop_last(), key);
        assert(limiters.drop_last()[calls.len() - 1] == limiters[calls.len() - 1]);
    }
}

/// After any calls under any keys, a limiter remembers under each key what the calls under
/// that key alone leave, and has admitted those of them that these alone admit.
pub proof fn law_keys_are_limited_alone(
    limiters: Seq<RateLimiter>,
    calls: Seq<LimiterCall>,
    key: Seq<char>,
)
    requires
        is_limiter_history(limiters, calls),
    ensures
        limiters.last().window() == limiters[0].window(),
        limiters.last().max_requests() == limiters[0].max_requests(),
        limiters.last().times(key) == remembered(
            times_under(calls, key),
            limiters[0].window(),
            limiters[0].max_requests(),
        ),
        admitted_under(limiters, calls, key) == admitted_times(
            times_under(calls, key),
            limiters[0].window(),
            limiters[0].max_requests(),
        ),
    decreases calls.len(),
{
    if calls.len() > 0 {
        let n = calls.len() - 1;
        let before = limiters.drop_last();
        let earlier = calls.drop_last();
        lemma_earlier_history(limiters, calls);
        law_keys_are_limited_alone(before, earlier, key);
        lemma_admitted_under_earlier(limiters, earlier, key);
        assert(before.last() == limiters[n]);
        assert(calls.last() == calls[n]);
        assert(limiters[n].becomes(limiters[n + 1], calls[n].key, calls[n].now));
        assert(limiters.last() == limiters[n + 1]);
        let times = times_under(earlier, key);
        if calls[n].key == key {
            assert(times_under(calls, key).drop_last() =~= times);
            assert(times_under(calls, key).last() == calls[n].now);
        }
    }
}

/// No window of a limiter admits more than its limit under a key, whatever calls under other
/// keys come between: a whole window lies between a call that was admitted and the one
/// admitted as many places later as the limit says.
pub proof fn law_limiter_admits_at_most(
    limiters: Seq<RateLimiter>,
    calls: Seq<LimiterCall>,
    key: Seq<char>,
    i: int,
)
    requires
        is_limiter_history(limiters, calls),
        ascending(times_under(calls, key)),
        0 <= i,
        i + limiters[0].max_requests() < admitted_under(limiters, calls, key).len(),
    ensures
        admitted_under(limiters, calls, key)[i + limiters[0].max_requests()] - admitted_under(
            limiters,
            calls,
            key,
        )[i] >= limiters[0].window(),
{
    law_keys_are_limited_alone(limiters, calls, key);
    law_window_admits_at_most(
        times_under(calls, key),
        limiters[0].window(),
        limiters[0].max_requests(),
        i,
    );
}

/// A limiter refuses a request only where it has admitted under its key, in the window
/// before it, all that it may.
pub proof fn law_limiter_refuses_only_when_full(
    limiters: Seq<RateLimiter>,
    calls: Seq<LimiterCall>,
    key: Seq<char>,
    now: u128,
)
    requires
        is_limiter_history(limiters, calls),
        ascending(times_under(calls, key).push(now)),
        !limiters.last().admits_at(key, now),
    ensures
        recent(admitted_under(limiters, calls, key), now, limiters[0].window()).len()
            >= limiters[0].max_requests(),
{
    let requests = times_under(calls, key).push(now);
    law_keys_are_limited_alone(limiters, calls, key);
    assert(requests.drop_last() =~= times_under(calls, key));
    law_refused_only_when_full(requests, limiters[0].window(), limiters[0].max_requests());
}

/// Of ascending times none before an old one is recent.
proof fn lemma_recent_until(times: Seq<u128>, i: int, now: u128, window: u128)
    requires
        ascending(times),
        0 <= i <= times.len(),
        i > 0 ==> times[i - 1] <= now - window,
    ensures
        recent(times, now, window).len() <= times.len() - i,
    decreases times.len(),
{
    if times.len() == 0 {
        reveal(Seq::filter);
    } else {
        let rest = times.drop_last();
        assert(times =~= rest.push(times.last()));
        lemma_recent_push(rest, times.last(), now, window);
        if i == times.len() {
            if i > 1 {
                assert(times[i - 2] <= times[i - 1]);
            }
            lemma_recent_until(rest, i - 1, now, window);
        } else {
            lemma_recent_until(rest, i, now, window);
        }
    }
}

/// A request is admitted where fewer than the limit were admitted before it, or where the
/// window is over since the one that many places before it, and only there.
pub proof fn law_admitted_when_window_is_over(
    requests: Seq<u128>,
    window: u128,
    max: u32,
    now: u128,
)
    requires
        ascending(requests.push(now)),
        max > 0,
    ensures
        ({
            let times = admitted_times(requests, window, max);
            admits(remembered(requests, window, max), now, window, max) <==> times.len() < max
                || now - times[times.len() - max] >= window
        }),
{
    let times = admitted_times(requests, window, max);
    assert forall|i: int, j: int| 0 <= i <= j < requests.len() implies requests[i]
        <= requests[j] by {
        assert(requests.push(now)[i] <= requests.push(now)[j]);
    }
    if requests.len() > 0 {
        let n = requests.len() as int;
        assert(requests.push(now)[n - 1] <= requests.push(now)[n]);
    }
    lemma_remembered(requests, window, max, now);
    lemma_admitted_ascend(requests, window, max);
    if times.len() < max {
        lemma_recent_until(times, 0, now, window);
    } else {
        let k = times.len() - max;
        if now - times[k] >= window {
            lemma_recent_until(times, k + 1, now, window);
        } else {
            lemma_recent_from(times, k, now, window);
        }
    }
}

/// A limit of so many seconds has a window of as many thousand million nanoseconds, and
/// begins with nothing remembered.
pub proof fn law_fresh_limiter(limiter: RateLimiter, window_secs: u64, max_requests: u32, now: u128)
    requires
        limiter.is_fresh(window_secs, max_requests),
    ensures
        limiter.window() == window_secs * 1_000_000_000,
        limiter.max_requests() == max_requests,
        is_limiter_history(seq![limiter], seq![]),
        forall|key: Seq<char>| #[trigger]
            limiter.admits_at(key, now) <==> max_requests > 0,
{
    reveal(Seq::filter);
}

/// A request that is not admitted is answered with 429.
pub proof fn law_refusal_has_status(e: AppError)
    requires
        is_refusal(e),
    ensures
        e.status_code == 429,
        e.error_code@ == "RATE_LIMIT_EXCEEDED"@,
{
}

/// The first requests of a new limiter under a key, as many as it admits in a window, are
/// admitted, and the next is refused until the window is over.
pub proof fn law_limiter_answers(
    limiters: Seq<RateLimiter>,
    calls: Seq<LimiterCall>,
    key: Seq<char>,
    now: u128,
    after: RateLimiter,
    r: Result<(), AppError>,
)
    requires
        is_limiter_history(limiters, calls),
        ascending(times_under(calls, key).push(now)),
        limiters.last().answers(after, key, now, r),
        limiters[0].max_requests() > 0,
    ensures
        ({
            let max = limiters[0].max_requests();
            let times = admitted_under(limiters, calls, key);
            &&& times.len() < max ==> r is Ok
            &&& times.len() >= max && now - times[times.len() - max] >= limiters[0].window()
                ==> r is Ok
            &&& times.len() >= max && now - times[times.len() - max] < limiters[0].window() ==> (
            r matches Err(e) && e.status_code == 429)
        }),
        limiters.last().becomes(after, key, now),
{
    law_keys_are_limited_alone(limiters, calls, key);
    law_admitted_when_window_is_over(
        times_under(calls, key),
        limiters[0].window(),
        limiters[0].max_requests(),
        now,
    );
}

} // verus!
