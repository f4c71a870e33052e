//! Measurements of a run: how fast requests may follow each other, and how long they take.
use vstd::prelude::*;

verus! {

// ---------------------------------------------------------------------------
// Rate
// ---------------------------------------------------------------------------

/// The rate of requests: a bucket of tokens that is filled up again token by token.
#[derive(Debug, Clone, Copy, PartialEq, Eq, Structural)]
pub struct RateLimiter {
    pub capacity: usize,
}

impl RateLimiter {
    /// A bucket for so many requests a second, and for one at least.
    pub fn new(rate_per_sec: usize) -> (r: Self)
        ensures
            r.capacity == if rate_per_sec > 1 {
                rate_per_sec
            } else {
                1
            },
    {
        RateLimiter {
            capacity: if rate_per_sec > 1 {
                rate_per_sec
            } else {
                1
            },
        }
    }

    /// The number of tokens after a refill.
    pub open spec fn refilled(&self, available: int) -> int {
        if available < self.capacity {
            available + 1
        } else {
            available
        }
    }

    /// Fills one token up if the bucket is not full.
    pub fn refill(&self, available: usize) -> (r: usize)
        ensures
            r == self.refilled(available as int),
    {
        if available < self.capacity {
            available + 1
        } else {
            available
        }
    }

    /// Takes a token out of the bucket for a request, and tells how many are left. Without a token
    /// the request has to wait.
    pub fn take(&self, available: usize) -> (r: Option<usize>)
        ensures
            r == if available > 0 {
                Some((available - 1) as usize)
            } else {
                None
            },
    {
        if available > 0 {
            Some(available - 1)
        } else {
            None
        }
    }
}

/// How many tokens are left after `n` requests asked for one, with no refill between them.
pub open spec fn left_after(available: int, n: nat) -> int
    decreases n,
{
    if n == 0 {
        available
    } else {
        let left = left_after(available, (n - 1) as nat);
        if left > 0 {
            left - 1
        } else {
            left
        }
    }
}

/// How many of `n` requests got a token, with no refill between them.
pub open spec fn passed(available: int, n: nat) -> int
    decreases n,
{
    if n == 0 {
        0
    } else {
        passed(available, (n - 1) as nat) + if left_after(available, (n - 1) as nat) > 0 {
            1int
        } else {
            0
        }
    }
}

/// Between two refills not more requests pass than there are tokens, so never more than the bucket
/// has room for; and as many pass as ask, while there are tokens.
pub proof fn law_requests_are_bounded(bucket: RateLimiter, available: int, n: nat)
    requires
        0 <= available <= bucket.capacity,
    ensures
        passed(available, n) <= bucket.capacity,
        passed(available, n) == if n <= available {
            n as int
        } else {
            available
        },
        left_after(available, n) == available - passed(available, n),
    decreases n,
{
    if n > 0 {
        law_requests_are_bounded(bucket, available, (n - 1) as nat);
    }
}

/// A bucket that starts full and is only refilled never holds more tokens than it has room for.
pub proof fn law_bucket_never_overflows(bucket: RateLimiter, available: int)
    requires
        available <= bucket.capacity,
    ensures
        bucket.refilled(available) <= bucket.capacity,
        available < bucket.capacity ==> bucket.refilled(available) == available + 1,
{
}

// ---------------------------------------------------------------------------
// Latencies
// ---------------------------------------------------------------------------

/// So many of the latest latencies are kept.
pub const WINDOW: usize = 200;

/// The last `n` items.
pub open spec fn newest(s: Seq<u64>, n: int) -> Seq<u64> {
    if s.len() <= n {
        s
    } else {
        s.subrange(s.len() - n, s.len() as int)
    }
}

/// `x` put into ascending numbers, at its place.
pub open spec fn placed(s: Seq<u64>, x: u64) -> Seq<u64>
    decreases s.len(),
{
    if s.len() == 0 || s.last() <= x {
        s.push(x)
    } else {
        placed(s.drop_last(), x).push(s.last())
    }
}

/// The numbers in ascending order.
pub open spec fn ranked(s: Seq<u64>) -> Seq<u64>
    decreases s.len(),
{
    if s.len() == 0 {
        Seq::empty()
    } else {
        placed(ranked(s.drop_last()), s.last())
    }
}

/// The place of the median among `n` numbers in ascending order.
pub open spec fn median_rank(n: int) -> int {
    n / 2
}

/// The place of the 95th percentile among `n` numbers in ascending order: 95 hundredths of the last
/// place, rounded.
pub open spec fn high_rank(n: int) -> int {
    (19 * (n - 1) + 10) / 20
}

/// The median, or zero if there is nothing.
pub open spec fn median(s: Seq<u64>) -> u64 {
    if s.len() == 0 {
        0
    } else {
        ranked(s)[median_rank(s.len() as int)]
    }
}

/// The 95th percentile, or zero if there is nothing.
pub open spec fn high_percentile(s: Seq<u64>) -> u64 {
    if s.len() == 0 {
        0
    } else {
        ranked(s)[high_rank(s.len() as int)]
    }
}

proof fn lemma_placed_len(s: Seq<u64>, x: u64)
    ensures
        placed(s, x).len() == s.len() + 1,
    decreases s.len(),
{
    if s.len() == 0 || s.last() <= x {
    } else {
        lemma_placed_len(s.drop_last(), x);
    }
}

proof fn lemma_ranked_len(s: Seq<u64>)
    ensures
        ranked(s).len() == s.len(),
    decreases s.len(),
{
    if s.len() > 0 {
        lemma_ranked_len(s.drop_last());
        lemma_placed_len(ranked(s.drop_last()), s.last());
    }
}

fn place(v: &mut Vec<u64>, x: u64)
    ensures
        final(v)@ == placed(old(v)@, x),
{
    let ghost s = v@;
    let mut i: usize = v.len();
    assert(s.subrange(0, i as int) =~= s);
    assert(placed(s, x) =~= placed(s.subrange(0, i as int), x) + s.subrange(i as int, s.len() as int));
    while i > 0 && v[i - 1] > x
        invariant
            i <= v@.len(),
            v@ == s,
            placed(s, x) == placed(s.subrange(0, i as int), x) + s.subrange(
                i as int,
                s.len() as int,
            ),
        decreases i,
    {
        assert(s.subrange(0, i as int).drop_last() =~= s.subrange(0, i - 1));
        assert(placed(s, x) =~= placed(s.subrange(0, i - 1), x) + s.subrange(
            i - 1,
            s.len() as int,
        ));
        i -= 1;
    }
    v.insert(i, x);
    assert(v@ =~= s.subrange(0, i as int).push(x) + s.subrange(i as int, s.len() as int));
}

fn rank(v: &Vec<u64>) -> (r: Vec<u64>)
    ensures
        r@ == ranked(v@),
{
    let mut r: Vec<u64> = Vec::new();
    let mut i: usize = 0;
    assert(v@.subrange(0, 0) =~= Seq::<u64>::empty());
    while i < v.len()
        invariant
            i <= v@.len(),
            r@ == ranked(v@.subrange(0, i as int)),
        decreases v@.len() - i,
    {
        assert(v@.subrange(0, i + 1).drop_last() =~= v@.subrange(0, i as int));
        place(&mut r, v[i]);
        i += 1;
    }
    assert(v@.subrange(0, i as int) =~= v@);
    r
}

/// What is measured of a run. Latencies are nanoseconds.
#[derive(Debug)]
pub struct Metrics {
    latencies: Vec<u64>,
    success: u64,
    failure: u64,
}

/// The mathematical content of [`Metrics`].
#[verifier::ext_equal]
pub ghost struct MetricsModel {
    pub latencies: Seq<u64>,
    pub success: u64,
    pub failure: u64,
}

impl View for Metrics {
    type V = MetricsModel;

    closed spec fn view(&self) -> MetricsModel {
        MetricsModel {
            latencies: self.latencies@,
            success: self.success,
            failure: self.failure,
        }
    }
}

/// One more, or zero after the largest number.
pub open spec fn one_more(n: u64) -> u64 {
    if n == u64::MAX {
        0
    } else {
        (n + 1) as u64
    }
}

impl Metrics {
    #[verifier::type_invariant]
    spec fn sound(self) -> bool {
        self.latencies@.len() <= WINDOW
    }

    /// Nothing is measured yet.
    pub fn new() -> (r: Self)
        ensures
            r@ == (MetricsModel { latencies: Seq::empty(), success: 0, failure: 0 }),
    {
        Metrics { latencies: Vec::new(), success: 0, failure: 0 }
    }

    /// Takes a latency in. Of all latencies the newest are kept.
    pub fn record_latency(&mut self, nanos: u64)
        ensures
            final(self)@ == (MetricsModel {
                latencies: newest(old(self)@.latencies.push(nanos), WINDOW as int),
                ..old(self)@
            }),
    {
        proof {
            use_type_invariant(&*self);
        }
        let mut latencies: Vec<u64> = Vec::new();
        std::mem::swap(&mut latencies, &mut self.latencies);
        latencies.push(nanos);
        if latencies.len() > WINDOW {
            latencies.remove(0);
        }
        assert(latencies@ =~= newest(old(self).latencies@.push(nanos), WINDOW as int));
        self.latencies = latencies;
    }

    /// Counts a task that has come to its end.
    pub fn record_end(&mut self, success: bool)
        ensures
            final(self)@ == if success {
                MetricsModel { success: one_more(old(self)@.success), ..old(self)@ }
            } else {
                MetricsModel { failure: one_more(old(self)@.failure), ..old(self)@ }
            },
    {
        proof {
            use_type_invariant(&*self);
        }
        if success {
            self.success = self.success.wrapping_add(1);
        } else {
            self.failure = self.failure.wrapping_add(1);
        }
    }

    /// The median and the 95th percentile of the latencies, and how many tasks succeeded and
    /// failed.
    pub fn snapshot(&self) -> (r: (u64, u64, u64, u64))
        ensures
            r == (
                median(self@.latencies),
                high_percentile(self@.latencies),
                self@.success,
                self@.failure,
            ),
    {
        proof {
            use_type_invariant(self);
        }
        let n: usize = self.latencies.len();
        if n == 0 {
            return (0, 0, self.success, self.failure);
        }
        let data = rank(&self.latencies);
        proof {
            lemma_ranked_len(self.latencies@);
        }
        let high: usize = (19 * (n - 1) + 10) / 20;
        (data[n / 2], data[high], self.success, self.failure)
    }
}

// ---------------------------------------------------------------------------
// Laws
// ---------------------------------------------------------------------------

/// Every number stands at or before all that stand behind it.
pub open spec fn ascending(s: Seq<u64>) -> bool {
    forall|i: int, j: int| 0 <= i <= j < s.len() ==> s[i] <= s[j]
}

proof fn lemma_placed(s: Seq<u64>, x: u64)
    ensures
        placed(s, x).to_multiset() == s.to_multiset().insert(x),
        ascending(s) ==> ascending(placed(s, x)),
        forall|i: int|
            0 <= i < placed(s, x).len() ==> #[trigger] placed(s, x)[i] == x || s.contains(
                placed(s, x)[i],
            ),
    decreases s.len(),
{
    broadcast use vstd::seq_lib::group_to_multiset_ensures;

    if s.len() == 0 || s.last() <= x {
        assert forall|i: int| 0 <= i < s.push(x).len() implies #[trigger] s.push(x)[i] == x
            || s.contains(s.push(x)[i]) by {
            if i < s.len() {
                assert(s[i] == s.push(x)[i]);
            }
        }
        assert(ascending(s) ==> ascending(s.push(x)));
    } else {
        let t = s.drop_last();
        let p = placed(t, x);
        lemma_placed(t, x);
        assert(s =~= t.push(s.last()));
        assert(p.push(s.last()).to_multiset() =~= s.to_multiset().insert(x));
        assert forall|i: int| 0 <= i < p.push(s.last()).len() implies #[trigger] p.push(
            s.last(),
        )[i] == x || s.contains(p.push(s.last())[i]) by {
            if i < p.len() {
                assert(p.push(s.last())[i] == p[i]);
                if p[i] != x {
                    let j = choose|j: int| 0 <= j < t.len() && t[j] == p[i];
                    assert(s[j] == p[i]);
                }
            } else {
                assert(s[s.len() - 1] == s.last());
            }
        }
        if ascending(s) {
            assert(ascending(t));
            assert forall|i: int, j: int| 0 <= i <= j < p.push(s.last()).len() implies p.push(
                s.last(),
            )[i] <= p.push(s.last())[j] by {
                if i < p.len() && j == p.len() {
                    if p[i] != x {
                        let k = choose|k: int| 0 <= k < t.len() && t[k] == p[i];
                        assert(s[k] == p[i]);
                    }
                }
            }
        }
    }
}

/// The ranked numbers are the same numbers, in ascending order.
pub proof fn law_ranking_sorts(s: Seq<u64>)
    ensures
        ascending(ranked(s)),
        ranked(s).to_multiset() == s.to_multiset(),
    decreases s.len(),
{
    broadcast use vstd::seq_lib::group_to_multiset_ensures;

    if s.len() > 0 {
        law_ranking_sorts(s.drop_last());
        lemma_placed(ranked(s.drop_last()), s.last());
        assert(s =~= s.drop_last().push(s.last()));
    } else {
        assert(ranked(s) =~= s);
    }
}

/// The percentiles are latencies that were measured, and the median is not the larger one.
pub proof fn law_percentiles_are_measured(s: Seq<u64>)
    requires
        s.len() > 0,
    ensures
        s.contains(median(s)),
        s.contains(high_percentile(s)),
        median(s) <= high_percentile(s),
{
    broadcast use vstd::seq_lib::group_to_multiset_ensures;

    law_ranking_sorts(s);
    lemma_ranked_len(s);
    let r = ranked(s);
    let n = s.len() as int;
    assert(0 <= median_rank(n) <= high_rank(n) < n);
    assert(r.contains(r[median_rank(n)]));
    assert(r.contains(r[high_rank(n)]));
    assert(r.to_multiset().count(median(s)) > 0);
    assert(r.to_multiset().count(high_percentile(s)) > 0);
}

/// Latencies kept after many measurements are the newest ones: what is measured before does not
/// matter once enough has followed.
pub proof fn law_window_keeps_the_newest(s: Seq<u64>, x: u64)
    ensures
        newest(newest(s, WINDOW as int).push(x), WINDOW as int) == newest(s.push(x), WINDOW as int),
{
    assert(newest(newest(s, WINDOW as int).push(x), WINDOW as int) =~= newest(
        s.push(x),
        WINDOW as int,
    ));
}

/// The percentiles by their places: of the numbers in ascending order, the median is the one in the
/// middle, with as many before it as behind it or one more, and the 95th percentile is the one whose
/// place is nearest to 95 hundredths of the last place, the later one of two.
pub proof fn law_where_the_percentiles_stand(s: Seq<u64>) -> (r: (Seq<u64>, int, int))
    requires
        s.len() > 0,
    ensures
        r.0.to_multiset() == s.to_multiset(),
        r.0.len() == s.len(),
        forall|i: int, j: int| 0 <= i <= j < r.0.len() ==> r.0[i] <= r.0[j],
        0 <= r.1 < s.len() && median(s) == r.0[r.1],
        s.len() - 1 <= 2 * r.1 <= s.len(),
        s.len() % 2 == 0 ==> 2 * r.1 == s.len(),
        0 <= r.2 < s.len() && high_percentile(s) == r.0[r.2],
        19 * (s.len() - 1) - 10 < 20 * r.2 <= 19 * (s.len() - 1) + 10,
        median(Seq::empty()) == 0,
        high_percentile(Seq::empty()) == 0,
{
    law_ranking_sorts(s);
    lemma_ranked_len(s);
    let n = s.len() as int;
    (ranked(s), median_rank(n), high_rank(n))
}

/// The newest items are the last ones, as many as there is room for.
pub proof fn law_the_newest_are_the_last(s: Seq<u64>, n: int)
    requires
        n >= 0,
    ensures
        s.len() <= n ==> newest(s, n) == s,
        s.len() > n ==> newest(s, n).len() == n && newest(s, n) == s.skip(s.len() - n),
{
    if s.len() > n {
        assert(newest(s, n) =~= s.skip(s.len() - n));
    }
}

/// A refill adds one token to a bucket that is not full, and none to one that is. Counts go up by one,
/// and begin anew after the largest number.
pub proof fn law_tokens_and_counts_go_up_by_one(bucket: RateLimiter, available: int, n: u64)
    ensures
        available < bucket.capacity ==> bucket.refilled(available) == available + 1,
        available >= bucket.capacity ==> bucket.refilled(available) == available,
        n < u64::MAX ==> one_more(n) == n + 1,
        n == u64::MAX ==> one_more(n) == 0,
{
}

} // verus!
