//! Descriptive statistics over the outcomes of a profiling session.

use vstd::prelude::*;
use vstd::relations::{sorted_by, total_ordering};
use itertools::Itertools;
use vstd::utf8::encode_utf8;
use crate::response::ResponseProperties;

verus! {

broadcast use vstd::seq_lib::group_to_multiset_ensures;

/// The order in which latencies are sorted.
pub open spec fn ascending() -> spec_fn(u64, u64) -> bool {
    |x: u64, y: u64| x <= y
}

/// The latencies of the responses, in the order of the responses.
pub open spec fn durations(rs: Seq<ResponseProperties>) -> Seq<u64> {
    rs.map_values(|r: ResponseProperties| r.time_taken)
}

/// The latencies of the responses in ascending order.
pub open spec fn sorted_durations(rs: Seq<ResponseProperties>) -> Seq<u64> {
    durations(rs).sort_by(ascending())
}

/// The median of an ascending sequence: its middle element, or the mean of
/// its two middle elements, rounded down.
pub open spec fn median_of_sorted(s: Seq<u64>) -> int {
    let h = s.len() as int / 2;
    if s.len() % 2 == 1 {
        s[h] as int
    } else {
        (s[h - 1] + s[h]) / 2
    }
}

/// Relies on `Itertools::sorted`: the same items, in ascending order.
#[verifier::external_body]
fn sorted_ascending(v: &Vec<u64>) -> (r: Vec<u64>)
    ensures
        r@.to_multiset() == v@.to_multiset(),
        sorted_by(r@, ascending()),
{
    v.iter().cloned().sorted().collect()
}

proof fn lemma_ascending_total()
    ensures
        total_ordering(ascending()),
{
}

/// Two ascending sequences with the same elements are equal.
proof fn lemma_sorted_unique(a: Seq<u64>, b: Seq<u64>)
    requires
        sorted_by(a, ascending()),
        sorted_by(b, ascending()),
        a.to_multiset() == b.to_multiset(),
    ensures
        a == b,
    decreases a.len(),
{
    a.to_multiset_ensures();
    b.to_multiset_ensures();
    assert(a.len() == b.len());
    if a.len() > 0 {
        assert(b.contains(b[0]));
        assert(a.contains(a[0]));
        assert(b.to_multiset().count(b[0]) > 0);
        assert(a.to_multiset().count(a[0]) > 0);
        assert(a.contains(b[0]));
        assert(b.contains(a[0]));
        let i = choose|i: int| 0 <= i < a.len() && a[i] == b[0];
        let j = choose|j: int| 0 <= j < b.len() && b[j] == a[0];
        if i > 0 {
            assert(ascending()(a[0], a[i]));
        }
        if j > 0 {
            assert(ascending()(b[0], b[j]));
        }
        assert(a[0] == b[0]);
        let a1 = a.drop_first();
        let b1 = b.drop_first();
        assert(a.remove(0) =~= a1);
        assert(b.remove(0) =~= b1);
        assert(sorted_by(a1, ascending())) by {
            assert forall|x: int, y: int| 0 <= x < y < a1.len() implies #[trigger] ascending()(
                a1[x],
                a1[y],
            ) by {
                assert(ascending()(a[x + 1], a[y + 1]));
            }
        }
        assert(sorted_by(b1, ascending())) by {
            assert forall|x: int, y: int| 0 <= x < y < b1.len() implies #[trigger] ascending()(
                b1[x],
                b1[y],
            ) by {
                assert(ascending()(b[x + 1], b[y + 1]));
            }
        }
        lemma_sorted_unique(a1, b1);
        assert(a =~= b) by {
            assert forall|k: int| 0 <= k < a.len() implies a[k] == b[k] by {
                if k > 0 {
                    assert(a[k] == a1[k - 1]);
                    assert(b[k] == b1[k - 1]);
                }
            }
        }
    }
}

/// The latencies of the responses, sorted, as the sort of the crate
/// computes them.
fn sorted_latencies(rs: &Vec<ResponseProperties>) -> (r: Vec<u64>)
    ensures
        r@ == sorted_durations(rs@),
        r@.len() == rs@.len(),
{
    let mut d: Vec<u64> = Vec::new();
    let mut i: usize = 0;
    while i < rs.len()
        invariant
            i <= rs@.len(),
            d@ == durations(rs@.subrange(0, i as int)),
        decreases rs.len() - i,
    {
        d.push(rs[i].time_taken);
        i = i + 1;
        assert(d@ =~= durations(rs@.subrange(0, i as int)));
    }
    assert(rs@.subrange(0, i as int) =~= rs@);
    let s = sorted_ascending(&d);
    proof {
        lemma_ascending_total();
        d@.lemma_sort_by_ensures(ascending());
        lemma_sorted_unique(s@, d@.sort_by(ascending()));
        s@.to_multiset_ensures();
        d@.to_multiset_ensures();
    }
    s
}

/// The median of an ascending sequence of latencies; `None` where it is
/// empty.
pub fn median_of_ascending(s: &Vec<u64>) -> (r: Option<u64>)
    ensures
        s@.len() == 0 ==> r is None,
        s@.len() > 0 ==> r == Some(median_of_sorted(s@) as u64),
{
    let n = s.len();
    if n == 0 {
        None
    } else if n % 2 == 1 {
        Some(s[n / 2])
    } else {
        let a = s[n / 2 - 1] as u128;
        let b = s[n / 2] as u128;
        Some(((a + b) / 2) as u64)
    }
}

/// The aggregate statistics of a session. Each statistic over the successful
/// responses is `None` where there are none.
pub struct Report {
    /// Successful and failed attempts together.
    pub total_requests: usize,
    /// The successful attempts.
    pub succeeded: usize,
    /// Successful attempts per hundred attempts, rounded down.
    pub success_percent: Option<u64>,
    /// The successful responses whose status code is not 200.
    pub non_200_count: usize,
    /// Such responses per hundred successful responses, rounded down.
    pub non_200_percent: Option<u64>,
    /// The distinct status codes other than 200, in the order first seen.
    pub non_200_codes: Vec<i32>,
    /// The least latency, in nanoseconds.
    pub fastest: Option<u64>,
    /// The mean latency, rounded down to the nanosecond.
    pub mean: Option<u64>,
    /// The median latency.
    pub median: Option<u64>,
    /// The greatest latency.
    pub slowest: Option<u64>,
    /// The least body size, in bytes.
    pub smallest_size: Option<usize>,
    /// The greatest body size, in bytes.
    pub largest_size: Option<usize>,
    /// The index of the last response with the greatest body size.
    pub representative: Option<usize>,
}

pub open spec fn latencies(rs: Seq<ResponseProperties>) -> Seq<int> {
    rs.map_values(|r: ResponseProperties| r.time_taken as int)
}

/// The size in bytes of a response's body, in UTF-8.
pub open spec fn body_size(r: ResponseProperties) -> int {
    encode_utf8(r.document@).len() as usize as int
}

pub open spec fn body_sizes(rs: Seq<ResponseProperties>) -> Seq<int> {
    rs.map_values(|r: ResponseProperties| body_size(r))
}

pub open spec fn seq_min(s: Seq<int>) -> int
    decreases s.len(),
{
    if s.len() == 0 {
        0
    } else if s.len() == 1 {
        s[0]
    } else {
        let m = seq_min(s.drop_last());
        if s.last() < m {
            s.last()
        } else {
            m
        }
    }
}

pub open spec fn seq_max(s: Seq<int>) -> int
    decreases s.len(),
{
    if s.len() == 0 {
        0
    } else if s.len() == 1 {
        s[0]
    } else {
        let m = seq_max(s.drop_last());
        if s.last() > m {
            s.last()
        } else {
            m
        }
    }
}

pub open spec fn seq_sum(s: Seq<int>) -> int
    decreases s.len(),
{
    if s.len() == 0 {
        0
    } else {
        seq_sum(s.drop_last()) + s.last()
    }
}

/// The mean of a non-empty sequence, rounded down.
pub open spec fn seq_mean(s: Seq<int>) -> int {
    seq_sum(s) / s.len() as int
}

/// The median latency of the responses.
pub open spec fn median_latency(rs: Seq<ResponseProperties>) -> int {
    median_of_sorted(sorted_durations(rs))
}

/// `i` is the last index at which the greatest value stands.
pub open spec fn is_last_greatest(s: Seq<int>, i: int) -> bool {
    &&& 0 <= i < s.len()
    &&& s[i] == seq_max(s)
    &&& forall|j: int| i < j < s.len() ==> #[trigger] s[j] < s[i]
}

pub open spec fn count_non_200(rs: Seq<ResponseProperties>) -> int
    decreases rs.len(),
{
    if rs.len() == 0 {
        0
    } else {
        count_non_200(rs.drop_last()) + if rs.last().status_code != 200 {
            1int
        } else {
            0int
        }
    }
}

pub open spec fn non_200_code_set(rs: Seq<ResponseProperties>) -> Set<i32> {
    Set::new(
        |c: i32| c != 200 && exists|i: int| 0 <= i < rs.len() && #[trigger] rs[i].status_code == c,
    )
}

/// `part` per hundred of `whole`, rounded down; `None` where `whole` is 0.
pub open spec fn percent(part: int, whole: int) -> Option<u64> {
    if whole == 0 {
        None
    } else {
        Some((part * 100 / whole) as u64)
    }
}

/// What the statistics of the successful responses `rs` and `failures`
/// failed attempts are.
pub open spec fn describes(r: Report, rs: Seq<ResponseProperties>, failures: int) -> bool {
    let n = rs.len() as int;
    &&& r.total_requests == n + failures
    &&& r.succeeded == n
    &&& r.success_percent == percent(n, n + failures)
    &&& r.non_200_count == count_non_200(rs)
    &&& r.non_200_percent == percent(count_non_200(rs), n)
    &&& r.non_200_codes@.no_duplicates()
    &&& r.non_200_codes@.to_set() == non_200_code_set(rs)
    &&& if n == 0 {
        &&& r.fastest is None
        &&& r.mean is None
        &&& r.median is None
        &&& r.slowest is None
        &&& r.smallest_size is None
        &&& r.largest_size is None
        &&& r.representative is None
    } else {
        &&& r.fastest == Some(seq_min(latencies(rs)) as u64)
        &&& r.mean == Some(seq_mean(latencies(rs)) as u64)
        &&& r.median == Some(median_latency(rs) as u64)
        &&& r.slowest == Some(seq_max(latencies(rs)) as u64)
        &&& r.smallest_size == Some(seq_min(body_sizes(rs)) as usize)
        &&& r.largest_size == Some(seq_max(body_sizes(rs)) as usize)
        &&& r.representative matches Some(i) && is_last_greatest(body_sizes(rs), i as int)
    }
}

proof fn lemma_min_max(s: Seq<int>)
    requires
        s.len() > 0,
    ensures
        forall|k: int| 0 <= k < s.len() ==> seq_min(s) <= #[trigger] s[k] <= seq_max(s),
        exists|k: int| 0 <= k < s.len() && s[k] == seq_min(s),
        exists|k: int| 0 <= k < s.len() && s[k] == seq_max(s),
    decreases s.len(),
{
    if s.len() == 1 {
        assert(s[0] == seq_min(s));
        assert(s[0] == seq_max(s));
    } else {
        let t = s.drop_last();
        lemma_min_max(t);
        assert forall|k: int| 0 <= k < s.len() implies seq_min(s) <= #[trigger] s[k] <= seq_max(
            s,
        ) by {
            if k < t.len() {
                assert(s[k] == t[k]);
            }
        }
        let a = choose|k: int| 0 <= k < t.len() && t[k] == seq_min(t);
        let b = choose|k: int| 0 <= k < t.len() && t[k] == seq_max(t);
        assert(s[a] == t[a]);
        assert(s[b] == t[b]);
        if s.last() < seq_min(t) {
            assert(s[s.len() - 1] == seq_min(s));
        } else {
            assert(s[a] == seq_min(s));
        }
        if s.last() > seq_max(t) {
            assert(s[s.len() - 1] == seq_max(s));
        } else {
            assert(s[b] == seq_max(s));
        }
    }
}

proof fn lemma_sum_bounds(s: Seq<int>)
    requires
        s.len() > 0,
    ensures
        s.len() * seq_min(s) <= seq_sum(s) <= s.len() * seq_max(s),
    decreases s.len(),
{
    lemma_min_max(s);
    let t = s.drop_last();
    if t.len() == 0 {
        assert(seq_sum(t) == 0);
    } else {
        lemma_sum_bounds(t);
        lemma_min_max(t);
        let n = t.len() as int;
        assert(seq_min(s) <= seq_min(t)) by {
            let a = choose|k: int| 0 <= k < t.len() && t[k] == seq_min(t);
            assert(s[a] == t[a]);
        }
        assert(seq_max(t) <= seq_max(s)) by {
            let b = choose|k: int| 0 <= k < t.len() && t[k] == seq_max(t);
            assert(s[b] == t[b]);
        }
        assert(seq_min(s) <= s[n] <= seq_max(s));
        let lo = seq_min(s);
        let hi = seq_max(s);
        let lt = seq_min(t);
        let ht = seq_max(t);
        let st = seq_sum(t);
        assert(n * lo <= n * lt) by (nonlinear_arith)
            requires
                lo <= lt,
                n >= 0,
        ;
        assert(n * ht <= n * hi) by (nonlinear_arith)
            requires
                ht <= hi,
                n >= 0,
        ;
        assert((n + 1) * lo == n * lo + lo) by (nonlinear_arith);
        assert((n + 1) * hi == n * hi + hi) by (nonlinear_arith);
    }
}

/// The least, greatest and total latency of non-empty responses.
fn latency_extremes(rs: &Vec<ResponseProperties>) -> (r: (u64, u64, u128))
    requires
        rs@.len() > 0,
    ensures
        r.0 == seq_min(latencies(rs@)),
        r.1 == seq_max(latencies(rs@)),
        r.2 == seq_sum(latencies(rs@)),
{
    let ghost lat = latencies(rs@);
    let mut lo = rs[0].time_taken;
    let mut hi = rs[0].time_taken;
    let mut sum: u128 = rs[0].time_taken as u128;
    let mut i: usize = 1;
    assert(lat.subrange(0, 1).drop_last() =~= Seq::<int>::empty());
    assert(lat.subrange(0, 1).last() == rs@[0].time_taken as int);
    assert(seq_sum(Seq::<int>::empty()) == 0);
    while i < rs.len()
        invariant
            1 <= i <= rs@.len(),
            lat == latencies(rs@),
            lo == seq_min(lat.subrange(0, i as int)),
            hi == seq_max(lat.subrange(0, i as int)),
            sum == seq_sum(lat.subrange(0, i as int)),
            sum <= i * 18446744073709551615,
        decreases rs.len() - i,
    {
        let t = rs[i].time_taken;
        assert(lat.subrange(0, i + 1).drop_last() =~= lat.subrange(0, i as int));
        assert(lat.subrange(0, i + 1).last() == t as int);
        if t < lo {
            lo = t;
        }
        if t > hi {
            hi = t;
        }
        assert(sum + t <= (i + 1) * 18446744073709551615) by (nonlinear_arith)
            requires
                sum <= i * 18446744073709551615,
                t <= 18446744073709551615,
        ;
        assert((i + 1) * 18446744073709551615 <= 18446744073709551616 * 18446744073709551615)
            by (nonlinear_arith)
            requires
                i < 18446744073709551616,
        ;
        sum = sum + t as u128;
        i = i + 1;
    }
    assert(lat.subrange(0, i as int) =~= lat);
    (lo, hi, sum)
}

/// The least and greatest body size of non-empty responses, and the last
/// response with the greatest.
fn size_extremes(rs: &Vec<ResponseProperties>) -> (r: (usize, usize, usize))
    requires
        rs@.len() > 0,
    ensures
        r.0 == seq_min(body_sizes(rs@)),
        r.1 == seq_max(body_sizes(rs@)),
        is_last_greatest(body_sizes(rs@), r.2 as int),
{
    let ghost sz = body_sizes(rs@);
    let first = rs[0].document.as_str().len();
    let mut lo = first;
    let mut hi = first;
    let mut best: usize = 0;
    let mut i: usize = 1;
    assert(sz.subrange(0, 1).drop_last() =~= Seq::<int>::empty());
    while i < rs.len()
        invariant
            1 <= i <= rs@.len(),
            sz == body_sizes(rs@),
            lo == seq_min(sz.subrange(0, i as int)),
            hi == seq_max(sz.subrange(0, i as int)),
            is_last_greatest(sz.subrange(0, i as int), best as int),
        decreases rs.len() - i,
    {
        let n = rs[i].document.as_str().len();
        let ghost pre = sz.subrange(0, i as int);
        let ghost next = sz.subrange(0, i + 1);
        assert(next.drop_last() =~= pre);
        assert(next.last() == n as int);
        if n < lo {
            lo = n;
        }
        if n >= hi {
            hi = n;
            best = i;
        } else {
            assert forall|j: int| best < j < next.len() implies #[trigger] next[j] < next[best as int] by {
                if j < i {
                    assert(next[j] == pre[j]);
                }
            }
        }
        i = i + 1;
    }
    assert(sz.subrange(0, i as int) =~= sz);
    (lo, hi, best)
}

fn has_code(codes: &Vec<i32>, c: i32) -> (r: bool)
    ensures
        r == codes@.contains(c),
{
    let mut i: usize = 0;
    while i < codes.len()
        invariant
            i <= codes@.len(),
            forall|j: int| 0 <= j < i ==> codes@[j] != c,
        decreases codes.len() - i,
    {
        if codes[i] == c {
            return true;
        }
        i = i + 1;
    }
    false
}

/// The count of responses whose status code is not 200, and their distinct
/// codes in the order first seen.
fn non_200_responses(rs: &Vec<ResponseProperties>) -> (r: (usize, Vec<i32>))
    ensures
        r.0 == count_non_200(rs@),
        r.0 <= rs@.len(),
        r.1@.no_duplicates(),
        r.1@.to_set() == non_200_code_set(rs@),
{
    let mut count: usize = 0;
    let mut codes: Vec<i32> = Vec::new();
    let mut i: usize = 0;
    while i < rs.len()
        invariant
            i <= rs@.len(),
            count == count_non_200(rs@.subrange(0, i as int)),
            count <= i,
            codes@.no_duplicates(),
            forall|c: i32|
                codes@.contains(c) <==> (c != 200 && exists|j: int|
                    0 <= j < i && #[trigger] rs@[j].status_code == c),
        decreases rs.len() - i,
    {
        let c = rs[i].status_code;
        let ghost before = codes@;
        assert(rs@.subrange(0, i + 1).drop_last() =~= rs@.subrange(0, i as int));
        if c != 200 {
            count = count + 1;
            if !has_code(&codes, c) {
                codes.push(c);
                assert(codes@[codes@.len() - 1] == c);
                assert forall|x: int, y: int|
                    0 <= x < codes@.len() && 0 <= y < codes@.len() && x != y implies codes@[x]
                    != codes@[y] by {
                    if x < before.len() && y < before.len() {
                        assert(before[x] != before[y]);
                    } else if x < before.len() {
                        assert(before.contains(codes@[x]));
                    } else {
                        assert(before.contains(codes@[y]));
                    }
                }
            }
        }
        assert(forall|d: i32| #[trigger] before.contains(d) ==> codes@.contains(d)) by {
            assert forall|d: i32| #[trigger] before.contains(d) implies codes@.contains(d) by {
                let k = choose|k: int| 0 <= k < before.len() && before[k] == d;
                assert(codes@[k] == d);
            }
        }
        assert(forall|d: i32| #[trigger] codes@.contains(d) ==> before.contains(d) || (d == c
            && c != 200));
        assert(c != 200 ==> codes@.contains(c));
        i = i + 1;
        assert forall|d: i32|
            codes@.contains(d) <==> (d != 200 && exists|j: int|
                0 <= j < i && #[trigger] rs@[j].status_code == d) by {
            if codes@.contains(d) {
                if !before.contains(d) {
                    assert(rs@[i - 1].status_code == d);
                }
            }
            if d != 200 && exists|j: int| 0 <= j < i && #[trigger] rs@[j].status_code == d {
                let j = choose|j: int| 0 <= j < i && #[trigger] rs@[j].status_code == d;
                if j < i - 1 {
                    assert(before.contains(d));
                }
            }
        }
    }
    assert(rs@.subrange(0, i as int) =~= rs@);
    assert(codes@.to_set() =~= non_200_code_set(rs@));
    (count, codes)
}

/// Over one or more successful responses, the median and the mean latency
/// lie between the least and the greatest.
pub proof fn lemma_latency_order(rs: Seq<ResponseProperties>)
    requires
        rs.len() >= 1,
    ensures
        seq_min(latencies(rs)) <= median_latency(rs) <= seq_max(latencies(rs)),
        seq_min(latencies(rs)) <= seq_mean(latencies(rs)) <= seq_max(latencies(rs)),
{
    let lat = latencies(rs);
    let d = durations(rs);
    let s = sorted_durations(rs);
    lemma_min_max(lat);
    lemma_sum_bounds(lat);
    lemma_ascending_total();
    d.lemma_sort_by_ensures(ascending());
    d.to_multiset_ensures();
    s.to_multiset_ensures();
    let lo = seq_min(lat);
    let hi = seq_max(lat);
    assert(s.len() == rs.len());
    assert forall|k: int| 0 <= k < s.len() implies lo <= #[trigger] s[k] <= hi by {
        assert(s.to_multiset().count(s[k]) > 0);
        assert(d.contains(s[k]));
        let j = choose|j: int| 0 <= j < d.len() && d[j] == s[k];
        assert(lat[j] == s[k] as int);
    }
    let h = s.len() as int / 2;
    assert(lo <= s[h] <= hi);
    if s.len() % 2 == 0 {
        assert(lo <= s[h - 1] <= hi);
    }
    let n = lat.len() as int;
    let sum = seq_sum(lat);
    assert(lo <= sum / n <= hi) by (nonlinear_arith)
        requires
            n >= 1,
            n * lo <= sum <= n * hi,
    ;
}

/// `part` per hundred of `whole`, rounded down.
pub fn percent_of(part: usize, whole: usize) -> (r: Option<u64>)
    requires
        part <= whole,
    ensures
        r == percent(part as int, whole as int),
        r matches Some(p) ==> p <= 100,
{
    if whole == 0 {
        None
    } else {
        let p = (part as u128) * 100 / (whole as u128);
        assert(p <= 100) by (nonlinear_arith)
            requires
                p == (part as int) * 100 / (whole as int),
                part <= whole,
                whole > 0,
        ;
        Some(p as u64)
    }
}

/// Computes the statistics of the successful responses and of
/// `failure_count` failed attempts.
pub fn summarize(successes: &Vec<ResponseProperties>, failure_count: usize) -> (r: Report)
    requires
        successes@.len() + failure_count <= usize::MAX,
    ensures
        describes(r, successes@, failure_count as int),
{
    let n = successes.len();
    let total = n + failure_count;
    let success_percent = percent_of(n, total);
    let (non_200_count, non_200_codes) = non_200_responses(successes);
    let non_200_percent = percent_of(non_200_count, n);
    if n == 0 {
        return Report {
            total_requests: total,
            succeeded: n,
            success_percent,
            non_200_count,
            non_200_percent,
            non_200_codes,
            fastest: None,
            mean: None,
            median: None,
            slowest: None,
            smallest_size: None,
            largest_size: None,
            representative: None,
        };
    }
    let (fastest, slowest, sum) = latency_extremes(successes);
    proof {
        lemma_latency_order(successes@);
    }
    let mean = (sum / (n as u128)) as u64;
    let sorted = sorted_latencies(successes);
    let median = median_of_ascending(&sorted);
    let (smallest, largest, representative) = size_extremes(successes);
    Report {
        total_requests: total,
        succeeded: n,
        success_percent,
        non_200_count,
        non_200_percent,
        non_200_codes,
        fastest: Some(fastest),
        mean: Some(mean),
        median,
        slowest: Some(slowest),
        smallest_size: Some(smallest),
        largest_size: Some(largest),
        representative: Some(representative),
    }
}

} // verus!
