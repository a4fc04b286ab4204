//! Selection of a mutually consistent subset of peers: each candidate
//! spans an offset interval of a configured number of standard
//! deviations, and the largest group of candidates whose intervals share
//! a common point survives.

use vstd::prelude::*;
use crate::config::AlgorithmConfig;
use crate::filter::KalmanSnapshot;
use crate::fixed::{fadd, fmul, fsqrt, fsub, s_add, s_isqrt, s_mul, s_sub, SCALE};

verus! {

/// The standard deviation a candidate claims for its offset: the square
/// root of its offset variance plus the dispersion the peer reports.
pub open spec fn spec_sigma(c: KalmanSnapshot) -> int
    recommends
        c.uncertainty.e00 >= 0,
{
    s_add(
        s_isqrt((c.uncertainty.e00 * SCALE) as nat) as int,
        c.peer_uncertainty.raw as int,
    )
}

/// Half-width of a candidate's offset interval.
pub open spec fn spec_width(c: KalmanSnapshot, k: int) -> int {
    s_mul(k, spec_sigma(c))
}

/// Lower endpoint of a candidate's offset interval.
pub open spec fn spec_low(c: KalmanSnapshot, k: int) -> int {
    s_sub(c.state.e0 as int, spec_width(c, k))
}

/// Upper endpoint of a candidate's offset interval.
pub open spec fn spec_high(c: KalmanSnapshot, k: int) -> int {
    s_add(c.state.e0 as int, spec_width(c, k))
}

/// Whether the candidate's interval contains the point `p`.
pub open spec fn in_interval(c: KalmanSnapshot, k: int, p: int) -> bool {
    spec_low(c, k) <= p <= spec_high(c, k)
}

/// The candidates whose intervals contain the point `p`, in input order.
pub open spec fn selected_at(s: Seq<KalmanSnapshot>, k: int, p: int) -> Seq<KalmanSnapshot>
    decreases s.len(),
{
    if s.len() == 0 {
        Seq::empty()
    } else {
        let rest = selected_at(s.drop_last(), k, p);
        if in_interval(s.last(), k, p) {
            rest.push(s.last())
        } else {
            rest
        }
    }
}

/// How many candidates' intervals contain the point `p`.
pub open spec fn count_at(s: Seq<KalmanSnapshot>, k: int, p: int) -> nat {
    selected_at(s, k, p).len()
}

/// The best count over the anchors from index `i` on: every candidate's
/// lower endpoint is tried as a meeting point.
pub open spec fn max_count_from(s: Seq<KalmanSnapshot>, k: int, i: int) -> nat
    decreases s.len() - i,
{
    if i < 0 || i >= s.len() {
        0
    } else {
        let here = count_at(s, k, spec_low(s[i], k));
        let rest = max_count_from(s, k, i + 1);
        if here > rest {
            here
        } else {
            rest
        }
    }
}

/// The size of the largest group of candidates whose intervals intersect.
pub open spec fn spec_max_count(s: Seq<KalmanSnapshot>, k: int) -> nat {
    max_count_from(s, k, 0)
}

/// The smallest number of agreeing peers the configuration demands, at
/// least one.
pub open spec fn spec_required(algo: AlgorithmConfig) -> int {
    if algo.minimum_agreeing_peers < 1 {
        1
    } else {
        algo.minimum_agreeing_peers as int
    }
}

/// The anchor the scan over the first `n` candidates settles on:
/// `(index, count, sigma)` of the best meeting point so far, where a
/// larger count wins and, among equal nonzero counts, the smaller
/// standard deviation.
pub open spec fn spec_scan_anchor(s: Seq<KalmanSnapshot>, k: int, n: int) -> (int, nat, int)
    decreases n,
{
    if n <= 0 {
        (0, 0 as nat, 0)
    } else {
        let prev = spec_scan_anchor(s, k, n - 1);
        let here = count_at(s, k, spec_low(s[n - 1], k));
        let sigma = spec_sigma(s[n - 1]);
        if here > prev.1 || (here == prev.1 && here > 0 && sigma < prev.2) {
            (n - 1, here, sigma)
        } else {
            prev
        }
    }
}

/// The selection the algorithm returns: the candidates whose intervals
/// contain the best anchor's lower endpoint, or nothing when even the
/// best group is smaller than the configured minimum.
pub open spec fn spec_selected(s: Seq<KalmanSnapshot>, algo: AlgorithmConfig) -> Seq<
    KalmanSnapshot,
> {
    let k = algo.selection_confidence_k as int;
    if spec_max_count(s, k) < spec_required(algo) {
        Seq::empty()
    } else {
        selected_at(s, k, spec_low(s[spec_scan_anchor(s, k, s.len() as int).0], k))
    }
}

/// If every interval containing `p` also contains `q`, then `q` is
/// contained at least as often.
proof fn lemma_count_pointwise(s: Seq<KalmanSnapshot>, k: int, p: int, q: int)
    requires
        forall|j: int|
            0 <= j < s.len() && in_interval(#[trigger] s[j], k, p) ==> in_interval(s[j], k, q),
    ensures
        count_at(s, k, p) <= count_at(s, k, q),
    decreases s.len(),
{
    if s.len() > 0 {
        assert(forall|j: int|
            0 <= j < s.drop_last().len() && in_interval(#[trigger] s.drop_last()[j], k, p)
                ==> in_interval(s.drop_last()[j], k, q));
        lemma_count_pointwise(s.drop_last(), k, p, q);
    }
}

/// A positive count means some candidate's interval contains the point.
proof fn lemma_count_pos_exists(s: Seq<KalmanSnapshot>, k: int, p: int)
    requires
        count_at(s, k, p) > 0,
    ensures
        exists|j: int| 0 <= j < s.len() && in_interval(#[trigger] s[j], k, p),
    decreases s.len(),
{
    if s.len() > 0 {
        if in_interval(s.last(), k, p) {
            assert(in_interval(s[s.len() - 1], k, p));
        } else {
            lemma_count_pos_exists(s.drop_last(), k, p);
            let j0 = choose|j: int|
                0 <= j < s.drop_last().len() && in_interval(#[trigger] s.drop_last()[j], k, p);
            assert(in_interval(s[j0], k, p));
        }
    }
}

/// Among the first `m` candidates whose interval contains `p`, one has
/// the largest lower endpoint.
#[verifier::rlimit(60)]
proof fn lemma_max_anchor(s: Seq<KalmanSnapshot>, k: int, p: int, m: int)
    requires
        1 <= m <= s.len(),
        exists|j: int| 0 <= j < m && in_interval(#[trigger] s[j], k, p),
    ensures
        exists|i: int|
            0 <= i < m && in_interval(#[trigger] s[i], k, p) && (forall|j: int|
                0 <= j < m && in_interval(#[trigger] s[j], k, p) ==> spec_low(s[j], k) <= spec_low(
                    s[i],
                    k,
                )),
    decreases m,
{
    if exists|j: int| 0 <= j < m - 1 && in_interval(#[trigger] s[j], k, p) {
        lemma_max_anchor(s, k, p, m - 1);
        let i0 = choose|i: int|
            0 <= i < m - 1 && in_interval(#[trigger] s[i], k, p) && (forall|j: int|
                0 <= j < m - 1 && in_interval(#[trigger] s[j], k, p) ==> spec_low(s[j], k)
                    <= spec_low(s[i], k));
        if in_interval(s[m - 1], k, p) && spec_low(s[m - 1], k) > spec_low(s[i0], k) {
            assert(0 <= m - 1 < m && in_interval(s[m - 1], k, p) && (forall|j: int|
                0 <= j < m && in_interval(#[trigger] s[j], k, p) ==> spec_low(s[j], k) <= spec_low(
                    s[m - 1],
                    k,
                )));
        } else {
            assert(0 <= i0 < m && in_interval(s[i0], k, p) && (forall|j: int|
                0 <= j < m && in_interval(#[trigger] s[j], k, p) ==> spec_low(s[j], k) <= spec_low(
                    s[i0],
                    k,
                )));
        }
    } else {
        let j0 = choose|j: int| 0 <= j < m && in_interval(#[trigger] s[j], k, p);
        assert(j0 == m - 1);
        assert(0 <= m - 1 < m && in_interval(s[m - 1], k, p) && (forall|j: int|
            0 <= j < m && in_interval(#[trigger] s[j], k, p) ==> spec_low(s[j], k) <= spec_low(
                s[m - 1],
                k,
            )));
    }
}

/// The count at any tried anchor is below the overall best.
proof fn lemma_anchor_le_max(s: Seq<KalmanSnapshot>, k: int, j: int, i: int)
    requires
        0 <= j <= i < s.len(),
    ensures
        count_at(s, k, spec_low(s[i], k)) <= max_count_from(s, k, j),
    decreases i - j,
{
    if j < i {
        lemma_anchor_le_max(s, k, j + 1, i);
    }
}

/// No point is contained in more intervals than the best anchor: the
/// selection's size really is the size of the largest subset of
/// candidates whose intervals share a common point.
pub proof fn lemma_selection_optimal(s: Seq<KalmanSnapshot>, k: int, p: int)
    ensures
        count_at(s, k, p) <= spec_max_count(s, k),
{
    if count_at(s, k, p) > 0 {
        lemma_count_pos_exists(s, k, p);
        lemma_max_anchor(s, k, p, s.len() as int);
        let i = choose|i: int|
            0 <= i < s.len() && in_interval(#[trigger] s[i], k, p) && (forall|j: int|
                0 <= j < s.len() && in_interval(#[trigger] s[j], k, p) ==> spec_low(s[j], k)
                    <= spec_low(s[i], k));
        let q = spec_low(s[i], k);
        assert forall|j: int|
            0 <= j < s.len() && in_interval(#[trigger] s[j], k, p) implies in_interval(
            s[j],
            k,
            q,
        ) by {
            assert(spec_low(s[j], k) <= q);
            assert(q <= p <= spec_high(s[j], k));
        }
        lemma_count_pointwise(s, k, p, q);
        lemma_anchor_le_max(s, k, 0, i);
    }
}

/// Pick the largest mutually consistent subset of the candidates: the
/// group of candidates whose offset intervals share a common point, found
/// by trying every interval's lower endpoint as the meeting point. Ties
/// between equally large groups prefer the anchor with the smaller
/// standard deviation. A group smaller than the configured minimum is no
/// consensus: the selection is then empty.
pub fn select(algo: &AlgorithmConfig, candidates: Vec<KalmanSnapshot>) -> (r: Vec<KalmanSnapshot>)
    requires
        algo.valid(),
        forall|i: int| 0 <= i < candidates@.len() ==> (#[trigger] candidates@[i]).wf(),
    ensures
        forall|i: int| 0 <= i < r@.len() ==> (#[trigger] r@[i]).wf(),
        r@ =~= spec_selected(candidates@, *algo),
        spec_max_count(candidates@, algo.selection_confidence_k as int) >= spec_required(*algo)
            ==> r@.len() == spec_max_count(candidates@, algo.selection_confidence_k as int),
{
    let ghost k = algo.selection_confidence_k as int;
    let n = candidates.len();

    let mut lows: Vec<i64> = Vec::new();
    let mut highs: Vec<i64> = Vec::new();
    let mut sigmas: Vec<i64> = Vec::new();
    let mut t: usize = 0;
    while t < n
        invariant
            0 <= t <= n,
            n == candidates@.len(),
            k == algo.selection_confidence_k as int,
            algo.valid(),
            forall|i: int| 0 <= i < candidates@.len() ==> (#[trigger] candidates@[i]).wf(),
            lows@.len() == t && highs@.len() == t && sigmas@.len() == t,
            forall|i: int| 0 <= i < t ==> lows@[i] == spec_low(candidates@[i], k),
            forall|i: int| 0 <= i < t ==> highs@[i] == spec_high(candidates@[i], k),
            forall|i: int| 0 <= i < t ==> sigmas@[i] == spec_sigma(candidates@[i]),
        decreases n - t,
    {
        let c = &candidates[t];
        let sigma = fadd(fsqrt(c.uncertainty.e00), c.peer_uncertainty.raw);
        let width = fmul(algo.selection_confidence_k, sigma);
        lows.push(fsub(c.state.e0, width));
        highs.push(fadd(c.state.e0, width));
        sigmas.push(sigma);
        t += 1;
    }

    let mut best_count: usize = 0;
    let mut best_index: usize = 0;
    let mut best_sigma: i64 = 0;
    let mut i: usize = 0;
    while i < n
        invariant
            0 <= i <= n,
            n == candidates@.len(),
            k == algo.selection_confidence_k as int,
            lows@.len() == n && highs@.len() == n && sigmas@.len() == n,
            forall|x: int| 0 <= x < n ==> lows@[x] == spec_low(candidates@[x], k),
            forall|x: int| 0 <= x < n ==> highs@[x] == spec_high(candidates@[x], k),
            forall|x: int| 0 <= x < n ==> sigmas@[x] == spec_sigma(candidates@[x]),
            spec_max_count(candidates@, k) == if best_count as nat > max_count_from(
                candidates@,
                k,
                i as int,
            ) {
                best_count as nat
            } else {
                max_count_from(candidates@, k, i as int)
            },
            ((best_index as int, best_count as nat, best_sigma as int) === spec_scan_anchor(
                candidates@,
                k,
                i as int,
            )),
            best_count > 0 ==> 0 <= best_index < i && best_count == count_at(
                candidates@,
                k,
                spec_low(candidates@[best_index as int], k),
            ),
            best_count <= n,
        decreases n - i,
    {
        let mut count: usize = 0;
        let mut j: usize = 0;
        while j < n
            invariant
                0 <= j <= n,
                0 <= i < n,
                n == candidates@.len(),
                k == algo.selection_confidence_k as int,
                lows@.len() == n && highs@.len() == n,
                forall|x: int| 0 <= x < n ==> lows@[x] == spec_low(candidates@[x], k),
                forall|x: int| 0 <= x < n ==> highs@[x] == spec_high(candidates@[x], k),
                count == count_at(candidates@.take(j as int), k, spec_low(candidates@[i as int], k)),
                count <= j,
            decreases n - j,
        {
            proof {
                assert(candidates@.take(j + 1).drop_last() =~= candidates@.take(j as int));
                assert(candidates@.take(j + 1).last() == candidates@[j as int]);
            }
            if lows[j] <= lows[i] && lows[i] <= highs[j] {
                count += 1;
            }
            j += 1;
        }
        proof {
            assert(candidates@.take(n as int) =~= candidates@);
        }
        if count > best_count || (count == best_count && count > 0 && sigmas[i] < best_sigma) {
            best_count = count;
            best_index = i;
            best_sigma = sigmas[i];
        }
        i += 1;
    }

    let required: usize = if algo.minimum_agreeing_peers < 1 {
        1
    } else {
        algo.minimum_agreeing_peers
    };

    if best_count < required {
        return Vec::new();
    }

    let mut result: Vec<KalmanSnapshot> = Vec::new();
    let ghost anchor = spec_low(candidates@[best_index as int], k);
    let mut j: usize = 0;
    while j < n
        invariant
            0 <= j <= n,
            0 <= best_index < n,
            n == candidates@.len(),
            k == algo.selection_confidence_k as int,
            lows@.len() == n && highs@.len() == n,
            forall|x: int| 0 <= x < n ==> lows@[x] == spec_low(candidates@[x], k),
            forall|x: int| 0 <= x < n ==> highs@[x] == spec_high(candidates@[x], k),
            forall|i2: int| 0 <= i2 < candidates@.len() ==> (#[trigger] candidates@[i2]).wf(),
            anchor == spec_low(candidates@[best_index as int], k),
            result@ =~= selected_at(candidates@.take(j as int), k, anchor),
            forall|x: int| 0 <= x < result@.len() ==> (#[trigger] result@[x]).wf(),
        decreases n - j,
    {
        proof {
            assert(candidates@.take(j + 1).drop_last() =~= candidates@.take(j as int));
            assert(candidates@.take(j + 1).last() == candidates@[j as int]);
        }
        if lows[j] <= lows[best_index] && lows[best_index] <= highs[j] {
            result.push(candidates[j]);
        }
        j += 1;
    }
    proof {
        assert(candidates@.take(n as int) =~= candidates@);
    }
    result
}

} // verus!
