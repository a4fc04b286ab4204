//! Combination of the selected peer snapshots into a single consensus
//! estimate with uncertainty, a delay, the peers that contributed in order
//! of quality, and a leap-second vote.

use vstd::prelude::*;
use crate::filter::KalmanSnapshot;
use crate::fixed::{fadd, fmul, s_add, s_mul, MAX_VALUE};
use crate::matrix::{
    spec_determinant, spec_inverse, spec_mat_plus, spec_mat_times, spec_mat_times_vec,
    spec_regularize, spec_vec_minus, spec_vec_plus, Matrix, Vector,
};
use crate::packet::NtpLeapIndicator;
use crate::time::NtpDuration;

verus! {

/// The combined estimate over a selection of peers.
#[derive(Clone, Debug)]
pub struct Combine {
    pub estimate: Vector,
    pub uncertainty: Matrix,
    pub peers: Vec<u64>,
    pub delay: NtpDuration,
    pub leap_indicator: Option<NtpLeapIndicator>,
}

/// How many snapshots in `s` vote for leap status `v`.
pub open spec fn count_votes(s: Seq<KalmanSnapshot>, v: NtpLeapIndicator) -> nat
    decreases s.len(),
{
    if s.len() == 0 {
        0
    } else {
        count_votes(s.drop_last(), v) + if s.last().leap_indicator == v {
            1nat
        } else {
            0nat
        }
    }
}

/// The leap vote: the first status carried by a strict majority of the
/// selection, if any.
pub open spec fn spec_vote_leap(s: Seq<KalmanSnapshot>) -> Option<NtpLeapIndicator> {
    if 2 * count_votes(s, NtpLeapIndicator::NoWarning) > s.len() {
        Some(NtpLeapIndicator::NoWarning)
    } else if 2 * count_votes(s, NtpLeapIndicator::Leap59) > s.len() {
        Some(NtpLeapIndicator::Leap59)
    } else if 2 * count_votes(s, NtpLeapIndicator::Leap61) > s.len() {
        Some(NtpLeapIndicator::Leap61)
    } else {
        None
    }
}

/// Without `Unknown` votes the three counts cover the whole selection.
pub proof fn lemma_votes_cover(s: Seq<KalmanSnapshot>)
    requires
        forall|i: int|
            0 <= i < s.len() ==> s[i].leap_indicator != NtpLeapIndicator::Unknown,
    ensures
        count_votes(s, NtpLeapIndicator::NoWarning) + count_votes(s, NtpLeapIndicator::Leap59)
            + count_votes(s, NtpLeapIndicator::Leap61) == s.len(),
    decreases s.len(),
{
    if s.len() > 0 {
        assert(forall|i: int|
            0 <= i < s.drop_last().len() ==> s.drop_last()[i].leap_indicator
                != NtpLeapIndicator::Unknown);
        lemma_votes_cover(s.drop_last());
    }
}

/// The leap vote is `Some(v)` exactly when the votes for `v` form a
/// strict majority of the selection, for every status `v` that can be
/// voted for.
pub proof fn lemma_vote_majority(s: Seq<KalmanSnapshot>, v: NtpLeapIndicator)
    requires
        forall|i: int|
            0 <= i < s.len() ==> s[i].leap_indicator != NtpLeapIndicator::Unknown,
        v != NtpLeapIndicator::Unknown,
    ensures
        (spec_vote_leap(s) == Some(v)) <==> 2 * count_votes(s, v) > s.len(),
{
    lemma_votes_cover(s);
}

/// The snapshot's uncertainty inflated by the square of the dispersion
/// the peer itself reports.
pub open spec fn spec_inflate(s: KalmanSnapshot) -> Matrix {
    spec_mat_plus(
        s.uncertainty,
        Matrix {
            e00: s_mul(s.peer_uncertainty.raw as int, s.peer_uncertainty.raw as int) as i64,
            e01: 0,
            e10: 0,
            e11: 0,
        },
    )
}

/// Merge one snapshot into the running estimate: mix the two estimates
/// weighted by the inverse of their summed uncertainties, and shrink the
/// uncertainty accordingly. A degenerate sum whose fixed-point
/// determinant is not positive cannot be inverted and leaves the running
/// estimate unchanged.
pub open spec fn spec_merge(est: Vector, unc: Matrix, snap: KalmanSnapshot) -> (Vector, Matrix) {
    let pu = spec_inflate(snap);
    let sum = spec_mat_plus(unc, pu);
    if spec_determinant(sum) <= 0 {
        (est, unc)
    } else {
        let mixer = spec_inverse(sum);
        let est2 = spec_vec_plus(
            est,
            spec_mat_times_vec(spec_mat_times(unc, mixer), spec_vec_minus(snap.state, est)),
        );
        let unc2 = spec_regularize(spec_mat_times(spec_mat_times(unc, mixer), pu));
        (est2, unc2)
    }
}

/// The estimate after merging the snapshots from index `i` on into the
/// running pair `(est, unc)`.
pub open spec fn spec_fold_from(s: Seq<KalmanSnapshot>, i: int, est: Vector, unc: Matrix) -> (
    Vector,
    Matrix,
)
    decreases s.len() - i,
{
    if i < 0 || i >= s.len() {
        (est, unc)
    } else {
        let merged = spec_merge(est, unc, s[i]);
        spec_fold_from(s, i + 1, merged.0, merged.1)
    }
}

/// The combined delay: the smallest total of smoothed delay and
/// remote-reported delay over the selection.
pub open spec fn spec_min_delay(s: Seq<KalmanSnapshot>) -> int
    decreases s.len(),
{
    if s.len() == 0 {
        0
    } else if s.len() == 1 {
        s[0].delay + s[0].peer_delay.raw
    } else {
        let rest = spec_min_delay(s.drop_last());
        let lastd = s.last().delay + s.last().peer_delay.raw;
        if lastd < rest {
            lastd
        } else {
            rest
        }
    }
}

/// The quality key the contributing peers are ordered by: the fixed-point
/// determinant of each snapshot's inflated uncertainty.
pub open spec fn spec_quality(s: KalmanSnapshot) -> int {
    spec_determinant(spec_inflate(s))
}

/// The `(index, quality)` pairs of a selection.
pub open spec fn spec_quality_pairs(s: Seq<KalmanSnapshot>) -> Seq<(u64, i64)> {
    s.map_values(|c: KalmanSnapshot| (c.index, spec_quality(c) as i64))
}

/// Pairs ordered by non-decreasing quality.
pub open spec fn sorted_by_quality(s: Seq<(u64, i64)>) -> bool {
    forall|i: int, j: int| 0 <= i < j < s.len() ==> s[i].1 <= s[j].1
}

/// `item` inserted behind every element of `s` whose quality is not
/// larger.
pub open spec fn spec_insert_by_quality(s: Seq<(u64, i64)>, item: (u64, i64)) -> Seq<(u64, i64)>
    decreases s.len(),
{
    if s.len() == 0 {
        seq![item]
    } else if s[0].1 <= item.1 {
        seq![s[0]] + spec_insert_by_quality(s.drop_first(), item)
    } else {
        seq![item] + s
    }
}

/// The stable insertion sort of the pairs by non-decreasing quality.
pub open spec fn spec_sort_by_quality(s: Seq<(u64, i64)>) -> Seq<(u64, i64)>
    decreases s.len(),
{
    if s.len() == 0 {
        Seq::empty()
    } else {
        spec_insert_by_quality(spec_sort_by_quality(s.drop_last()), s.last())
    }
}

/// Inserting at the first position whose quality exceeds the item's is
/// exactly what `spec_insert_by_quality` does.
proof fn lemma_insert_at_first_larger(s: Seq<(u64, i64)>, item: (u64, i64), pos: int)
    requires
        0 <= pos <= s.len(),
        forall|t: int| 0 <= t < pos ==> s[t].1 <= item.1,
        pos == s.len() || s[pos].1 > item.1,
    ensures
        s.insert(pos, item) =~= spec_insert_by_quality(s, item),
    decreases s.len(),
{
    if s.len() == 0 {
        assert(s.insert(0, item) =~= seq![item]);
    } else if pos == 0 {
        assert(s.insert(0, item) =~= seq![item] + s);
    } else {
        lemma_insert_at_first_larger(s.drop_first(), item, pos - 1);
        s.insert_ensures(pos, item);
        s.drop_first().insert_ensures(pos - 1, item);
        assert(s.insert(pos, item) =~= seq![s[0]] + s.drop_first().insert(pos - 1, item));
    }
}

/// Combining a singleton selection keeps that peer's estimate unchanged
/// in mean; only its uncertainty is inflated by the square of the
/// reported dispersion.
pub proof fn lemma_combine_singleton(s: Seq<KalmanSnapshot>)
    requires
        s.len() == 1,
    ensures
        spec_fold_from(s, 1, s[0].state, spec_inflate(s[0])).0 == s[0].state,
        spec_fold_from(s, 1, s[0].state, spec_inflate(s[0])).1 == spec_inflate(s[0]),
{
}

/// Vote on the leap status of the selection: a strict majority of the
/// selection wins, otherwise no announcement is made. The selection stage
/// never passes a peer with an unknown leap status here.
pub fn vote_leap(selection: &Vec<KalmanSnapshot>) -> (r: Option<NtpLeapIndicator>)
    requires
        forall|i: int|
            0 <= i < selection@.len() ==> selection@[i].leap_indicator
                != NtpLeapIndicator::Unknown,
    ensures
        r == spec_vote_leap(selection@),
{
    let mut votes_59: usize = 0;
    let mut votes_61: usize = 0;
    let mut votes_none: usize = 0;
    let mut i: usize = 0;
    while i < selection.len()
        invariant
            0 <= i <= selection@.len(),
            votes_none == count_votes(selection@.take(i as int), NtpLeapIndicator::NoWarning),
            votes_59 == count_votes(selection@.take(i as int), NtpLeapIndicator::Leap59),
            votes_61 == count_votes(selection@.take(i as int), NtpLeapIndicator::Leap61),
            votes_none + votes_59 + votes_61 <= i,
        decreases selection@.len() - i,
    {
        proof {
            assert(selection@.take(i + 1).drop_last() =~= selection@.take(i as int));
            assert(selection@.take(i + 1).last() == selection@[i as int]);
        }
        match selection[i].leap_indicator {
            NtpLeapIndicator::NoWarning => {
                votes_none += 1;
            },
            NtpLeapIndicator::Leap61 => {
                votes_61 += 1;
            },
            NtpLeapIndicator::Leap59 => {
                votes_59 += 1;
            },
            NtpLeapIndicator::Unknown => {
                // the selection stage filters unknown peers out
            },
        }
        i += 1;
    }
    proof {
        assert(selection@.take(selection@.len() as int) =~= selection@);
    }
    if votes_none > selection.len() - votes_none {
        Some(NtpLeapIndicator::NoWarning)
    } else if votes_59 > selection.len() - votes_59 {
        Some(NtpLeapIndicator::Leap59)
    } else if votes_61 > selection.len() - votes_61 {
        Some(NtpLeapIndicator::Leap61)
    } else {
        None
    }
}

/// Fold the selection into one consensus estimate: initialize from the
/// first snapshot with its uncertainty inflated by the reported
/// dispersion, merge the remaining snapshots one by one, record each
/// peer's quality, and vote the leap indicator. An empty selection
/// combines to nothing.
pub fn combine(selection: &Vec<KalmanSnapshot>) -> (r: Option<Combine>)
    requires
        forall|i: int| 0 <= i < selection@.len() ==> (#[trigger] selection@[i]).wf(),
    ensures
        selection@.len() == 0 ==> r is None,
        selection@.len() > 0 ==> (r matches Some(c) && {
            let folded = spec_fold_from(
                selection@,
                1,
                selection@[0].state,
                spec_inflate(selection@[0]),
            );
            &&& c.estimate == folded.0
            &&& c.uncertainty == folded.1
            &&& c.delay.raw == spec_min_delay(selection@)
            &&& c.leap_indicator == spec_vote_leap(selection@)
            &&& c.peers@.len() == selection@.len()
            &&& c.peers@ =~= spec_sort_by_quality(spec_quality_pairs(selection@)).map_values(
                (|p: (u64, i64)| p.0),
            )
        }),
{
    if selection.len() == 0 {
        return None;
    }

    let first = &selection[0];
    let mut estimate = first.state;
    let mut uncertainty = inflate(first);

    let mut used_peers: Vec<(u64, i64)> = Vec::new();
    used_peers.push((first.index, uncertainty.determinant()));

    let mut i: usize = 1;
    while i < selection.len()
        invariant
            1 <= i <= selection@.len(),
            selection@.len() > 0,
            forall|j: int| 0 <= j < selection@.len() ==> (#[trigger] selection@[j]).wf(),
            spec_fold_from(selection@, i as int, estimate, uncertainty) == spec_fold_from(
                selection@,
                1,
                selection@[0].state,
                spec_inflate(selection@[0]),
            ),
            used_peers@ =~= spec_quality_pairs(selection@.take(i as int)),
        decreases selection@.len() - i,
    {
        let snapshot = &selection[i];
        let peer_uncertainty = inflate(snapshot);

        used_peers.push((snapshot.index, peer_uncertainty.determinant()));

        // Merge measurements
        let sum = uncertainty.plus(peer_uncertainty);
        let det = sum.determinant();
        if det > 0 {
            let mixer = sum.inverse();
            let weighted = uncertainty.times(mixer);
            estimate = estimate.plus(weighted.times_vec(snapshot.state.minus(estimate)));
            uncertainty = weighted.times(peer_uncertainty).regularize();
        }
        proof {
            assert(selection@.take(i + 1).drop_last() =~= selection@.take(i as int));
            assert(spec_quality_pairs(selection@.take(i + 1)) =~= spec_quality_pairs(
                selection@.take(i as int),
            ).push((selection@[i as int].index, spec_quality(selection@[i as int]) as i64)));
        }
        i += 1;
    }
    proof {
        assert(selection@.take(selection@.len() as int) =~= selection@);
    }

    let sorted = sort_by_quality(used_peers);
    let mut peers: Vec<u64> = Vec::new();
    let mut j: usize = 0;
    while j < sorted.len()
        invariant
            0 <= j <= sorted@.len(),
            peers@ =~= sorted@.take(j as int).map_values(|p: (u64, i64)| p.0),
        decreases sorted@.len() - j,
    {
        proof {
            assert(sorted@.take(j + 1).drop_last() =~= sorted@.take(j as int));
        }
        peers.push(sorted[j].0);
        proof {
            assert(sorted@.take(j + 1).map_values(|p: (u64, i64)| p.0) =~= sorted@.take(
                j as int,
            ).map_values(|p: (u64, i64)| p.0).push(sorted@[j as int].0));
        }
        j += 1;
    }
    proof {
        assert(sorted@.take(sorted@.len() as int) =~= sorted@);
        assert(spec_quality_pairs(selection@).to_multiset().len() == spec_quality_pairs(
            selection@,
        ).len()) by {
            spec_quality_pairs(selection@).to_multiset_ensures();
        }
        assert(sorted@.to_multiset().len() == sorted@.len()) by {
            sorted@.to_multiset_ensures();
        }
    }

    let delay = min_delay(selection);

    Some(
        Combine {
            estimate,
            uncertainty,
            peers,
            delay,
            leap_indicator: vote_leap(selection),
        },
    )
}

/// The snapshot's uncertainty inflated by the square of its reported
/// dispersion, as executable code.
fn inflate(s: &KalmanSnapshot) -> (r: Matrix)
    ensures
        r == spec_inflate(*s),
{
    s.uncertainty.plus(
        Matrix::new(fmul(s.peer_uncertainty.raw, s.peer_uncertainty.raw), 0, 0, 0),
    )
}

/// The smallest total delay over the selection, as executable code.
fn min_delay(selection: &Vec<KalmanSnapshot>) -> (r: NtpDuration)
    requires
        selection@.len() > 0,
        forall|i: int| 0 <= i < selection@.len() ==> (#[trigger] selection@[i]).wf(),
    ensures
        r.raw == spec_min_delay(selection@),
{
    let first = &selection[0];
    let mut best: i64 = first.delay + first.peer_delay.raw;
    let mut i: usize = 1;
    while i < selection.len()
        invariant
            1 <= i <= selection@.len(),
            selection@.len() > 0,
            forall|j: int| 0 <= j < selection@.len() ==> (#[trigger] selection@[j]).wf(),
            best == spec_min_delay(selection@.take(i as int)),
        decreases selection@.len() - i,
    {
        proof {
            assert(selection@.take(i + 1).drop_last() =~= selection@.take(i as int));
            assert(selection@.take(i + 1).last() == selection@[i as int]);
        }
        let candidate = selection[i].delay + selection[i].peer_delay.raw;
        if candidate < best {
            best = candidate;
        }
        i += 1;
    }
    proof {
        assert(selection@.take(selection@.len() as int) =~= selection@);
    }
    NtpDuration { raw: best }
}

/// Sort the `(index, quality)` pairs by non-decreasing quality with a
/// plain insertion sort.
fn sort_by_quality(pairs: Vec<(u64, i64)>) -> (r: Vec<(u64, i64)>)
    ensures
        r@ =~= spec_sort_by_quality(pairs@),
        r@.to_multiset() == pairs@.to_multiset(),
        sorted_by_quality(r@),
        r@.len() == pairs@.len(),
{
    let mut result: Vec<(u64, i64)> = Vec::new();
    let mut i: usize = 0;
    proof {
        assert(pairs@.take(0) =~= Seq::<(u64, i64)>::empty());
        result@.to_multiset_ensures();
        pairs@.take(0).to_multiset_ensures();
        assert(result@.to_multiset() =~= pairs@.take(0).to_multiset());
    }
    while i < pairs.len()
        invariant
            0 <= i <= pairs@.len(),
            result@ =~= spec_sort_by_quality(pairs@.take(i as int)),
            result@.to_multiset() == pairs@.take(i as int).to_multiset(),
            result@.len() == i,
            sorted_by_quality(result@),
        decreases pairs@.len() - i,
    {
        let item = pairs[i];
        // find the insertion point: the first position whose quality is
        // larger than the new item's
        let mut pos: usize = 0;
        while pos < result.len() && result[pos].1 <= item.1
            invariant
                0 <= pos <= result@.len(),
                forall|t: int| 0 <= t < pos ==> result@[t].1 <= item.1,
                sorted_by_quality(result@),
            decreases result@.len() - pos,
        {
            pos += 1;
        }
        proof {
            assert(forall|t: int| pos <= t < result@.len() ==> item.1 <= result@[t].1) by {
                assert(pos < result@.len() ==> result@[pos as int].1 > item.1);
                assert(forall|t: int|
                    pos < t < result@.len() ==> result@[pos as int].1 <= result@[t].1);
            }
        }
        let ghost old_result = result@;
        result.insert(pos, item);
        proof {
            old_result.insert_ensures(pos as int, item);
            assert forall|x: int, y: int| 0 <= x < y < result@.len() implies result@[x].1
                <= result@[y].1 by {
                if y < pos {
                    assert(result@[x] == old_result[x] && result@[y] == old_result[y]);
                } else if x > pos {
                    assert(result@[x] == old_result[x - 1] && result@[y] == old_result[y - 1]);
                } else if x == pos {
                    assert(result@[x] == item && result@[y] == old_result[y - 1]);
                } else if y == pos {
                    assert(result@[x] == old_result[x] && result@[y] == item);
                } else {
                    // x < pos < y
                    assert(result@[x] == old_result[x] && result@[y] == old_result[y - 1]);
                }
            }
            lemma_insert_multiset(result@, old_result, pos as int, item);
            lemma_insert_at_first_larger(old_result, item, pos as int);
            assert(result@ =~= spec_insert_by_quality(old_result, item));
            assert(pairs@.take(i + 1).drop_last() =~= pairs@.take(i as int));
            assert(pairs@.take(i + 1).last() == pairs@[i as int]);
            assert(pairs@.take(i + 1) =~= pairs@.take(i as int).push(pairs@[i as int]));
            pairs@.take(i as int).to_multiset_ensures();
            assert(pairs@.take(i + 1).to_multiset() == pairs@.take(i as int).to_multiset().insert(
                item,
            ));
        }
        i += 1;
    }
    proof {
        assert(pairs@.take(pairs@.len() as int) =~= pairs@);
    }
    result
}

/// Inserting `item` at `pos` into a sequence adds exactly `item` to its
/// multiset.
proof fn lemma_insert_multiset(after: Seq<(u64, i64)>, before: Seq<(u64, i64)>, pos: int, item: (u64, i64))
    requires
        0 <= pos <= before.len(),
        after =~= before.insert(pos, item),
    ensures
        after.to_multiset() == before.to_multiset().insert(item),
{
    assert(after =~= before.take(pos).push(item) + before.skip(pos));
    lemma_multiset_concat(before.take(pos).push(item), before.skip(pos));
    lemma_multiset_concat(before.take(pos), before.skip(pos));
    before.take(pos).to_multiset_ensures();
    assert(before.take(pos).push(item).to_multiset() == before.take(pos).to_multiset().insert(
        item,
    )) by {
        before.take(pos).to_multiset_ensures();
    }
    assert(before.take(pos) + before.skip(pos) =~= before);
    assert(after.to_multiset() == before.take(pos).to_multiset().insert(item).add(
        before.skip(pos).to_multiset(),
    ));
    assert(before.to_multiset() == before.take(pos).to_multiset().add(
        before.skip(pos).to_multiset(),
    ));
    assert(before.take(pos).to_multiset().insert(item).add(before.skip(pos).to_multiset())
        =~= before.take(pos).to_multiset().add(before.skip(pos).to_multiset()).insert(item));
}

/// The multiset of a concatenation is the sum of the multisets.
proof fn lemma_multiset_concat(a: Seq<(u64, i64)>, b: Seq<(u64, i64)>)
    ensures
        (a + b).to_multiset() == a.to_multiset().add(b.to_multiset()),
{
    vstd::seq_lib::lemma_multiset_commutative(a, b);
}

} // verus!
