use vstd::prelude::*;
use crate::errors::Error;
use crate::rng::{SampleRng, rng_advance, rng_mix};

verus! {

/// Largest weight one candidate may carry.
pub const WEIGHT_LIMIT: u64 = 0x1_0000_0000;

/// Largest number of candidates one distribution may hold; together with
/// `WEIGHT_LIMIT` it keeps every cumulative sum inside `u64`.
pub const VOCAB_LIMIT: usize = 0x10_0000;

/// One sampling candidate: the integer weight the distribution gives a
/// vocabulary index, and that index.
#[derive(Clone, Copy, Debug, PartialEq, Eq, Structural)]
pub struct Cand {
    pub weight: u64,
    pub index: usize,
}

/// Descending order on candidates: heavier first, ties towards the lower
/// index. A total order, so a multiset of candidates sorts one way only.
pub open spec fn cand_precedes(a: Cand, b: Cand) -> bool {
    a.weight > b.weight || (a.weight == b.weight && a.index <= b.index)
}

/// The order as a value, for `Seq::sort_by`.
pub open spec fn cand_order() -> spec_fn(Cand, Cand) -> bool {
    |a: Cand, b: Cand| cand_precedes(a, b)
}

/// The candidate list a weight vector induces: one candidate per index.
pub open spec fn candidates_of(w: Seq<u64>) -> Seq<Cand> {
    Seq::new(w.len(), |i: int| Cand { weight: w[i], index: i as usize })
}

/// The one descending ordering of a weight vector's candidates.
pub open spec fn sorted_of(w: Seq<u64>) -> Seq<Cand> {
    candidates_of(w).sort_by(cand_order())
}

/// The cumulative weight of the first `k` candidates.
pub open spec fn prefix_weight(s: Seq<Cand>, k: int) -> int
    decreases k,
{
    if k <= 0 {
        0
    } else {
        prefix_weight(s, k - 1) + s[k - 1].weight
    }
}

pub proof fn lemma_cand_order_total()
    ensures
        vstd::relations::total_ordering(cand_order()),
{
    let r = cand_order();
    assert forall|x: Cand, y: Cand| #[trigger] r(x, y) || #[trigger] r(y, x) by {}
    assert forall|x: Cand, y: Cand, z: Cand| #[trigger] r(x, y) && #[trigger] r(y, z) implies r(
        x,
        z,
    ) by {}
}

/// Prefix sums never decrease as the prefix grows.
pub proof fn lemma_prefix_monotone(s: Seq<Cand>, k1: int, k2: int)
    requires
        k1 <= k2,
    ensures
        prefix_weight(s, k1) <= prefix_weight(s, k2),
    decreases k2 - k1,
{
    if k1 < k2 {
        lemma_prefix_monotone(s, k1, k2 - 1);
    }
}

/// Every candidate's weight is at most the whole sum.
pub proof fn lemma_elem_le_prefix(s: Seq<Cand>, t: int)
    requires
        0 <= t < s.len(),
    ensures
        s[t].weight <= prefix_weight(s, s.len() as int),
{
    lemma_prefix_monotone(s, 0, t);
    lemma_prefix_monotone(s, t + 1, s.len() as int);
}

/// A prefix of zero-weight candidates sums to zero.
pub proof fn lemma_all_zero_prefix(s: Seq<Cand>, k: int)
    requires
        k <= s.len(),
        forall|t: int| 0 <= t < s.len() ==> #[trigger] s[t].weight == 0,
    ensures
        prefix_weight(s, k) == 0,
    decreases k,
{
    if k > 0 {
        lemma_all_zero_prefix(s, k - 1);
    }
}

/// Exec counterpart of the candidate order.
fn cand_precedes_exec(a: Cand, b: Cand) -> (r: bool)
    ensures
        r == cand_precedes(a, b),
{
    a.weight > b.weight || (a.weight == b.weight && a.index <= b.index)
}

/// Pairs every weight with its index.
fn make_candidates(weights: &Vec<u64>) -> (r: Vec<Cand>)
    ensures
        r@ == candidates_of(weights@),
{
    let len: usize = weights.len();
    let mut out: Vec<Cand> = Vec::new();
    let mut i: usize = 0;
    while i < len
        invariant
            len == weights@.len(),
            i <= len,
            out@.len() == i,
            forall|k: int|
                0 <= k < i ==> #[trigger] out@[k] == (Cand {
                    weight: weights@[k],
                    index: k as usize,
                }),
        decreases len - i,
    {
        out.push(Cand { weight: weights[i], index: i });
        i = i + 1;
    }
    proof {
        assert(out@ =~= candidates_of(weights@));
    }
    out
}

/// Sorts candidates into the one descending order, heaviest first, ties
/// towards the lower index.
fn sort_candidates(v: &mut Vec<Cand>)
    ensures
        final(v)@ == old(v)@.sort_by(cand_order()),
        final(v)@.len() == old(v)@.len(),
{
    proof {
        lemma_cand_order_total();
        old(v)@.lemma_sort_by_ensures(cand_order());
        broadcast use vstd::seq_lib::group_to_multiset_ensures;

    }
    let ghost orig: Seq<Cand> = v@;
    let len: usize = v.len();
    let mut i: usize = 1;
    while i < len
        invariant
            len == v@.len(),
            1 <= i,
            v@.to_multiset() == orig.to_multiset(),
            forall|a: int, b: int| 0 <= a < b < i && b < len ==> cand_precedes(v@[a], v@[b]),
        decreases len - i,
    {
        let mut j: usize = i;
        while j > 0 && !cand_precedes_exec(v[j - 1], v[j])
            invariant
                len == v@.len(),
                0 <= j <= i < len,
                v@.to_multiset() == orig.to_multiset(),
                forall|a: int, b: int|
                    0 <= a < b <= i && b != j ==> cand_precedes(v@[a], v@[b]),
            decreases j,
        {
            let a: Cand = v[j - 1];
            let b: Cand = v[j];
            let ghost before: Seq<Cand> = v@;
            v.set(j - 1, b);
            v.set(j, a);
            proof {
                broadcast use vstd::seq_lib::group_to_multiset_ensures;
                broadcast use vstd::seq_lib::to_multiset_update;
                broadcast use vstd::multiset::group_multiset_axioms;

                assert(v@.to_multiset() =~= before.to_multiset());
            }
            j = j - 1;
        }
        proof {
            assert forall|a: int, b: int| 0 <= a < b <= i implies cand_precedes(v@[a], v@[b]) by {
                if b == j {
                    if j > 0 {
                        assert(cand_precedes(v@[j as int - 1], v@[j as int]));
                        if a < j as int - 1 {
                            assert(cand_precedes(v@[a], v@[j as int - 1]));
                        }
                    }
                }
            }
        }
        i = i + 1;
    }
    proof {
        assert(vstd::relations::sorted_by(v@, cand_order())) by {
            assert forall|a: int, b: int| 0 <= a < b < v@.len() implies #[trigger] cand_order()(
                v@[a],
                v@[b],
            ) by {
                assert(cand_precedes(v@[a], v@[b]));
            }
        }
        vstd::seq_lib::lemma_sorted_unique(v@, orig.sort_by(cand_order()), cand_order());
        assert(v@ =~= orig.sort_by(cand_order()));
    }
}

/// Cumulative weights are bounded by the prefix length times the weight cap.
pub proof fn lemma_prefix_bound(s: Seq<Cand>, k: int)
    requires
        0 <= k <= s.len(),
        forall|t: int| 0 <= t < s.len() ==> (#[trigger] s[t]).weight <= WEIGHT_LIMIT,
    ensures
        prefix_weight(s, k) <= k * (WEIGHT_LIMIT as int),
    decreases k,
{
    if k > 0 {
        lemma_prefix_bound(s, k - 1);
    }
}

/// What the one descending ordering of a weight vector looks like: same
/// length, sorted, and every entry is one of the vector's indices paired
/// with that index's weight.
pub proof fn lemma_sorted_of_ensures(w: Seq<u64>)
    requires
        w.len() <= usize::MAX,
    ensures
        sorted_of(w).len() == w.len(),
        vstd::relations::sorted_by(sorted_of(w), cand_order()),
        forall|t: int|
            0 <= t < w.len() ==> (#[trigger] sorted_of(w)[t]).index < w.len() && sorted_of(
                w,
            )[t].weight == w[sorted_of(w)[t].index as int],
{
    broadcast use vstd::seq_lib::group_to_multiset_ensures;

    lemma_cand_order_total();
    candidates_of(w).lemma_sort_by_ensures(cand_order());
    let c = candidates_of(w);
    let s = sorted_of(w);
    assert(s.len() == w.len()) by {
        assert(c.to_multiset().len() == c.len());
        assert(s.to_multiset().len() == s.len());
    }
    assert forall|t: int|
        0 <= t < w.len() implies (#[trigger] s[t]).index < w.len() && s[t].weight == w[s[t].index as int] by {
        assert(s.contains(s[t]));
        assert(s.to_multiset().count(s[t]) > 0);
        assert(c.to_multiset().count(s[t]) > 0);
        assert(c.contains(s[t]));
        let i = choose|i: int| 0 <= i < c.len() && c[i] == s[t];
        assert(c[i] == Cand { weight: w[i], index: i as usize });
    }
}

/// The whole ordering carries weight zero exactly when every input weight
/// is zero: the degenerate case nucleus sampling rejects.
pub proof fn lemma_total_zero(w: Seq<u64>)
    requires
        w.len() <= usize::MAX,
    ensures
        (prefix_weight(sorted_of(w), w.len() as int) == 0) <==> (forall|i: int|
            0 <= i < w.len() ==> w[i] == 0),
{
    broadcast use vstd::seq_lib::group_to_multiset_ensures;

    lemma_cand_order_total();
    candidates_of(w).lemma_sort_by_ensures(cand_order());
    lemma_sorted_of_ensures(w);
    let c = candidates_of(w);
    let s = sorted_of(w);
    if prefix_weight(s, w.len() as int) == 0 {
        assert forall|i: int| 0 <= i < w.len() implies w[i] == 0 by {
            assert(c[i] == Cand { weight: w[i], index: i as usize });
            assert(c.contains(c[i]));
            assert(c.to_multiset().count(c[i]) > 0);
            assert(s.to_multiset().count(c[i]) > 0);
            assert(s.contains(c[i]));
            let t = choose|t: int| 0 <= t < s.len() && s[t] == c[i];
            lemma_elem_le_prefix(s, t);
        }
    }
    if forall|i: int| 0 <= i < w.len() ==> w[i] == 0 {
        assert forall|t: int| 0 <= t < s.len() implies (#[trigger] s[t]).weight == 0 by {}
        lemma_all_zero_prefix(s, w.len() as int);
    }
}

/// `k` is the nucleus cut for factor `p` (thousandths): the cumulative
/// weight of the first `k` candidates reaches the share `p` asks of the
/// total, and the first `k - 1` fall short, so the prefix is minimal.
pub open spec fn cut_props(s: Seq<Cand>, p: int, k: int) -> bool {
    &&& 1 <= k <= s.len()
    &&& prefix_weight(s, k) * 1000 >= p * prefix_weight(s, s.len() as int)
    &&& prefix_weight(s, k - 1) * 1000 < p * prefix_weight(s, s.len() as int)
}

/// Position `j` holds the draw `r`: the cumulative weight before `j` is at
/// most `r`, which the next step passes. Only a positive-weight candidate
/// can hold a draw.
pub open spec fn pick_props(s: Seq<Cand>, r: int, j: int) -> bool {
    &&& 0 <= j < s.len()
    &&& prefix_weight(s, j) <= r < prefix_weight(s, j + 1)
}

/// At most one cut satisfies the nucleus bounds.
pub proof fn lemma_cut_unique(s: Seq<Cand>, p: int, k1: int, k2: int)
    requires
        cut_props(s, p, k1),
        cut_props(s, p, k2),
    ensures
        k1 == k2,
{
    if k1 < k2 {
        lemma_prefix_monotone(s, k1, k2 - 1);
    }
    if k2 < k1 {
        lemma_prefix_monotone(s, k2, k1 - 1);
    }
}

/// At most one position holds a draw.
pub proof fn lemma_pick_unique(s: Seq<Cand>, r: int, j1: int, j2: int)
    requires
        pick_props(s, r, j1),
        pick_props(s, r, j2),
    ensures
        j1 == j2,
{
    if j1 < j2 {
        lemma_prefix_monotone(s, j1 + 1, j2);
    }
    if j2 < j1 {
        lemma_prefix_monotone(s, j2 + 1, j1);
    }
}

/// The cumulative weight of the first `k` sorted candidates.
fn weight_up_to(s: &Vec<Cand>, k: usize) -> (r: u64)
    requires
        k <= s@.len(),
        s@.len() <= VOCAB_LIMIT,
        forall|t: int| 0 <= t < s@.len() ==> (#[trigger] s@[t]).weight <= WEIGHT_LIMIT,
    ensures
        r == prefix_weight(s@, k as int),
{
    let mut acc: u64 = 0;
    let mut i: usize = 0;
    while i < k
        invariant
            k <= s@.len(),
            s@.len() <= VOCAB_LIMIT,
            forall|t: int| 0 <= t < s@.len() ==> (#[trigger] s@[t]).weight <= WEIGHT_LIMIT,
            i <= k,
            acc == prefix_weight(s@, i as int),
            acc <= (i as int) * (WEIGHT_LIMIT as int),
        decreases k - i,
    {
        acc = acc + s[i].weight;
        i = i + 1;
    }
    acc
}

/// Walks the sorted candidates to the nucleus cut: the shortest prefix
/// whose cumulative weight reaches the share `p` (thousandths) of `total`.
fn cut_index(s: &Vec<Cand>, total: u64, p: u32) -> (k: usize)
    requires
        total == prefix_weight(s@, s@.len() as int),
        total > 0,
        1 <= p <= 1000,
        s@.len() <= VOCAB_LIMIT,
        forall|t: int| 0 <= t < s@.len() ==> (#[trigger] s@[t]).weight <= WEIGHT_LIMIT,
    ensures
        cut_props(s@, p as int, k as int),
{
    proof {
        lemma_prefix_bound(s@, s@.len() as int);
        assert((p as int) * (total as int) <= 1000 * 0x10_0000_0000_0000) by (nonlinear_arith)
            requires
                0 <= p <= 1000,
                0 <= total <= 0x10_0000_0000_0000,
        ;
        assert((p as int) * (total as int) >= 1) by (nonlinear_arith)
            requires
                p >= 1,
                total >= 1,
        ;
    }
    let thr: u64 = (p as u64) * total;
    let mut acc: u64 = 0;
    let mut k: usize = 0;
    while acc * 1000 < thr
        invariant
            total == prefix_weight(s@, s@.len() as int),
            total > 0,
            1 <= p <= 1000,
            s@.len() <= VOCAB_LIMIT,
            forall|t: int| 0 <= t < s@.len() ==> (#[trigger] s@[t]).weight <= WEIGHT_LIMIT,
            thr == (p as int) * (total as int),
            k <= s@.len(),
            acc == prefix_weight(s@, k as int),
            acc <= (k as int) * (WEIGHT_LIMIT as int),
            thr >= 1,
            k > 0 ==> prefix_weight(s@, k as int - 1) * 1000 < thr,
        decreases s@.len() - k,
    {
        proof {
            if k == s@.len() {
                assert(acc == total);
                assert((acc as int) * 1000 >= (p as int) * (total as int)) by (nonlinear_arith)
                    requires
                        acc == total,
                        0 <= total,
                        p <= 1000,
                ;
                assert(false);
            }
            lemma_prefix_bound(s@, k as int + 1);
        }
        acc = acc + s[k].weight;
        k = k + 1;
    }
    k
}

/// Walks the cumulative weights to the position holding the draw `r`.
fn pick_in_prefix(s: &Vec<Cand>, k: usize, r: u64) -> (j: usize)
    requires
        1 <= k <= s@.len(),
        s@.len() <= VOCAB_LIMIT,
        forall|t: int| 0 <= t < s@.len() ==> (#[trigger] s@[t]).weight <= WEIGHT_LIMIT,
        r < prefix_weight(s@, k as int),
    ensures
        pick_props(s@, r as int, j as int),
        j < k,
{
    let mut acc: u64 = 0;
    let mut j: usize = 0;
    loop
        invariant
            1 <= k <= s@.len(),
            s@.len() <= VOCAB_LIMIT,
            forall|t: int| 0 <= t < s@.len() ==> (#[trigger] s@[t]).weight <= WEIGHT_LIMIT,
            r < prefix_weight(s@, k as int),
            j < k,
            acc == prefix_weight(s@, j as int),
            acc <= r,
        decreases k - j,
    {
        proof {
            lemma_prefix_bound(s@, j as int + 1);
        }
        let w: u64 = s[j].weight;
        if r < acc + w {
            return j;
        }
        proof {
            if j + 1 == k {
                assert(prefix_weight(s@, k as int) <= r);
            }
        }
        acc = acc + w;
        j = j + 1;
    }
}

/// The draw nucleus sampling makes from rng state `state` once the cut `k`
/// is fixed: a value below the nucleus's cumulative weight.
pub open spec fn nucleus_draw(w: Seq<u64>, state: u64, k: int) -> int {
    rng_mix(rng_advance(state)) as int % prefix_weight(sorted_of(w), k)
}

/// One witness that `ix` is the nucleus choice for weights `w`, share `p`
/// and rng state `state`: a cut `k` and a position `j` inside it.
pub open spec fn nucleus_witness(
    w: Seq<u64>,
    p: int,
    state: u64,
    k: int,
    j: int,
    ix: usize,
) -> bool {
    &&& cut_props(sorted_of(w), p, k)
    &&& pick_props(sorted_of(w), nucleus_draw(w, state, k), j)
    &&& j < k
    &&& ix == sorted_of(w)[j].index
}

/// What nucleus sampling returns: an index drawn inside the minimal
/// cutoff-reaching prefix of the descending ordering. Indices outside that
/// prefix, and zero-weight indices, are never returned.
pub open spec fn nucleus_choice(w: Seq<u64>, p: int, state: u64, ix: usize) -> bool {
    exists|k: int, j: int| #[trigger] nucleus_witness(w, p, state, k, j, ix)
}

/// The nucleus choice is a function of the weights, the share and the rng
/// state: sampling is reproducible for a fixed seed.
pub proof fn lemma_nucleus_choice_unique(w: Seq<u64>, p: int, state: u64, ix1: usize, ix2: usize)
    requires
        nucleus_choice(w, p, state, ix1),
        nucleus_choice(w, p, state, ix2),
    ensures
        ix1 == ix2,
{
    let (k1, j1) = choose|k: int, j: int| #[trigger] nucleus_witness(w, p, state, k, j, ix1);
    let (k2, j2) = choose|k: int, j: int| #[trigger] nucleus_witness(w, p, state, k, j, ix2);
    lemma_cut_unique(sorted_of(w), p, k1, k2);
    lemma_pick_unique(sorted_of(w), nucleus_draw(w, state, k1), j1, j2);
}

/// Nucleus sampling: orders the candidates by descending weight, keeps the
/// minimal prefix whose cumulative weight reaches the share `p`
/// (thousandths) of the total, and draws one index from that prefix with
/// the run's generator, each index weighted by its weight. Fails with
/// `Sampling` exactly on a degenerate distribution: no candidate, or all
/// weights zero. The generator advances exactly once on success and not at
/// all on failure.
pub fn sample_top_p(weights: &Vec<u64>, p: u32, rng: &mut SampleRng) -> (r: Result<usize, Error>)
    requires
        1 <= p <= 1000,
        weights@.len() <= VOCAB_LIMIT,
        forall|i: int| 0 <= i < weights@.len() ==> #[trigger] weights@[i] <= WEIGHT_LIMIT,
    ensures
        r matches Err(e) ==> e == Error::Sampling && final(rng).state_spec() == old(
            rng,
        ).state_spec(),
        (r matches Err(_)) <==> (weights@.len() == 0 || (forall|i: int|
            0 <= i < weights@.len() ==> #[trigger] weights@[i] == 0)),
        r matches Ok(ix) ==> {
            &&& nucleus_choice(weights@, p as int, old(rng).state_spec(), ix)
            &&& ix < weights@.len()
            &&& weights@[ix as int] > 0
            &&& final(rng).state_spec() == rng_advance(old(rng).state_spec())
        },
{
    proof {
        lemma_sorted_of_ensures(weights@);
        lemma_total_zero(weights@);
    }
    let mut cands: Vec<Cand> = make_candidates(weights);
    sort_candidates(&mut cands);
    let len: usize = cands.len();
    let total: u64 = weight_up_to(&cands, len);
    if total == 0 {
        return Err(Error::Sampling);
    }
    let k: usize = cut_index(&cands, total, p);
    let cum: u64 = weight_up_to(&cands, k);
    proof {
        assert((p as int) * (total as int) >= 1) by (nonlinear_arith)
            requires
                p >= 1,
                total >= 1,
        ;
        assert(cum > 0);
    }
    let draw: u64 = rng.next_below(cum);
    let j: usize = pick_in_prefix(&cands, k, draw);
    let ix: usize = cands[j].index;
    proof {
        assert(nucleus_witness(weights@, p as int, old(rng).state_spec(), k as int, j as int, ix));
        assert(weights@[ix as int] == cands@[j as int].weight);
        assert(prefix_weight(cands@, j as int) <= draw < prefix_weight(cands@, j as int + 1));
    }
    Ok(ix)
}

} // verus!
