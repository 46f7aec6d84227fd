use vstd::prelude::*;
use rand::rngs::StdRng;
use rand::Rng;

verus! {

#[verifier::external_type_specification]
#[verifier::external_body]
pub struct ExStdRng(StdRng);

/// The sum of the first `i` weights of `w`.
pub open spec fn prefix_sum(w: Seq<u64>, i: int) -> int
    decreases i,
{
    if i <= 0 {
        0
    } else {
        prefix_sum(w, i - 1) + w[i - 1]
    }
}

/// The sum of all weights of `w`.
pub open spec fn weight_total(w: Seq<u64>) -> int {
    prefix_sum(w, w.len() as int)
}

/// Candidate `i` owns the half-open interval `[prefix_sum(w, i), prefix_sum(w, i + 1))`
/// and is selected by a draw that falls in it.
pub open spec fn selects(w: Seq<u64>, i: int, draw: int) -> bool {
    0 <= i < w.len() && prefix_sum(w, i) <= draw < prefix_sum(w, i + 1)
}

/// The candidate that `draw` selects, when there is one.
pub open spec fn picked_index(w: Seq<u64>, draw: int) -> int {
    choose|i: int| selects(w, i, draw)
}

pub proof fn lemma_prefix_sum_monotone(w: Seq<u64>, i: int, j: int)
    requires
        0 <= i <= j <= w.len(),
    ensures
        prefix_sum(w, i) <= prefix_sum(w, j),
    decreases j - i,
{
    if i < j {
        lemma_prefix_sum_monotone(w, i, j - 1);
    }
}

pub proof fn lemma_prefix_sum_bound(w: Seq<u64>, i: int)
    requires
        0 <= i <= w.len(),
    ensures
        0 <= prefix_sum(w, i) <= i * 0xffff_ffff_ffff_ffff,
    decreases i,
{
    if i > 0 {
        lemma_prefix_sum_bound(w, i - 1);
    }
}

/// A draw in `[0, W)`, where `W` is the total of the weights, selects exactly
/// one candidate; a draw outside it selects none.
pub proof fn lemma_draw_selects_exactly_one(w: Seq<u64>, draw: int)
    ensures
        (exists|i: int| selects(w, i, draw)) <==> 0 <= draw < weight_total(w),
        forall|i: int, j: int| selects(w, i, draw) && selects(w, j, draw) ==> i == j,
        0 <= draw < weight_total(w) ==> selects(w, picked_index(w, draw), draw),
{
    assert forall|i: int, j: int| selects(w, i, draw) && selects(w, j, draw) implies i == j by {
        if i < j {
            lemma_prefix_sum_monotone(w, i + 1, j);
        } else if j < i {
            lemma_prefix_sum_monotone(w, j + 1, i);
        }
    }
    if exists|i: int| selects(w, i, draw) {
        let i = choose|i: int| selects(w, i, draw);
        lemma_prefix_sum_monotone(w, 0, i);
        lemma_prefix_sum_monotone(w, i + 1, w.len() as int);
    }
    if 0 <= draw < weight_total(w) {
        lemma_find_selected(w, draw, w.len() as int);
    }
}

proof fn lemma_find_selected(w: Seq<u64>, draw: int, n: int)
    requires
        0 <= n <= w.len(),
        0 <= draw < prefix_sum(w, n),
    ensures
        exists|i: int| selects(w, i, draw),
    decreases n,
{
    if draw >= prefix_sum(w, n - 1) {
        assert(selects(w, n - 1, draw));
    } else {
        lemma_find_selected(w, draw, n - 1);
    }
}

/// The candidate whose interval holds `draw`, scanning the weights in order;
/// `None` when the draw lies outside `[0, W)`.
pub fn select(weights: &Vec<u64>, draw: u128) -> (r: Option<usize>)
    ensures
        r is Some <==> draw < weight_total(weights@),
        r matches Some(i) ==> selects(weights@, i as int, draw as int) && i == picked_index(
            weights@,
            draw as int,
        ),
{
    let mut running: u128 = 0;
    let mut i: usize = 0;
    while i < weights.len()
        invariant
            0 <= i <= weights@.len(),
            running == prefix_sum(weights@, i as int),
            draw >= running,
        decreases weights@.len() - i,
    {
        proof {
            lemma_prefix_sum_bound(weights@, i as int);
            assert(running + weights@[i as int] <= (i + 1) * 0xffff_ffff_ffff_ffffu64) by (
            nonlinear_arith)
                requires
                    running <= i * 0xffff_ffff_ffff_ffffu64,
                    weights@[i as int] <= 0xffff_ffff_ffff_ffffu64,
            ;
            assert((i + 1) * 0xffff_ffff_ffff_ffffu64 <= 0xffff_ffff_ffff_ffff_ffff_ffff_ffff_ffffu128)
                by (nonlinear_arith)
                requires
                    i < 0x1_0000_0000_0000_0000int,
            ;
        }
        let next = running + weights[i] as u128;
        if draw < next {
            proof {
                assert(selects(weights@, i as int, draw as int));
                lemma_draw_selects_exactly_one(weights@, draw as int);
                lemma_prefix_sum_monotone(weights@, i as int + 1, weights@.len() as int);
            }
            return Some(i);
        }
        running = next;
        i = i + 1;
    }
    proof {
        lemma_draw_selects_exactly_one(weights@, draw as int);
    }
    None
}

/// Relies on rand's `Rng::gen_range(0, bound)`: a uniform value in
/// `[0, bound)`; it panics only when the range is empty.
#[verifier::external_body]
pub(crate) fn draw_below(rng: &mut StdRng, bound: u128) -> (r: u128)
    requires
        bound > 0,
    ensures
        r < bound,
{
    rng.gen_range(0, bound)
}

} // verus!
