//! The search for the frontrun input that earns the most.
//!
//! The range `[0, inventory]` is narrowed round by round. A round samples
//! sixteen equally spaced inputs, learns the revenue of each from the caller,
//! and keeps the stretch around the best one. The revenue is only assumed to
//! have a single peak; nothing here depends on it.
//!
//! [`SearchState`] holds the round-to-round state for callers that evaluate
//! revenues on their own schedule; [`find_optimal_input`] runs the whole
//! search over a revenue function.

use crate::uint::{from_nat, lemma_from_nat, lemma_view_injective, modulus, U256};
use vstd::prelude::*;

verus! {

/// The number of intervals a round cuts the range into.
pub const INTERVALS: u64 = 15;

/// The number of inputs a round samples: the ends of the intervals.
pub const SAMPLES: usize = 16;

/// The search stops once the range is narrower than the first midpoint
/// divided by this.
pub const TOLERANCE_BASE: u64 = 1_000_000;

/// After this many rounds in a row without any revenue the search gives up.
pub const MAX_ZERO_ROUNDS: u8 = 10;

/// The index of the sample below which a round without revenue cuts the range.
pub const SHRINK_INDEX: usize = 5;

/// The state of a search between two rounds, as numbers.
pub struct SearchModel {
    pub lower: nat,
    pub upper: nat,
    pub tolerance: nat,
    pub best: nat,
    pub zero_rounds: nat,
}

/// What a round leads to.
pub enum StepModel {
    Continue(SearchModel),
    Finished(nat),
}

/// Whether `k` is the position of the largest entry, the first one among equals.
pub open spec fn is_first_max(s: Seq<nat>, k: int) -> bool {
    &&& 0 <= k < s.len()
    &&& forall|j: int| 0 <= j < s.len() ==> s[j] <= s[k]
    &&& forall|j: int| 0 <= j < k ==> s[j] < s[k]
}

/// The position of the largest entry, the first one among equals.
pub open spec fn first_max(s: Seq<nat>) -> int {
    choose|k: int| is_first_max(s, k)
}

/// There is only one such position.
pub proof fn lemma_first_max_unique(s: Seq<nat>, k: int)
    requires
        is_first_max(s, k),
    ensures
        first_max(s) == k,
{
    let c = first_max(s);
    assert(is_first_max(s, c));
    if c < k {
        assert(s[c] < s[k]);
    } else if k < c {
        assert(s[k] < s[c]);
    }
}

/// The numbers that a sequence of 256-bit values stands for.
pub open spec fn values(v: Seq<U256>) -> Seq<nat> {
    Seq::new(v.len(), |i: int| v[i]@)
}

impl SearchModel {
    /// The state before the first round: the whole inventory, nothing found.
    pub open spec fn start(inventory: nat) -> SearchModel {
        SearchModel {
            lower: 0,
            upper: inventory,
            tolerance: (inventory / 2) / (TOLERANCE_BASE as nat),
            best: 0,
            zero_rounds: 0,
        }
    }

    /// Whether the range is empty or narrower than the tolerance.
    pub open spec fn terminated(self) -> bool {
        self.upper < self.lower || self.upper - self.lower < self.tolerance
    }

    /// The `i`-th of the sixteen samples: `lower + (upper - lower) · i / 15`.
    pub open spec fn point(self, i: int) -> nat {
        (self.lower + ((self.upper - self.lower) * i) / (INTERVALS as int)) as nat
    }

    pub open spec fn points(self) -> Seq<nat> {
        Seq::new(SAMPLES as nat, |i: int| self.point(i))
    }

    /// What remains to be searched; it goes down with every round.
    pub open spec fn remaining(self) -> nat {
        if self.upper >= self.lower {
            (self.upper - self.lower + 1) as nat
        } else {
            0
        }
    }

    /// The round's outcome when the best sample is the `k`-th.
    pub open spec fn advance_at(self, revenues: Seq<nat>, k: int) -> StepModel {
        if revenues[k] == 0 {
            if self.zero_rounds + 1 >= MAX_ZERO_ROUNDS {
                StepModel::Finished(0)
            } else if self.point(SHRINK_INDEX as int) == 0 {
                StepModel::Finished(self.best)
            } else {
                StepModel::Continue(
                    SearchModel {
                        lower: self.lower,
                        upper: (self.point(SHRINK_INDEX as int) - 1) as nat,
                        tolerance: self.tolerance,
                        best: self.best,
                        zero_rounds: self.zero_rounds + 1,
                    },
                )
            }
        } else {
            let best = self.point(k);
            let raise = k > 0;
            let cut = k < INTERVALS;
            if (raise && self.point(k - 1) + 1 >= modulus()) || (cut && self.point(k + 1) == 0) {
                StepModel::Finished(best)
            } else {
                StepModel::Continue(
                    SearchModel {
                        lower: if raise {
                            self.point(k - 1) + 1
                        } else {
                            self.lower
                        },
                        upper: if cut {
                            (self.point(k + 1) - 1) as nat
                        } else {
                            self.upper
                        },
                        tolerance: self.tolerance,
                        best: best,
                        zero_rounds: 0,
                    },
                )
            }
        }
    }

    /// The round's outcome for the revenues of the sixteen samples.
    ///
    /// Without any revenue the optimum is taken to be small: the range is cut
    /// below the sample a third of the way up, and on the tenth such round in
    /// a row the search ends with zero. Otherwise the range becomes the
    /// stretch between the neighbours of the best sample, which is
    /// remembered. Where a new bound cannot be formed, the search ends with
    /// the best sample seen.
    pub open spec fn advance(self, revenues: Seq<nat>) -> StepModel {
        self.advance_at(revenues, first_max(revenues))
    }
}

/// The state of a search between two rounds.
#[derive(Clone, Copy, Debug, PartialEq, Eq, Structural)]
pub struct SearchState {
    pub lower: U256,
    pub upper: U256,
    pub tolerance: U256,
    pub best: U256,
    pub zero_rounds: u8,
}

impl View for SearchState {
    type V = SearchModel;

    open spec fn view(&self) -> SearchModel {
        SearchModel {
            lower: self.lower@,
            upper: self.upper@,
            tolerance: self.tolerance@,
            best: self.best@,
            zero_rounds: self.zero_rounds as nat,
        }
    }
}

/// What a round leads to: another round, or the end with the input found.
#[derive(Clone, Copy, Debug, PartialEq, Eq, Structural)]
pub enum SearchStep {
    Continue(SearchState),
    Finished(U256),
}

impl View for SearchStep {
    type V = StepModel;

    open spec fn view(&self) -> StepModel {
        match self {
            SearchStep::Continue(s) => StepModel::Continue(s@),
            SearchStep::Finished(x) => StepModel::Finished(x@),
        }
    }
}


/// `(15·q + r) · i / 15` is `q · i` and the share of `r · i`.
proof fn lemma_point_offset(width: nat, q: nat, r: nat, i: nat)
    requires
        width == 15 * q + r,
        r < 15,
        i <= 15,
    ensures
        (width * i) / 15 == q * i + (r * i) / 15,
        (width * i) / 15 <= width,
        q * i <= width,
        r * i <= 210,
{
    let b = r * i;
    assert(width * i == 15 * (q * i) + b) by (nonlinear_arith)
        requires
            width == 15 * q + r,
            b == r * i,
    ;
    assert(b <= 210) by (nonlinear_arith)
        requires
            b == r * i,
            r < 15,
            i <= 15,
    ;
    assert(q * i <= q * 15) by (nonlinear_arith)
        requires
            i <= 15,
    ;
    assert(width * i <= 15 * width) by (nonlinear_arith)
        requires
            i <= 15,
    ;
    vstd::arithmetic::div_mod::lemma_div_is_ordered((width * i) as int, (15 * width) as int, 15);
    vstd::arithmetic::div_mod::lemma_div_multiples_vanish(width as int, 15);
    vstd::arithmetic::div_mod::lemma_fundamental_div_mod_converse(
        (width * i) as int,
        15,
        (q * i + b / 15) as int,
        (b % 15) as int,
    );
}

/// The samples run from the lower bound to the upper bound, in order.
pub proof fn lemma_points_ordered(s: SearchModel, i: int, j: int)
    requires
        s.lower <= s.upper,
        0 <= i <= j <= INTERVALS,
    ensures
        s.lower <= s.point(i) <= s.point(j) <= s.upper,
        s.point(0) == s.lower,
        s.point(INTERVALS as int) == s.upper,
{
    let w: int = s.upper - s.lower;
    assert(0 <= w * i <= w * j <= w * 15) by (nonlinear_arith)
        requires
            0 <= w,
            0 <= i <= j <= 15,
    ;
    vstd::arithmetic::div_mod::lemma_div_is_ordered(w * i, w * j, 15);
    vstd::arithmetic::div_mod::lemma_div_is_ordered(w * j, w * 15, 15);
    vstd::arithmetic::div_mod::lemma_div_is_ordered(0, w * i, 15);
    assert(w * 0 == 0) by (nonlinear_arith);
}

/// The samples are equally spaced, as far as whole numbers allow: from one
/// to the next it is a fifteenth of the width, rounded down or up.
pub proof fn lemma_points_equally_spaced(s: SearchModel, i: int)
    requires
        s.lower <= s.upper,
        0 <= i < INTERVALS,
    ensures
        s.point(i) + (s.upper - s.lower) / 15 <= s.point(i + 1),
        s.point(i + 1) <= s.point(i) + (s.upper - s.lower) / 15 + 1,
{
    let width = (s.upper - s.lower) as nat;
    let q = width / 15;
    let r = width % 15;
    vstd::arithmetic::div_mod::lemma_fundamental_div_mod(width as int, 15);
    lemma_point_offset(width, q, r, i as nat);
    lemma_point_offset(width, q, r, (i + 1) as nat);
    assert(q * (i + 1) == q * i + q) by (nonlinear_arith);
    assert(r * (i + 1) == r * i + r) by (nonlinear_arith);
}

impl SearchState {
    /// The state before the first round of a search over `[0, weth_inventory]`.
    pub fn new(weth_inventory: U256) -> (state: SearchState)
        ensures
            state@ == SearchModel::start(weth_inventory@),
    {
        let midpoint = weth_inventory.div_rem(&U256::from_u64(2)).0;
        let tolerance = midpoint.div_rem(&U256::from_u64(TOLERANCE_BASE)).0;
        SearchState {
            lower: U256::zero(),
            upper: weth_inventory,
            tolerance,
            best: U256::zero(),
            zero_rounds: 0,
        }
    }

    /// Whether the search is over before another round: the range is empty
    /// or narrower than the tolerance.
    pub fn is_finished(&self) -> (done: bool)
        ensures
            done == self@.terminated(),
    {
        match self.upper.checked_sub(&self.lower) {
            None => true,
            Some(width) => width.lt(&self.tolerance),
        }
    }

    /// The sixteen inputs whose revenue the next round needs.
    pub fn sample_points(&self) -> (points: Vec<U256>)
        requires
            self@.lower <= self@.upper,
        ensures
            points.len() == SAMPLES,
            values(points@) == self@.points(),
    {
        let width = self.upper.saturating_sub(&self.lower);
        let (step, spare) = width.div_rem(&U256::from_u64(INTERVALS));
        let mut points: Vec<U256> = Vec::new();
        let mut i: u64 = 0;
        proof {
            lemma_view_injective(spare, U256 { w0: spare.w0, w1: 0, w2: 0, w3: 0 });
            lemma_view_injective(self.upper, self.upper);
            vstd::arithmetic::div_mod::lemma_fundamental_div_mod(width@ as int, 15);
        }
        while i <= 15
            invariant
                i <= 16,
                points.len() == i,
                self@.lower <= self@.upper,
                width@ == self@.upper - self@.lower,
                self@.upper < modulus(),
                width@ == 15 * step@ + spare@,
                spare@ < 15,
                spare@ == spare.w0,
                forall|j: int| 0 <= j < i ==> points[j]@ == self@.point(j),
            decreases 16 - i,
        {
            proof {
                lemma_point_offset(width@, step@, spare@, i as nat);
                vstd::arithmetic::div_mod::lemma_small_mod(step@ * i as nat, modulus());
            }
            let whole = step.overflowing_mul(&U256::from_u64(i)).0;
            let part: u64 = (spare.w0 * i) / 15;
            let offset = whole.overflowing_add(&U256::from_u64(part)).0;
            proof {
                vstd::arithmetic::div_mod::lemma_small_mod(whole@ + part as nat, modulus());
                vstd::arithmetic::div_mod::lemma_small_mod(self@.lower + offset@, modulus());
            }
            let point = self.lower.overflowing_add(&offset).0;
            points.push(point);
            i = i + 1;
        }
        proof {
            assert(values(points@) =~= self@.points());
        }
        points
    }

    /// Narrows the range on the revenues of the sixteen samples, in the
    /// order of `sample_points`.
    pub fn advance(&self, revenues: &Vec<U256>) -> (step: SearchStep)
        requires
            self@.lower <= self@.upper,
            revenues.len() == SAMPLES,
        ensures
            step@ == self@.advance(values(revenues@)),
    {
        let points = self.sample_points();
        let k = position_of_first_max(revenues);
        proof {
            lemma_first_max_unique(values(revenues@), k as int);
            assert(forall|j: int| 0 <= j < 16 ==> values(points@)[j] == #[trigger] self@.point(j));
            assert(values(revenues@)[k as int] == revenues[k as int]@);
        }
        if revenues[k].is_zero() {
            if self.zero_rounds >= MAX_ZERO_ROUNDS - 1 {
                return SearchStep::Finished(U256::zero());
            }
            match points[SHRINK_INDEX].checked_sub(&U256::one()) {
                None => SearchStep::Finished(self.best),
                Some(upper) => SearchStep::Continue(
                    SearchState {
                        lower: self.lower,
                        upper,
                        tolerance: self.tolerance,
                        best: self.best,
                        zero_rounds: self.zero_rounds + 1,
                    },
                ),
            }
        } else {
            let best = points[k];
            let lower = if k > 0 {
                match points[k - 1].checked_add(&U256::one()) {
                    None => {
                        return SearchStep::Finished(best);
                    },
                    Some(bound) => bound,
                }
            } else {
                self.lower
            };
            let upper = if k < SAMPLES - 1 {
                match points[k + 1].checked_sub(&U256::one()) {
                    None => {
                        return SearchStep::Finished(best);
                    },
                    Some(bound) => bound,
                }
            } else {
                self.upper
            };
            SearchStep::Continue(
                SearchState { lower, upper, tolerance: self.tolerance, best, zero_rounds: 0 },
            )
        }
    }
}

/// The position of the largest revenue, the first one among equals.
fn position_of_first_max(revenues: &Vec<U256>) -> (k: usize)
    requires
        revenues.len() > 0,
    ensures
        is_first_max(values(revenues@), k as int),
{
    let mut k: usize = 0;
    let mut i: usize = 1;
    while i < revenues.len()
        invariant
            0 <= k < i <= revenues.len(),
            forall|j: int| 0 <= j < i ==> revenues[j]@ <= revenues[k as int]@,
            forall|j: int| 0 <= j < k ==> revenues[j]@ < revenues[k as int]@,
        decreases revenues.len() - i,
    {
        if revenues[k].lt(&revenues[i]) {
            k = i;
        }
        i = i + 1;
    }
    k
}


/// Every non-empty sequence has a largest entry that comes first among equals.
pub proof fn lemma_first_max_exists(s: Seq<nat>)
    requires
        s.len() > 0,
    ensures
        is_first_max(s, first_max(s)),
    decreases s.len(),
{
    if s.len() == 1 {
        assert(is_first_max(s, 0));
    } else {
        let head = s.drop_last();
        lemma_first_max_exists(head);
        let k = first_max(head);
        assert(forall|j: int| 0 <= j < head.len() ==> head[j] == s[j]);
        if s.last() > s[k] {
            assert(is_first_max(s, s.len() - 1));
        } else {
            assert(is_first_max(s, k));
        }
    }
}

/// A round that leads to another one narrows the range: the lower bound
/// does not fall, the upper bound does not rise, and the width goes down.
/// The tolerance stays, the count of rounds without revenue stays below
/// ten, and the best input lies in the range that was sampled.
pub proof fn lemma_round_narrows(s: SearchModel, revenues: Seq<nat>)
    requires
        s.lower <= s.upper,
        revenues.len() == SAMPLES,
    ensures
        match s.advance(revenues) {
            StepModel::Continue(n) => {
                &&& s.lower <= n.lower
                &&& n.upper <= s.upper
                &&& n.upper - n.lower < s.upper - s.lower
                &&& n.remaining() < s.remaining()
                &&& n.tolerance == s.tolerance
                &&& n.zero_rounds < MAX_ZERO_ROUNDS
                &&& (n.best == s.best || s.lower <= n.best <= s.upper)
            },
            StepModel::Finished(x) => x == 0 || x == s.best || s.lower <= x <= s.upper,
        },
{
    lemma_first_max_exists(revenues);
    let k = first_max(revenues);
    lemma_points_ordered(s, 0, k);
    lemma_points_ordered(s, k, 15);
    lemma_points_ordered(s, 5, 15);
    if k > 0 {
        lemma_points_ordered(s, k - 1, k);
    }
    if k < 15 {
        lemma_points_ordered(s, k, k + 1);
    }
}

/// A round in which no sample earns anything leaves the best input as it
/// was; the tenth such round in a row ends the search with zero.
pub proof fn lemma_round_without_revenue(s: SearchModel, revenues: Seq<nat>)
    requires
        s.lower <= s.upper,
        revenues.len() == SAMPLES,
        forall|i: int| 0 <= i < revenues.len() ==> revenues[i] == 0,
    ensures
        match s.advance(revenues) {
            StepModel::Continue(n) => {
                &&& n.best == s.best
                &&& n.lower == s.lower
                &&& n.zero_rounds == s.zero_rounds + 1
            },
            StepModel::Finished(x) => x == 0 || x == s.best,
        },
        s.zero_rounds + 1 >= MAX_ZERO_ROUNDS ==> s.advance(revenues) == StepModel::Finished(0),
{
    lemma_first_max_exists(revenues);
}

/// With nothing to spend the search is over within its first round, and
/// the answer is zero whatever the revenues are.
pub proof fn lemma_empty_inventory(revenues: Seq<nat>)
    requires
        revenues.len() == SAMPLES,
    ensures
        !SearchModel::start(0).terminated(),
        match SearchModel::start(0).advance(revenues) {
            StepModel::Continue(n) => n.terminated() && n.best == 0,
            StepModel::Finished(x) => x == 0,
        },
{
    let s = SearchModel::start(0);
    lemma_first_max_exists(revenues);
    let k = first_max(revenues);
    assert forall|i: int| 0 <= i <= 15 implies s.point(i) == 0 by {
        lemma_points_ordered(s, i, 15);
    }
    assert(s.point(SHRINK_INDEX as int) == 0);
    assert(s.point(k) == 0);
    if k > 0 {
        assert(s.point(k - 1) == 0);
    }
    if k < 15 {
        assert(s.point(k + 1) == 0);
    }
}

/// The revenue of each input, in order.
fn evaluate_all<F: Fn(U256) -> U256>(points: &Vec<U256>, evaluate: &F) -> (revenues: Vec<U256>)
    requires
        forall|i: int| 0 <= i < points.len() ==> call_requires(evaluate, (points[i],)),
    ensures
        revenues.len() == points.len(),
        forall|i: int|
            0 <= i < points.len() ==> call_ensures(evaluate, (points[i],), #[trigger] revenues[i]),
{
    let mut revenues: Vec<U256> = Vec::new();
    let mut i: usize = 0;
    while i < points.len()
        invariant
            i <= points.len(),
            revenues.len() == i,
            forall|j: int| 0 <= j < points.len() ==> call_requires(evaluate, (points[j],)),
            forall|j: int| 0 <= j < i ==> call_ensures(evaluate, (points[j],), #[trigger] revenues[j]),
        decreases points.len() - i,
    {
        revenues.push(evaluate(points[i]));
        i = i + 1;
    }
    revenues
}

/// Whether `revenues` are answers that `evaluate` may give at the sixteen
/// samples of `s`, in their order.
pub open spec fn may_answer<F: Fn(U256) -> U256>(
    evaluate: F,
    s: SearchModel,
    revenues: Seq<U256>,
) -> bool {
    &&& revenues.len() == SAMPLES
    &&& forall|i: int|
        0 <= i < SAMPLES ==> call_ensures(evaluate, (from_nat(s.point(i)),), #[trigger] revenues[i])
}

/// Whether a search that stands at `s` can end with `optimal` after at most
/// `rounds` more rounds, each on revenues that `evaluate` may answer.
pub open spec fn search_ends<F: Fn(U256) -> U256>(
    evaluate: F,
    s: SearchModel,
    rounds: nat,
    optimal: nat,
) -> bool
    decreases rounds,
{
    if s.terminated() {
        optimal == s.best
    } else if rounds == 0 {
        false
    } else {
        exists|revenues: Seq<U256>| #[trigger]
            may_answer(evaluate, s, revenues) && match s.advance(values(revenues)) {
                StepModel::Finished(x) => optimal == x,
                StepModel::Continue(n) => search_ends(evaluate, n, (rounds - 1) as nat, optimal),
            }
    }
}

/// Searches `[0, weth_inventory]` for the input with the highest revenue
/// and returns the best sample seen, or zero where ten rounds in a row
/// earned nothing.
///
/// The result is what the rounds lead to, from the whole inventory on, on
/// the revenues that `evaluate` answered at the samples. Whatever it
/// answers, the search ends and the result is within the inventory. If
/// `evaluate` never reports any revenue, the result is zero.
pub fn find_optimal_input<F: Fn(U256) -> U256>(weth_inventory: U256, evaluate: F) -> (optimal: U256)
    requires
        forall|x: U256| x@ <= weth_inventory@ ==> call_requires(evaluate, (x,)),
    ensures
        exists|rounds: nat|
            search_ends(evaluate, SearchModel::start(weth_inventory@), rounds, optimal@),
        optimal@ <= weth_inventory@,
        (forall|x: U256, r: U256| call_ensures(evaluate, (x,), r) ==> r@ == 0) ==> optimal@ == 0,
{
    let mut state = SearchState::new(weth_inventory);
    let ghost start = SearchModel::start(weth_inventory@);
    let ghost mut done: nat = 0;
    loop
        invariant
            start == SearchModel::start(weth_inventory@),
            state@.upper <= weth_inventory@,
            state@.best <= weth_inventory@,
            forall|x: U256| x@ <= weth_inventory@ ==> call_requires(evaluate, (x,)),
            (forall|x: U256, r: U256| call_ensures(evaluate, (x,), r) ==> r@ == 0) ==> state@.best
                == 0,
            forall|k: nat, x: nat| #[trigger]
                search_ends(evaluate, state@, k, x) ==> search_ends(evaluate, start, done + k, x),
        decreases state@.remaining(),
    {
        if state.is_finished() {
            proof {
                assert(search_ends(evaluate, state@, 0, state@.best));
            }
            return state.best;
        }
        let points = state.sample_points();
        proof {
            assert forall|i: int| 0 <= i < points.len() implies call_requires(
                evaluate,
                (points[i],),
            ) by {
                assert(values(points@)[i] == state@.point(i));
                lemma_points_ordered(state@, i, 15);
            }
        }
        let revenues = evaluate_all(&points, &evaluate);
        proof {
            lemma_round_narrows(state@, values(revenues@));
            if forall|x: U256, r: U256| call_ensures(evaluate, (x,), r) ==> r@ == 0 {
                assert forall|i: int| 0 <= i < 16 implies values(revenues@)[i] == 0 by {
                    assert(call_ensures(evaluate, (points[i],), revenues[i]));
                }
                lemma_round_without_revenue(state@, values(revenues@));
            }
            assert(may_answer(evaluate, state@, revenues@)) by {
                assert forall|i: int| 0 <= i < SAMPLES implies call_ensures(
                    evaluate,
                    (from_nat(state@.point(i)),),
                    #[trigger] revenues@[i],
                ) by {
                    assert(values(points@)[i] == state@.point(i));
                    lemma_from_nat(points[i]);
                }
            }
        }
        let ghost before = state@;
        match state.advance(&revenues) {
            SearchStep::Finished(optimal) => {
                proof {
                    assert(search_ends(evaluate, before, 1, optimal@));
                }
                return optimal;
            },
            SearchStep::Continue(next) => {
                proof {
                    assert forall|k: nat, x: nat| #[trigger]
                        search_ends(evaluate, next@, k, x) implies search_ends(
                        evaluate,
                        start,
                        done + 1 + k,
                        x,
                    ) by {
                        assert(search_ends(evaluate, before, k + 1, x));
                    }
                    done = done + 1;
                }
                state = next;
            },
        }
    }
}

} // verus!
