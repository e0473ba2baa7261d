use vstd::prelude::*;
use vstd::set_lib::*;
use crate::environment::{
    Environment, ENVIRONMENT_COUNT, environment_at, index_of, count_of, count_environments,
    lemma_index_round_trip,
};
use crate::grid::{HexMap, visited_before, wrap_prev, wrap_next};
use crate::random::RandomSource;

verus! {

/// Weighted random generation: every cell is drawn independently from fixed weights, then
/// smoothing passes perturb cells or pull them toward the majority of their neighbors.
#[derive(Clone, Copy)]
pub struct RandomGenerator {
    /// Sum of the base chances of all environments, computed once at construction.
    pub total_base_chance: u32,
}

/// Weight with which `e` is drawn when the map is populated.
pub open spec fn base_chance(e: Environment) -> nat {
    match e {
        Environment::AQUATIC => 14,
        Environment::DESERT => 4,
        Environment::FOREST => 12,
        Environment::MOUNTAIN => 6,
        Environment::PLAINS => 8,
        _ => 0,
    }
}

/// Weight with which a cell holding `current` turns into `target` when it is transformed.
pub open spec fn transform_chance(target: Environment, current: Environment) -> nat {
    match target {
        Environment::ARCTIC => if current == Environment::AQUATIC { 5 } else { 0 },
        Environment::DESERT => if current == Environment::PLAINS { 5 } else { 0 },
        Environment::SWAMP => if current == Environment::FOREST || current == Environment::PLAINS { 5 } else { 0 },
        Environment::AERIAL => if current == Environment::MOUNTAIN { 3 } else { 0 },
        Environment::GLACIER => if current == Environment::ARCTIC { 40 } else { 0 },
        Environment::VOLCANIC => if current == Environment::MOUNTAIN { 10 } else { 0 },
        _ => 0,
    }
}

/// The base chances in declaration order of the environments.
pub open spec fn base_weights() -> Seq<u32> {
    Seq::new(ENVIRONMENT_COUNT as nat, |i: int| base_chance(environment_at(i)) as u32)
}

/// The transform chances out of `current`, in declaration order of the targets.
pub open spec fn transform_weights(current: Environment) -> Seq<u32> {
    Seq::new(ENVIRONMENT_COUNT as nat, |i: int| transform_chance(environment_at(i), current) as u32)
}

/// Sum of the first `k` weights.
pub open spec fn prefix_sum(w: Seq<u32>, k: int) -> int
    decreases k,
{
    if k <= 0 || k > w.len() {
        0
    } else {
        prefix_sum(w, k - 1) + w[k - 1]
    }
}

pub open spec fn total_weight(w: Seq<u32>) -> int {
    prefix_sum(w, w.len() as int)
}

/// Roulette-wheel selection: draw `n` selects entry `i`, the first whose running total exceeds
/// `n`.
pub open spec fn selects(w: Seq<u32>, n: int, i: int) -> bool {
    0 <= i < w.len() && prefix_sum(w, i) <= n < prefix_sum(w, i + 1)
}

/// How often `e` occurs in `s`.
pub open spec fn occurrences(s: Seq<Environment>, e: Environment) -> nat {
    count_of(s, seq![e])
}

/// A transform of a cell holding `cur` may give `r`: the cell is kept when nothing can come out
/// of it, otherwise `r` has a positive transform chance out of `cur`.
pub open spec fn transform_allowed(cur: Environment, r: Environment) -> bool {
    if total_weight(transform_weights(cur)) == 0 {
        r == cur
    } else {
        transform_chance(r, cur) > 0
    }
}

/// `r` is the first of the most frequent entries of `s`.
pub open spec fn first_majority(s: Seq<Environment>, r: Environment) -> bool {
    exists|i: int|
        0 <= i < s.len() && s[i] == r
            && (forall|j: int| 0 <= j < s.len() ==> occurrences(s, #[trigger] s[j]) <= occurrences(s, s[i]))
            && (forall|k: int| 0 <= k < i ==> occurrences(s, #[trigger] s[k]) < occurrences(s, s[i]))
}

/// A possible smoothing result for a cell holding `cur` whose neighbors held `neighbors` when it
/// was smoothed: kept, transformed, or the first majority of the neighbors.
pub open spec fn smoothed_cell(cur: Environment, neighbors: Seq<Environment>, r: Environment) -> bool {
    r == cur || transform_allowed(cur, r) || first_majority(neighbors, r)
}

/// Cell `(i, j)` at the moment cell `(x, y)` is smoothed, in a pass from `start` to `end`.
pub open spec fn mid_pass_env(start: HexMap, end: HexMap, x: int, y: int, i: int, j: int) -> Environment {
    if visited_before(i, j, x, y) {
        end.env(i, j)
    } else {
        start.env(i, j)
    }
}

/// The eight toroidal neighbors of `(x, y)` as they stood when `(x, y)` was smoothed.
pub open spec fn mid_pass_neighbors(start: HexMap, end: HexMap, x: int, y: int) -> Seq<Environment> {
    let (w, h) = (start.width(), start.height());
    let (l, r) = (wrap_prev(x, w), wrap_next(x, w));
    let (a, b) = (wrap_prev(y, h), wrap_next(y, h));
    seq![
        mid_pass_env(start, end, x, y, l, a), mid_pass_env(start, end, x, y, x, a),
        mid_pass_env(start, end, x, y, r, a), mid_pass_env(start, end, x, y, l, y),
        mid_pass_env(start, end, x, y, r, y), mid_pass_env(start, end, x, y, l, b),
        mid_pass_env(start, end, x, y, x, b), mid_pass_env(start, end, x, y, r, b),
    ]
}

/// `end` is a possible result of one smoothing pass over `start`: every cell was smoothed in
/// row-major order against neighbors that earlier cells of the pass had already changed.
pub open spec fn smoothing_pass(start: HexMap, end: HexMap) -> bool {
    forall|x: int, y: int|
        0 <= y < start.height() && 0 <= x < start.width() ==> smoothed_cell(
            #[trigger] start.env(x, y),
            mid_pass_neighbors(start, end, x, y),
            end.env(x, y),
        )
}

/// The neighbors seen by cell `(x, y)` depend only on the cells visited before it.
proof fn lemma_mid_pass_frame(start: HexMap, c1: HexMap, c2: HexMap, x: int, y: int)
    requires
        start.wf(),
        0 <= x < start.width(),
        0 <= y < start.height(),
        forall|i: int, j: int|
            0 <= j < start.height() && 0 <= i < start.width() && visited_before(i, j, x, y)
                ==> #[trigger] c1.env(i, j) == c2.env(i, j),
    ensures
        mid_pass_neighbors(start, c1, x, y) == mid_pass_neighbors(start, c2, x, y),
{
    let (w, h) = (start.width(), start.height());
    let (l, r) = (wrap_prev(x, w), wrap_next(x, w));
    let (a, b) = (wrap_prev(y, h), wrap_next(y, h));
    assert(c1.env(l, a) == c2.env(l, a) || !visited_before(l, a, x, y));
    assert(c1.env(x, a) == c2.env(x, a) || !visited_before(x, a, x, y));
    assert(c1.env(r, a) == c2.env(r, a) || !visited_before(r, a, x, y));
    assert(c1.env(l, y) == c2.env(l, y) || !visited_before(l, y, x, y));
    assert(c1.env(r, y) == c2.env(r, y) || !visited_before(r, y, x, y));
    assert(c1.env(l, b) == c2.env(l, b) || !visited_before(l, b, x, y));
    assert(c1.env(x, b) == c2.env(x, b) || !visited_before(x, b, x, y));
    assert(c1.env(r, b) == c2.env(r, b) || !visited_before(r, b, x, y));
    assert(mid_pass_neighbors(start, c1, x, y) =~= mid_pass_neighbors(start, c2, x, y));
}

/// Row-major pass invariant at cell `(x, y)`: unvisited cells still hold their start value and
/// visited ones hold a possible smoothing result.
pub open spec fn pass_progress(start: HexMap, cur: HexMap, x: int, y: int) -> bool {
    &&& forall|i: int, j: int|
        0 <= j < start.height() && 0 <= i < start.width() && !visited_before(i, j, x, y)
            ==> #[trigger] cur.env(i, j) == start.env(i, j)
    &&& forall|i: int, j: int|
        0 <= j < start.height() && 0 <= i < start.width() && visited_before(i, j, x, y) ==> smoothed_cell(
            #[trigger] start.env(i, j),
            mid_pass_neighbors(start, cur, i, j),
            cur.env(i, j),
        )
}

/// The end of a row is the start of the next one.
proof fn lemma_pass_next_row(start: HexMap, cur: HexMap, y: int)
    requires
        pass_progress(start, cur, start.width(), y),
    ensures
        pass_progress(start, cur, 0, y + 1),
{
    let (w, h) = (start.width(), start.height());
    assert forall|i: int, j: int| 0 <= j < h && 0 <= i < w implies #[trigger] visited_before(i, j, w, y)
        == visited_before(i, j, 0, y + 1) by {}
    assert forall|i: int, j: int|
        0 <= j < h && 0 <= i < w && !visited_before(i, j, 0, y + 1) implies #[trigger] cur.env(i, j) == start.env(i, j) by {
        assert(visited_before(i, j, w, y) == visited_before(i, j, 0, y + 1));
    }
    assert forall|i: int, j: int|
        0 <= j < h && 0 <= i < w && visited_before(i, j, 0, y + 1) implies smoothed_cell(
            #[trigger] start.env(i, j),
            mid_pass_neighbors(start, cur, i, j),
            cur.env(i, j),
        ) by {
        assert(visited_before(i, j, w, y) == visited_before(i, j, 0, y + 1));
    }
}

/// Once every row is visited the pass is complete.
proof fn lemma_pass_done(start: HexMap, cur: HexMap)
    requires
        pass_progress(start, cur, 0, start.height()),
    ensures
        smoothing_pass(start, cur),
{
    assert forall|x: int, y: int| 0 <= y < start.height() && 0 <= x < start.width() implies smoothed_cell(
        #[trigger] start.env(x, y),
        mid_pass_neighbors(start, cur, x, y),
        cur.env(x, y),
    ) by {
        assert(visited_before(x, y, 0, start.height()));
    }
}

/// Smoothing cell `(x, y)` extends the pass by one cell.
proof fn lemma_pass_step(start: HexMap, before: HexMap, after: HexMap, x: int, y: int, r: Environment)
    requires
        start.wf(),
        before.wf(),
        start.same_shape(&before),
        0 <= x < start.width(),
        0 <= y < start.height(),
        pass_progress(start, before, x, y),
        before.updated(&after, x, y, r),
        smoothed_cell(before.env(x, y), before.toroidal_neighbors_spec(x, y), r),
    ensures
        pass_progress(start, after, x + 1, y),
{
    let (w, h) = (start.width(), start.height());
    assert(before.toroidal_neighbors_spec(x, y) =~= mid_pass_neighbors(start, before, x, y));
    assert forall|i: int, j: int|
        0 <= j < h && 0 <= i < w && visited_before(i, j, x, y) implies #[trigger] before.env(i, j) == after.env(i, j) by {
        assert(!(i == x && j == y));
    }
    lemma_mid_pass_frame(start, before, after, x, y);
    assert forall|i: int, j: int|
        0 <= j < h && 0 <= i < w && visited_before(i, j, x + 1, y) implies smoothed_cell(
            #[trigger] start.env(i, j),
            mid_pass_neighbors(start, after, i, j),
            after.env(i, j),
        ) by {
        if !(i == x && j == y) {
            assert(after.env(i, j) == before.env(i, j));
            assert forall|k: int, l: int|
                0 <= l < h && 0 <= k < w && visited_before(k, l, i, j) implies #[trigger] before.env(k, l) == after.env(k, l) by {
                assert(!(k == x && l == y));
            }
            lemma_mid_pass_frame(start, before, after, i, j);
        }
    }
    assert forall|i: int, j: int|
        0 <= j < h && 0 <= i < w && !visited_before(i, j, x + 1, y) implies #[trigger] after.env(i, j) == start.env(i, j) by {
        assert(after.env(i, j) == before.env(i, j));
    }
}

pub proof fn lemma_prefix_monotone(w: Seq<u32>, i: int, j: int)
    requires
        0 <= i <= j <= w.len(),
    ensures
        prefix_sum(w, i) <= prefix_sum(w, j),
    decreases j - i,
{
    if i < j {
        lemma_prefix_monotone(w, i, j - 1);
    }
}

/// Of the draws below the total weight, exactly `w[i]` select entry `i`: with a uniform draw
/// entry `i` comes with probability `w[i] / total_weight(w)`.
pub proof fn lemma_selection_share(w: Seq<u32>, i: int)
    requires
        0 <= i < w.len(),
    ensures
        Set::new(|n: int| 0 <= n < total_weight(w) && selects(w, n, i)) == set_int_range(
            prefix_sum(w, i),
            prefix_sum(w, i) + w[i],
        ),
        Set::new(|n: int| 0 <= n < total_weight(w) && selects(w, n, i)).len() == w[i],
{
    lemma_prefix_monotone(w, i + 1, w.len() as int);
    lemma_prefix_monotone(w, 0, i);
    let s = Set::new(|n: int| 0 <= n < total_weight(w) && selects(w, n, i));
    let r = set_int_range(prefix_sum(w, i), prefix_sum(w, i) + w[i]);
    assert(s =~= r);
    lemma_int_range(prefix_sum(w, i), prefix_sum(w, i) + w[i]);
}

/// Weights of at most `bound` each sum to at most `bound` per entry.
pub proof fn lemma_prefix_bounded(w: Seq<u32>, k: int, bound: int)
    requires
        0 <= k <= w.len(),
        forall|i: int| 0 <= i < w.len() ==> #[trigger] w[i] <= bound,
    ensures
        prefix_sum(w, k) <= bound * k,
    decreases k,
{
    if k > 0 {
        lemma_prefix_bounded(w, k - 1, bound);
        assert(w[k - 1] <= bound);
        assert(bound * k == bound * (k - 1) + bound) by (nonlinear_arith);
    } else {
        assert(bound * k == 0) by (nonlinear_arith)
            requires
                k == 0,
        ;
    }
}

/// The base chances and the transform chances out of any environment sum to a `u32`.
pub proof fn lemma_weight_totals_fit(current: Environment)
    ensures
        total_weight(base_weights()) <= u32::MAX,
        total_weight(transform_weights(current)) <= u32::MAX,
{
    assert forall|i: int| 0 <= i < base_weights().len() implies #[trigger] base_weights()[i] <= 100 by {}
    assert forall|i: int| 0 <= i < transform_weights(current).len() implies #[trigger] transform_weights(current)[i]
        <= 100 by {}
    lemma_prefix_bounded(base_weights(), ENVIRONMENT_COUNT as int, 100);
    lemma_prefix_bounded(transform_weights(current), ENVIRONMENT_COUNT as int, 100);
}

/// A draw selects at most one entry.
pub proof fn lemma_selects_unique(w: Seq<u32>, n: int, i: int, j: int)
    requires
        selects(w, n, i),
        selects(w, n, j),
    ensures
        i == j,
{
    if i < j {
        lemma_prefix_monotone(w, i + 1, j);
    } else if j < i {
        lemma_prefix_monotone(w, j + 1, i);
    }
}

/// With the base weights every draw gives a single environment, and of the draws below the
/// total exactly `base_chance(e)` give `e`: a uniform draw yields `e` with probability
/// `base_chance(e)` over the total of the base chances.
pub proof fn lemma_base_share(e: Environment)
    ensures
        Set::new(
            |n: int| 0 <= n < total_weight(base_weights()) && selects(base_weights(), n, index_of(e)),
        ).len() == base_chance(e),
        forall|n: int, f: Environment|
            selects(base_weights(), n, index_of(e)) && #[trigger] selects(base_weights(), n, index_of(f)) ==> e == f,
{
    lemma_index_round_trip(e);
    lemma_selection_share(base_weights(), index_of(e));
    assert forall|n: int, f: Environment|
        selects(base_weights(), n, index_of(e)) && #[trigger] selects(base_weights(), n, index_of(f)) implies e == f by {
        lemma_selects_unique(base_weights(), n, index_of(e), index_of(f));
        lemma_index_round_trip(f);
    }
}

/// A cell filled from draw `draw` (see `RandomGenerator::populate_with`) holds `e` exactly when
/// the draw is one of the `base_chance(e)` draws below the total that select `e`; so over
/// uniform draws each cell holds `e` with probability `base_chance(e)` over the total.
pub proof fn lemma_cell_draw_share(draw: int, cell: Environment, e: Environment)
    requires
        selects(base_weights(), draw, index_of(cell)),
    ensures
        cell == e <==> selects(base_weights(), draw, index_of(e)),
        Set::new(
            |n: int| 0 <= n < total_weight(base_weights()) && selects(base_weights(), n, index_of(e)),
        ).len() == base_chance(e),
{
    lemma_base_share(e);
    if selects(base_weights(), draw, index_of(e)) {
        lemma_selects_unique(base_weights(), draw, index_of(e), index_of(cell));
        lemma_index_round_trip(e);
        lemma_index_round_trip(cell);
    }
}

/// Roulette-wheel selection over `weights`: the index of the first entry whose running total
/// exceeds `n`.
pub fn pick_weighted(weights: &Vec<u32>, n: u32) -> (r: usize)
    requires
        n < total_weight(weights@),
        total_weight(weights@) <= u32::MAX,
    ensures
        selects(weights@, n as int, r as int),
        weights@[r as int] > 0,
{
    let len = weights.len();
    let mut sum: u32 = 0;
    let mut i: usize = 0;
    while i < len
        invariant
            i <= len == weights@.len(),
            sum == prefix_sum(weights@, i as int),
            sum <= n,
            n < total_weight(weights@),
            total_weight(weights@) <= u32::MAX,
        decreases len - i,
    {
        proof {
            lemma_prefix_monotone(weights@, i as int + 1, len as int);
        }
        let next = sum + weights[i];
        if next > n {
            return i;
        }
        sum = next;
        i = i + 1;
    }
    proof {
        assert(false);
    }
    0
}

impl RandomGenerator {
    pub open spec fn wf(&self) -> bool {
        self.total_base_chance == total_weight(base_weights())
    }

    /// The generator, with the total of the base chances computed once.
    pub fn new() -> (r: RandomGenerator)
        ensures
            r.wf(),
    {
        RandomGenerator { total_base_chance: Self::summed_terrain_base_chance() }
    }

    /// Weight with which `e` is drawn when the map is populated.
    pub fn base_chance_of(e: Environment) -> (r: u32)
        ensures
            r == base_chance(e),
    {
        match e {
            Environment::AQUATIC => 14,
            Environment::DESERT => 4,
            Environment::FOREST => 12,
            Environment::MOUNTAIN => 6,
            Environment::PLAINS => 8,
            _ => 0,
        }
    }

    /// Weight with which a cell holding `current` turns into `target` when transformed.
    pub fn transform_chance_of(target: Environment, current: Environment) -> (r: u32)
        ensures
            r == transform_chance(target, current),
    {
        match target {
            Environment::ARCTIC => if current == Environment::AQUATIC { 5 } else { 0 },
            Environment::DESERT => if current == Environment::PLAINS { 5 } else { 0 },
            Environment::SWAMP => if current == Environment::FOREST || current == Environment::PLAINS { 5 } else { 0 },
            Environment::AERIAL => if current == Environment::MOUNTAIN { 3 } else { 0 },
            Environment::GLACIER => if current == Environment::ARCTIC { 40 } else { 0 },
            Environment::VOLCANIC => if current == Environment::MOUNTAIN { 10 } else { 0 },
            _ => 0,
        }
    }

    /// The base chances in declaration order of the environments.
    pub fn base_weights() -> (r: Vec<u32>)
        ensures
            r@ == base_weights(),
    {
        let mut r: Vec<u32> = Vec::new();
        let mut i: usize = 0;
        while i < ENVIRONMENT_COUNT
            invariant
                i <= ENVIRONMENT_COUNT,
                r@ == base_weights().subrange(0, i as int),
            decreases ENVIRONMENT_COUNT - i,
        {
            r.push(Self::base_chance_of(Environment::from_index(i)));
            assert(r@ =~= base_weights().subrange(0, i as int + 1));
            i = i + 1;
        }
        assert(r@ =~= base_weights());
        r
    }

    /// The transform chances out of `current`, in declaration order of the targets.
    pub fn transform_weights(current: Environment) -> (r: Vec<u32>)
        ensures
            r@ == transform_weights(current),
    {
        let mut r: Vec<u32> = Vec::new();
        let mut i: usize = 0;
        while i < ENVIRONMENT_COUNT
            invariant
                i <= ENVIRONMENT_COUNT,
                r@ == transform_weights(current).subrange(0, i as int),
            decreases ENVIRONMENT_COUNT - i,
        {
            r.push(Self::transform_chance_of(Environment::from_index(i), current));
            assert(r@ =~= transform_weights(current).subrange(0, i as int + 1));
            i = i + 1;
        }
        assert(r@ =~= transform_weights(current));
        r
    }

    /// Sum of `weights`.
    fn sum_weights(weights: &Vec<u32>) -> (r: u32)
        requires
            forall|i: int| 0 <= i < weights@.len() ==> #[trigger] weights@[i] <= 100,
            weights@.len() <= ENVIRONMENT_COUNT,
        ensures
            r == total_weight(weights@),
    {
        let mut sum: u32 = 0;
        let mut i: usize = 0;
        while i < weights.len()
            invariant
                i <= weights@.len() <= ENVIRONMENT_COUNT,
                forall|j: int| 0 <= j < weights@.len() ==> #[trigger] weights@[j] <= 100,
                sum == prefix_sum(weights@, i as int),
                sum <= 100 * i,
            decreases weights@.len() - i,
        {
            sum = sum + weights[i];
            i = i + 1;
        }
        sum
    }

    /// Total weight of the transforms out of `current`; 0 when it never transforms.
    pub fn total_transform_chance(current: Environment) -> (r: u32)
        ensures
            r == total_weight(transform_weights(current)),
    {
        Self::sum_weights(&Self::transform_weights(current))
    }

    /// Total of the base chances.
    pub fn summed_terrain_base_chance() -> (r: u32)
        ensures
            r == total_weight(base_weights()),
            r > 0,
    {
        let w = Self::base_weights();
        let r = Self::sum_weights(&w);
        proof {
            assert(base_weights().len() == ENVIRONMENT_COUNT);
            assert(base_weights()[0] == 0 && base_weights()[1] == 14);
            assert(prefix_sum(base_weights(), 0) == 0);
            assert(prefix_sum(base_weights(), 1) == 0);
            assert(prefix_sum(base_weights(), 2) >= 14);
            lemma_prefix_monotone(base_weights(), 2, ENVIRONMENT_COUNT as int);
        }
        r
    }

    /// The environment that draw `n` selects from the base chances.
    pub fn select_base(n: u32) -> (r: Environment)
        requires
            n < total_weight(base_weights()),
        ensures
            selects(base_weights(), n as int, index_of(r)),
            base_chance(r) > 0,
    {
        let w = Self::base_weights();
        proof {
            lemma_weight_totals_fit(Environment::NONE);
        }
        let i = pick_weighted(&w, n);
        Environment::from_index(i)
    }

    /// The environment that draw `n` selects from the transforms out of `current`.
    pub fn select_transform(current: Environment, n: u32) -> (r: Environment)
        requires
            n < total_weight(transform_weights(current)),
        ensures
            selects(transform_weights(current), n as int, index_of(r)),
            transform_chance(r, current) > 0,
    {
        let w = Self::transform_weights(current);
        proof {
            lemma_weight_totals_fit(current);
        }
        let i = pick_weighted(&w, n);
        Environment::from_index(i)
    }
    /// Index of the most frequent entry of `s`; among equally frequent entries the first one.
    pub fn most_frequent(s: &Vec<Environment>) -> (r: usize)
        requires
            0 < s@.len() <= u32::MAX,
        ensures
            r < s@.len(),
            forall|j: int| 0 <= j < s@.len() ==> occurrences(s@, #[trigger] s@[j]) <= occurrences(s@, s@[r as int]),
            forall|k: int| 0 <= k < r ==> occurrences(s@, #[trigger] s@[k]) < occurrences(s@, s@[r as int]),
    {
        let first = vec![s[0]];
        assert(first@ =~= seq![s@[0]]);
        let mut best: usize = 0;
        let mut best_count = count_environments(s, &first);
        let mut i: usize = 1;
        while i < s.len()
            invariant
                1 <= i <= s@.len() <= u32::MAX,
                best < i,
                best_count == occurrences(s@, s@[best as int]),
                forall|j: int| 0 <= j < i ==> occurrences(s@, #[trigger] s@[j]) <= best_count,
                forall|k: int| 0 <= k < best ==> occurrences(s@, #[trigger] s@[k]) < best_count,
            decreases s@.len() - i,
        {
            let probe = vec![s[i]];
            assert(probe@ =~= seq![s@[i as int]]);
            let c = count_environments(s, &probe);
            if c > best_count {
                best = i;
                best_count = c;
            }
            i = i + 1;
        }
        best
    }

    /// Stores in cell `(x, y)` the environment that draw `n` selects from the base chances.
    pub fn generate_hex(&self, map: &mut HexMap, x: usize, y: usize, n: u32) -> (r: Environment)
        requires
            old(map).wf(),
            x < old(map).width(),
            y < old(map).height(),
            n < total_weight(base_weights()),
        ensures
            final(map).wf(),
            old(map).updated(final(map), x as int, y as int, r),
            selects(base_weights(), n as int, index_of(r)),
            base_chance(r) > 0,
    {
        let e = Self::select_base(n);
        map.set(x, y, e);
        e
    }

    /// One draw below the total of the base chances for every cell, row by row.
    pub fn draw_grid(&self, width: usize, height: usize, rng: &mut RandomSource) -> (r: Vec<Vec<u32>>)
        requires
            self.wf(),
        ensures
            r@.len() == height,
            forall|j: int| 0 <= j < height ==> (#[trigger] r@[j])@.len() == width,
            forall|i: int, j: int| 0 <= j < height && 0 <= i < width ==> #[trigger] r@[j]@[i] < total_weight(base_weights()),
    {
        proof {
            assert(self.total_base_chance > 0) by {
                assert(base_weights()[1] == 14);
                assert(prefix_sum(base_weights(), 0) == 0);
                assert(prefix_sum(base_weights(), 1) == 0);
                lemma_prefix_monotone(base_weights(), 2, ENVIRONMENT_COUNT as int);
            }
        }
        let mut grid: Vec<Vec<u32>> = Vec::new();
        let mut y: usize = 0;
        while y < height
            invariant
                self.wf(),
                self.total_base_chance > 0,
                y <= height,
                grid@.len() == y,
                forall|j: int| 0 <= j < y ==> (#[trigger] grid@[j])@.len() == width,
                forall|i: int, j: int| 0 <= j < y && 0 <= i < width ==> #[trigger] grid@[j]@[i] < total_weight(base_weights()),
            decreases height - y,
        {
            let mut row: Vec<u32> = Vec::new();
            let mut x: usize = 0;
            while x < width
                invariant
                    self.wf(),
                    self.total_base_chance > 0,
                    x <= width,
                    row@.len() == x,
                    forall|i: int| 0 <= i < x ==> #[trigger] row@[i] < total_weight(base_weights()),
                decreases width - x,
            {
                row.push(rng.below(self.total_base_chance));
                x = x + 1;
            }
            grid.push(row);
            y = y + 1;
        }
        grid
    }

    /// Fills every cell with the environment that its draw in `draws` selects from the base
    /// chances: cell `(x, y)` holds `e` exactly when `draws[y][x]` lies among the
    /// `base_chance(e)` draws that select `e`.
    pub fn populate_with(&self, map: &mut HexMap, draws: &Vec<Vec<u32>>)
        requires
            old(map).wf(),
            draws@.len() == old(map).height(),
            forall|j: int| 0 <= j < old(map).height() ==> (#[trigger] draws@[j])@.len() == old(map).width(),
            forall|i: int, j: int|
                0 <= j < old(map).height() && 0 <= i < old(map).width() ==> #[trigger] draws@[j]@[i] < total_weight(
                    base_weights(),
                ),
        ensures
            final(map).wf(),
            old(map).same_shape(final(map)),
            forall|x: int, y: int|
                0 <= y < final(map).height() && 0 <= x < final(map).width() ==> selects(
                    base_weights(),
                    draws@[y]@[x] as int,
                    index_of(#[trigger] final(map).env(x, y)),
                ),
            forall|x: int, y: int|
                0 <= y < final(map).height() && 0 <= x < final(map).width()
                    ==> base_chance(#[trigger] final(map).env(x, y)) > 0,
    {
        let ghost start = *map;
        let h = map.height_of();
        let w = map.width_of();
        let mut y: usize = 0;
        while y < h
            invariant
                map.wf(),
                start.same_shape(map),
                map.height() == h == start.height(),
                map.width() == w == start.width(),
                y <= h,
                draws@.len() == h,
                forall|j: int| 0 <= j < h ==> (#[trigger] draws@[j])@.len() == w,
                forall|i: int, j: int| 0 <= j < h && 0 <= i < w ==> #[trigger] draws@[j]@[i] < total_weight(base_weights()),
                forall|i: int, j: int|
                    0 <= j < y && 0 <= i < w ==> selects(base_weights(), draws@[j]@[i] as int, index_of(#[trigger] map.env(i, j)))
                        && base_chance(map.env(i, j)) > 0,
            decreases h - y,
        {
            let row = &draws[y];
            let mut x: usize = 0;
            while x < w
                invariant
                    map.wf(),
                    start.same_shape(map),
                    map.height() == h == start.height(),
                    map.width() == w == start.width(),
                    y < h,
                    x <= w,
                    draws@.len() == h,
                    row@ == draws@[y as int]@,
                    forall|j: int| 0 <= j < h ==> (#[trigger] draws@[j])@.len() == w,
                    forall|i: int, j: int| 0 <= j < h && 0 <= i < w ==> #[trigger] draws@[j]@[i] < total_weight(base_weights()),
                    forall|i: int, j: int|
                        (0 <= j < y && 0 <= i < w) || (j == y && 0 <= i < x) ==> selects(
                            base_weights(),
                            draws@[j]@[i] as int,
                            index_of(#[trigger] map.env(i, j)),
                        ) && base_chance(map.env(i, j)) > 0,
                decreases w - x,
            {
                let ghost before = *map;
                let e = self.generate_hex(map, x, y, row[x]);
                proof {
                    assert forall|i: int, j: int|
                        (0 <= j < y && 0 <= i < w) || (j == y && 0 <= i < x + 1) implies selects(
                            base_weights(),
                            draws@[j]@[i] as int,
                            index_of(#[trigger] map.env(i, j)),
                        ) && base_chance(map.env(i, j)) > 0 by {
                        if !(i == x && j == y) {
                            assert(map.env(i, j) == before.env(i, j));
                        }
                    }
                }
                x = x + 1;
            }
            y = y + 1;
        }
    }

    /// Draws every cell independently from the base chances.
    pub fn populate(&self, map: &mut HexMap, rng: &mut RandomSource)
        requires
            self.wf(),
            old(map).wf(),
        ensures
            final(map).wf(),
            old(map).same_shape(final(map)),
            final(map).fully_generated(),
            forall|x: int, y: int|
                0 <= y < final(map).height() && 0 <= x < final(map).width()
                    ==> base_chance(#[trigger] final(map).env(x, y)) > 0,
    {
        let draws = self.draw_grid(map.width_of(), map.height_of(), rng);
        self.populate_with(map, &draws);
    }

    /// A transform of `current`: unchanged when nothing can come out of it, otherwise an
    /// environment drawn from the transform chances out of it.
    pub fn transform_hex(current: Environment, rng: &mut RandomSource) -> (r: Environment)
        ensures
            total_weight(transform_weights(current)) == 0 ==> r == current,
            total_weight(transform_weights(current)) != 0 ==> transform_chance(r, current) > 0,
    {
        let total = Self::total_transform_chance(current);
        if total == 0 {
            return current;
        }
        let n = rng.below(total);
        Self::select_transform(current, n)
    }

    /// The smoothing decision for one cell, from the operation draw `op` (below 100): below
    /// 45 the cell is kept, below 55 it is transformed, otherwise it takes the most frequent
    /// environment among its eight toroidal neighbors.
    pub fn smooth_hex(map: &mut HexMap, x: usize, y: usize, op: u32, rng: &mut RandomSource) -> (r: Environment)
        requires
            old(map).wf(),
            x < old(map).width(),
            y < old(map).height(),
        ensures
            final(map).wf(),
            op < 45 ==> *final(map) == *old(map) && r == old(map).env(x as int, y as int),
            old(map).updated(final(map), x as int, y as int, r),
            smoothed_cell(old(map).env(x as int, y as int), old(map).toroidal_neighbors_spec(x as int, y as int), r),
            45 <= op < 55 ==> transform_allowed(old(map).env(x as int, y as int), r),
            op >= 55 ==> first_majority(old(map).toroidal_neighbors_spec(x as int, y as int), r),
    {
        if op < 45 {
            return map.get(x, y);
        }
        if op < 55 {
            let cur = map.get(x, y);
            let e = Self::transform_hex(cur, rng);
            map.set(x, y, e);
            e
        } else {
            let s = map.toroidal_neighbors(x, y);
            let i = Self::most_frequent(&s);
            let e = s[i];
            map.set(x, y, e);
            assert(e == s@[i as int]);
            e
        }
    }

    /// One smoothing pass over the rows top to bottom and the cells left to right; a cell sees
    /// the values its neighbors already took earlier in the same pass.
    pub fn smooth(&self, map: &mut HexMap, rng: &mut RandomSource)
        requires
            old(map).wf(),
        ensures
            final(map).wf(),
            old(map).same_shape(final(map)),
            smoothing_pass(*old(map), *final(map)),
            old(map).fully_generated() ==> final(map).fully_generated(),
    {
        let ghost start = *map;
        let h = map.height_of();
        let w = map.width_of();
        let mut y: usize = 0;
        while y < h
            invariant
                map.wf(),
                start.wf(),
                start.same_shape(map),
                map.height() == h == start.height(),
                map.width() == w == start.width(),
                y <= h,
                start.fully_generated() ==> map.fully_generated(),
                pass_progress(start, *map, 0, y as int),
            decreases h - y,
        {
            let mut x: usize = 0;
            while x < w
                invariant
                    map.wf(),
                    start.wf(),
                    start.same_shape(map),
                    map.height() == h == start.height(),
                    map.width() == w == start.width(),
                    y < h,
                    x <= w,
                    start.fully_generated() ==> map.fully_generated(),
                    pass_progress(start, *map, x as int, y as int),
                decreases w - x,
            {
                let ghost before = *map;
                let op = rng.below(100);
                let e = Self::smooth_hex(map, x, y, op, rng);
                proof {
                    lemma_pass_step(start, before, *map, x as int, y as int, e);
                    if start.fully_generated() {
                        Self::lemma_smoothing_keeps_generated(before, *map, x as int, y as int, e);
                    }
                }
                x = x + 1;
            }
            proof {
                lemma_pass_next_row(start, *map, y as int);
            }
            y = y + 1;
        }
        proof {
            lemma_pass_done(start, *map);
        }
    }

    /// A smoothed cell of a fully generated map is generated too.
    proof fn lemma_smoothing_keeps_generated(before: HexMap, after: HexMap, x: int, y: int, r: Environment)
        requires
            before.wf(),
            before.fully_generated(),
            0 <= x < before.width(),
            0 <= y < before.height(),
            before.updated(&after, x, y, r),
            smoothed_cell(before.env(x, y), before.toroidal_neighbors_spec(x, y), r),
        ensures
            after.fully_generated(),
    {
        let s = before.toroidal_neighbors_spec(x, y);
        assert(forall|i: int| 0 <= i < 8 ==> s[i] != Environment::NONE);
        assert(r != Environment::NONE);
        assert forall|i: int, j: int| 0 <= j < after.height() && 0 <= i < after.width() implies #[trigger] after.env(i, j)
            != Environment::NONE by {
            if !(i == x && j == y) {
                assert(after.env(i, j) == before.env(i, j));
            }
        }
    }
}

} // verus!
