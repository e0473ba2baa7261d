use vstd::prelude::*;
use crate::environment::{Environment, count_of, count_environments, lemma_count_of_bounded};
use crate::grid::{HexMap, MapError, visited_before, lemma_causal_frame};
use crate::random::RandomSource;

verus! {

/// Latitude-aware generation: a single row-major pass in which every cell is decided from its
/// latitude and from the neighbors generated before it.
#[derive(Clone, Copy)]
pub struct ProceduralGenerator {}

/// One rung of a decision ladder: `environment` is chosen with probability
/// `numerator / denominator` when every rung before it has failed.
#[derive(Copy, Clone, PartialEq, Eq, Structural, Debug)]
pub struct Chance {
    pub numerator: u32,
    pub denominator: u32,
    pub environment: Environment,
}

pub open spec fn valid_chance(c: Chance) -> bool {
    0 < c.denominator && c.numerator <= c.denominator
}

/// `r` is a possible result of running the ladder `stages` with `fallback` after the last rung:
/// some rung that can fire yields `r` after rungs that can all fail, or every rung can fail and
/// `r` is the fallback.
pub open spec fn ladder_allows(stages: Seq<Chance>, fallback: Environment, r: Environment) -> bool
    decreases stages.len(),
{
    if stages.len() == 0 {
        r == fallback
    } else {
        ||| (stages[0].numerator > 0 && r == stages[0].environment)
        ||| (stages[0].numerator < stages[0].denominator && ladder_allows(
            stages.drop_first(),
            fallback,
            r,
        ))
    }
}

/// A result of a ladder is its fallback or the environment of a rung that can fire.
pub proof fn lemma_ladder_result(stages: Seq<Chance>, fallback: Environment, r: Environment)
    requires
        ladder_allows(stages, fallback, r),
    ensures
        r == fallback || exists|i: int|
            0 <= i < stages.len() && stages[i].numerator > 0 && #[trigger] stages[i].environment == r,
    decreases stages.len(),
{
    if stages.len() > 0 && !(stages[0].numerator > 0 && r == stages[0].environment) {
        lemma_ladder_result(stages.drop_first(), fallback, r);
        if r != fallback {
            let i = choose|i: int|
                0 <= i < stages.drop_first().len() && stages.drop_first()[i].numerator > 0
                    && #[trigger] stages.drop_first()[i].environment == r;
            assert(stages[i + 1].environment == r);
        }
    }
}

/// The result of the ladder `stages` for the roll outcomes `rolls`: the environment of the first
/// rung whose roll succeeded, or `fallback` when none did.
pub open spec fn first_fired(stages: Seq<Chance>, rolls: Seq<bool>, fallback: Environment) -> Environment
    decreases stages.len(),
{
    if stages.len() == 0 || rolls.len() == 0 {
        fallback
    } else if rolls[0] {
        stages[0].environment
    } else {
        first_fired(stages.drop_first(), rolls.drop_first(), fallback)
    }
}

/// One roll per rung, each one a possible outcome of its rung: a rung with numerator 0 never
/// succeeds and one whose numerator equals its denominator always does.
pub open spec fn rolls_consistent(stages: Seq<Chance>, rolls: Seq<bool>) -> bool {
    &&& rolls.len() == stages.len()
    &&& forall|i: int|
        0 <= i < stages.len() ==> (#[trigger] stages[i].numerator == 0 ==> !rolls[i]) && (stages[i].numerator
            == stages[i].denominator ==> rolls[i])
}

/// Rolls that their rungs can produce give a result the ladder allows.
pub proof fn lemma_first_fired_allowed(stages: Seq<Chance>, rolls: Seq<bool>, fallback: Environment)
    requires
        rolls_consistent(stages, rolls),
        forall|i: int| 0 <= i < stages.len() ==> valid_chance(#[trigger] stages[i]),
    ensures
        ladder_allows(stages, fallback, first_fired(stages, rolls, fallback)),
    decreases stages.len(),
{
    if stages.len() > 0 {
        assert(stages[0].numerator == 0 ==> !rolls[0]);
        assert(stages[0].numerator == stages[0].denominator ==> rolls[0]);
        assert(valid_chance(stages[0]));
        if !rolls[0] {
            let (s1, r1) = (stages.drop_first(), rolls.drop_first());
            assert forall|i: int| 0 <= i < s1.len() implies (#[trigger] s1[i].numerator == 0 ==> !r1[i]) && (
            s1[i].numerator == s1[i].denominator ==> r1[i]) by {
                assert(s1[i] == stages[i + 1]);
                assert(stages[i + 1].numerator == 0 ==> !rolls[i + 1]);
            }
            assert forall|i: int| 0 <= i < s1.len() implies valid_chance(#[trigger] s1[i]) by {
                assert(valid_chance(stages[i + 1]));
            }
            lemma_first_fired_allowed(s1, r1, fallback);
        }
    }
}

pub open spec fn polar_distance(y: int, max_y: int) -> int {
    if y < max_y - y {
        y
    } else {
        max_y - y
    }
}

pub open spec fn equatorial_distance(y: int, max_y: int) -> int {
    if max_y / 2 >= y {
        max_y / 2 - y
    } else {
        y - max_y / 2
    }
}

pub open spec fn water_kinds() -> Seq<Environment> {
    seq![Environment::AQUATIC, Environment::ARCTIC, Environment::GLACIER]
}

pub open spec fn volcanic_kinds() -> Seq<Environment> {
    seq![Environment::MOUNTAIN, Environment::DESERT, Environment::VOLCANIC]
}

/// More than half of the generated entries of `s` are land.
pub open spec fn mostly_land(s: Seq<Environment>) -> bool {
    2 * count_of(s, water_kinds()) < s.len() - count_of(s, seq![Environment::NONE])
}

/// Out of ten, the odds that a cell with causal neighbors `ctx` in row `y` becomes water.
pub open spec fn water_numerator(ctx: Seq<Environment>, y: int, max_y: int) -> int {
    (if mostly_land(ctx) {
        4int
    } else {
        7int
    }) + (if polar_distance(y, max_y) < max_y / 7 {
        3int
    } else {
        1int
    })
}

/// The ladder for a water cell in row `y`: open water outside the ice band; inside it ice
/// becomes likelier towards the pole (up to 80%), and of the ice up to 20% is glacier.
pub open spec fn water_stages(y: int, max_y: int) -> Seq<Chance> {
    let p = polar_distance(y, max_y);
    let m = max_y / 8;
    if p >= m {
        seq![Chance { numerator: 1, denominator: 1, environment: Environment::AQUATIC }]
    } else {
        let open_water = Chance {
            numerator: (2 * m + 8 * p) as u32,
            denominator: (10 * m) as u32,
            environment: Environment::AQUATIC,
        };
        let glacier = Chance {
            numerator: (2 * (m - p)) as u32,
            denominator: (10 * m) as u32,
            environment: Environment::GLACIER,
        };
        seq![open_water, glacier]
    }
}

/// The ladder for a land cell in row `y` with `aerial` aerial and `volcanic` mountain, desert
/// or volcanic causal neighbors.
pub open spec fn land_stages(y: int, max_y: int, aerial: int, volcanic: int) -> Seq<Chance> {
    let e = equatorial_distance(y, max_y);
    let d = max_y / 8;
    let desert = if d > e {
        Chance { numerator: (30 * (d - e)) as u32, denominator: (100 * d) as u32, environment: Environment::DESERT }
    } else {
        Chance { numerator: 0, denominator: 1, environment: Environment::DESERT }
    };
    let aerial_odds = if aerial <= 2 {
        3 - aerial
    } else {
        0
    };
    let aerial_stage = Chance { numerator: aerial_odds as u32, denominator: 100, environment: Environment::AERIAL };
    let volcanic_stage = Chance {
        numerator: (3 + 2 * volcanic) as u32,
        denominator: 100,
        environment: Environment::VOLCANIC,
    };
    let plains = Chance { numerator: (4 * e) as u32, denominator: (5 * max_y) as u32, environment: Environment::PLAINS };
    let forest = Chance { numerator: 9, denominator: 20, environment: Environment::FOREST };
    let mountain = Chance { numerator: 13, denominator: 20, environment: Environment::MOUNTAIN };
    seq![desert, aerial_stage, volcanic_stage, plains, forest, mountain]
}

/// `r` is a possible environment for a cell in row `y` of a map whose last row is `max_y`,
/// given its causal neighbors `ctx`.
pub open spec fn cell_allowed(ctx: Seq<Environment>, y: int, max_y: int, r: Environment) -> bool {
    let wn = water_numerator(ctx, y, max_y);
    let aerial = count_of(ctx, seq![Environment::AERIAL]) as int;
    let volcanic = count_of(ctx, volcanic_kinds()) as int;
    ||| (wn > 0 && ladder_allows(water_stages(y, max_y), Environment::ARCTIC, r))
    ||| (wn < 10 && ladder_allows(land_stages(y, max_y, aerial, volcanic), Environment::SWAMP, r))
}

/// The decision for a cell in row `y` with causal neighbors `ctx`, given whether the water roll
/// succeeded and the rolls of the rungs of the chosen ladder.
pub open spec fn cell_decision(ctx: Seq<Environment>, y: int, max_y: int, water: bool, rolls: Seq<bool>) -> Environment {
    if water {
        first_fired(water_stages(y, max_y), rolls, Environment::ARCTIC)
    } else {
        first_fired(land_stages_around(ctx, y, max_y), rolls, Environment::SWAMP)
    }
}

/// The land ladder for a cell in row `y` with causal neighbors `ctx`.
pub open spec fn land_stages_around(ctx: Seq<Environment>, y: int, max_y: int) -> Seq<Chance> {
    land_stages(y, max_y, count_of(ctx, seq![Environment::AERIAL]) as int, count_of(ctx, volcanic_kinds()) as int)
}

/// A generated cell in row `y`: ice only within the ice band around a pole, desert only within
/// the desert band around the equator.
pub open spec fn latitude_consistent(e: Environment, y: int, max_y: int) -> bool {
    &&& e != Environment::NONE
    &&& (e == Environment::GLACIER || e == Environment::ARCTIC) ==> polar_distance(y, max_y) < max_y / 8
    &&& e == Environment::DESERT ==> equatorial_distance(y, max_y) < max_y / 8
}

/// Every possible cell outcome respects the latitude bands.
pub proof fn lemma_cell_latitude(ctx: Seq<Environment>, y: int, max_y: int, r: Environment)
    requires
        0 <= y <= max_y,
        cell_allowed(ctx, y, max_y, r),
    ensures
        latitude_consistent(r, y, max_y),
{
    let aerial = count_of(ctx, seq![Environment::AERIAL]) as int;
    let volcanic = count_of(ctx, volcanic_kinds()) as int;
    let ws = water_stages(y, max_y);
    let ls = land_stages(y, max_y, aerial, volcanic);
    if ladder_allows(ws, Environment::ARCTIC, r) {
        if polar_distance(y, max_y) >= max_y / 8 {
            assert(ladder_allows(ws.drop_first(), Environment::ARCTIC, r) == (r == Environment::ARCTIC));
            assert(r == Environment::AQUATIC);
        } else {
            lemma_ladder_result(ws, Environment::ARCTIC, r);
        }
    } else {
        lemma_ladder_result(ls, Environment::SWAMP, r);
    }
}

impl ProceduralGenerator {
    /// The mostly-land test on causal neighbors: more than half of the generated ones are land.
    pub fn is_mostly_land(surroundings: &Vec<Environment>) -> (r: bool)
        requires
            surroundings@.len() <= u32::MAX,
        ensures
            r == mostly_land(surroundings@),
    {
        let water = vec![Environment::AQUATIC, Environment::ARCTIC, Environment::GLACIER];
        let none = vec![Environment::NONE];
        let cnt = Self::count_in_surroundings(surroundings, &water);
        let none_cnt = Self::count_in_surroundings(surroundings, &none);
        proof {
            assert(water@ =~= water_kinds());
            assert(none@ =~= seq![Environment::NONE]);
            lemma_count_of_bounded(surroundings@, seq![Environment::NONE]);
            lemma_count_of_bounded(surroundings@, water_kinds());
        }
        let size = surroundings.len() as u32;
        (cnt as u64) * 2 < (size - none_cnt) as u64
    }

    /// How many of `surroundings` are one of `envs`.
    pub fn count_in_surroundings(surroundings: &Vec<Environment>, envs: &Vec<Environment>) -> (r: u32)
        requires
            surroundings@.len() <= u32::MAX,
        ensures
            r == count_of(surroundings@, envs@),
    {
        count_environments(surroundings, envs)
    }
    /// The result of the ladder `stages` for the roll outcomes `rolls`: the environment of the
    /// first rung whose roll succeeded, or `fallback`.
    pub fn pick_rung(stages: &Vec<Chance>, rolls: &Vec<bool>, fallback: Environment) -> (r: Environment)
        requires
            rolls@.len() == stages@.len(),
        ensures
            r == first_fired(stages@, rolls@, fallback),
    {
        let n = stages.len();
        let mut i: usize = 0;
        assert(stages@.subrange(0, n as int) =~= stages@);
        assert(rolls@.subrange(0, n as int) =~= rolls@);
        while i < n
            invariant
                i <= n == stages@.len() == rolls@.len(),
                first_fired(stages@.subrange(i as int, n as int), rolls@.subrange(i as int, n as int), fallback)
                    == first_fired(stages@, rolls@, fallback),
            decreases n - i,
        {
            if rolls[i] {
                return stages[i].environment;
            }
            assert(stages@.subrange(i as int, n as int).drop_first() =~= stages@.subrange(i as int + 1, n as int));
            assert(rolls@.subrange(i as int, n as int).drop_first() =~= rolls@.subrange(i as int + 1, n as int));
            i = i + 1;
        }
        fallback
    }

    /// One roll per rung of `stages`, each drawn with its rung's odds.
    pub fn roll_ladder(stages: &Vec<Chance>, rng: &mut RandomSource) -> (r: Vec<bool>)
        requires
            forall|i: int| 0 <= i < stages@.len() ==> valid_chance(#[trigger] stages@[i]),
        ensures
            rolls_consistent(stages@, r@),
    {
        let mut rolls: Vec<bool> = Vec::new();
        let mut i: usize = 0;
        while i < stages.len()
            invariant
                i <= stages@.len(),
                rolls@.len() == i,
                forall|j: int| 0 <= j < stages@.len() ==> valid_chance(#[trigger] stages@[j]),
                forall|j: int|
                    0 <= j < i ==> (#[trigger] stages@[j].numerator == 0 ==> !rolls@[j]) && (stages@[j].numerator
                        == stages@[j].denominator ==> rolls@[j]),
            decreases stages@.len() - i,
        {
            let c = stages[i];
            assert(valid_chance(stages@[i as int]));
            let roll = rng.ratio(c.numerator, c.denominator);
            rolls.push(roll);
            i = i + 1;
        }
        rolls
    }

    /// The ladder of a water cell in row `y` (see `water_stages`).
    pub fn water_chances(y: u32, max_y: u32) -> (r: Vec<Chance>)
        requires
            y <= max_y,
            max_y <= u16::MAX,
        ensures
            r@ == water_stages(y as int, max_y as int),
            forall|i: int| 0 <= i < r@.len() ==> valid_chance(#[trigger] r@[i]),
    {
        let p = if y < max_y - y { y } else { max_y - y };
        let m = max_y / 8;
        if p >= m {
            let r = vec![Chance { numerator: 1, denominator: 1, environment: Environment::AQUATIC }];
            assert(r@ =~= water_stages(y as int, max_y as int));
            r
        } else {
            let open_water = Chance { numerator: 2 * m + 8 * p, denominator: 10 * m, environment: Environment::AQUATIC };
            let glacier = Chance { numerator: 2 * (m - p), denominator: 10 * m, environment: Environment::GLACIER };
            let r = vec![open_water, glacier];
            assert(r@ =~= water_stages(y as int, max_y as int));
            r
        }
    }

    /// The ladder of a land cell in row `y` (see `land_stages`).
    pub fn land_chances(y: u32, max_y: u32, aerial: u32, volcanic: u32) -> (r: Vec<Chance>)
        requires
            y <= max_y,
            1 <= max_y <= u16::MAX,
            volcanic <= 48,
        ensures
            r@ == land_stages(y as int, max_y as int, aerial as int, volcanic as int),
            forall|i: int| 0 <= i < r@.len() ==> valid_chance(#[trigger] r@[i]),
    {
        let e = if max_y / 2 >= y { max_y / 2 - y } else { y - max_y / 2 };
        let d = max_y / 8;
        let desert = if d > e {
            Chance { numerator: 30 * (d - e), denominator: 100 * d, environment: Environment::DESERT }
        } else {
            Chance { numerator: 0, denominator: 1, environment: Environment::DESERT }
        };
        let aerial_odds = if aerial <= 2 { 3 - aerial } else { 0 };
        let aerial_stage = Chance { numerator: aerial_odds, denominator: 100, environment: Environment::AERIAL };
        let volcanic_stage = Chance { numerator: 3 + 2 * volcanic, denominator: 100, environment: Environment::VOLCANIC };
        let plains = Chance { numerator: 4 * e, denominator: 5 * max_y, environment: Environment::PLAINS };
        let forest = Chance { numerator: 9, denominator: 20, environment: Environment::FOREST };
        let mountain = Chance { numerator: 13, denominator: 20, environment: Environment::MOUNTAIN };
        let r = vec![desert, aerial_stage, volcanic_stage, plains, forest, mountain];
        assert(r@ =~= land_stages(y as int, max_y as int, aerial as int, volcanic as int));
        r
    }

    /// The land ladder for a cell in row `y` with causal neighbors `ctx`.
    pub fn land_chances_around(ctx: &Vec<Environment>, y: u32, max_y: u32) -> (r: Vec<Chance>)
        requires
            ctx@.len() <= 4,
            y <= max_y,
            1 <= max_y <= u16::MAX,
        ensures
            r@ == land_stages_around(ctx@, y as int, max_y as int),
            forall|i: int| 0 <= i < r@.len() ==> valid_chance(#[trigger] r@[i]),
    {
        let aerial_kinds = vec![Environment::AERIAL];
        let volcanic_kinds_v = vec![Environment::MOUNTAIN, Environment::DESERT, Environment::VOLCANIC];
        let aerial = Self::count_in_surroundings(ctx, &aerial_kinds);
        let volcanic = Self::count_in_surroundings(ctx, &volcanic_kinds_v);
        proof {
            assert(aerial_kinds@ =~= seq![Environment::AERIAL]);
            assert(volcanic_kinds_v@ =~= volcanic_kinds());
            lemma_count_of_bounded(ctx@, volcanic_kinds());
        }
        Self::land_chances(y, max_y, aerial, volcanic)
    }

    /// A water cell in row `y` for the rolls `rolls` of the water ladder: open water, glacier
    /// or arctic ice (see `water_stages`).
    pub fn generate_water(y: u32, max_y: u32, rolls: &Vec<bool>) -> (r: Environment)
        requires
            y <= max_y,
            max_y <= u16::MAX,
            rolls@.len() == water_stages(y as int, max_y as int).len(),
        ensures
            r == first_fired(water_stages(y as int, max_y as int), rolls@, Environment::ARCTIC),
    {
        let stages = Self::water_chances(y, max_y);
        Self::pick_rung(&stages, rolls, Environment::ARCTIC)
    }

    /// A land cell in row `y` with causal neighbors `ctx` for the rolls `rolls` of the land
    /// ladder (see `land_stages`).
    pub fn generate_land(ctx: &Vec<Environment>, y: u32, max_y: u32, rolls: &Vec<bool>) -> (r: Environment)
        requires
            ctx@.len() <= 4,
            y <= max_y,
            1 <= max_y <= u16::MAX,
            rolls@.len() == land_stages_around(ctx@, y as int, max_y as int).len(),
        ensures
            r == first_fired(land_stages_around(ctx@, y as int, max_y as int), rolls@, Environment::SWAMP),
    {
        let stages = Self::land_chances_around(ctx, y, max_y);
        Self::pick_rung(&stages, rolls, Environment::SWAMP)
    }

    /// The decision for a cell in row `y` with causal neighbors `ctx`, given the outcome of the
    /// water roll and the rolls of the chosen ladder.
    pub fn decide_cell(ctx: &Vec<Environment>, y: u32, max_y: u32, water: bool, rolls: &Vec<bool>) -> (r: Environment)
        requires
            ctx@.len() <= 4,
            y <= max_y,
            1 <= max_y <= u16::MAX,
            water ==> rolls@.len() == water_stages(y as int, max_y as int).len(),
            !water ==> rolls@.len() == land_stages_around(ctx@, y as int, max_y as int).len(),
        ensures
            r == cell_decision(ctx@, y as int, max_y as int, water, rolls@),
    {
        if water {
            Self::generate_water(y, max_y, rolls)
        } else {
            Self::generate_land(ctx, y, max_y, rolls)
        }
    }

    /// Out of ten, the odds that a cell in row `y` with causal neighbors `ctx` becomes water:
    /// 4 next to mostly land and 7 otherwise, plus 3 within the polar band and 1 outside it.
    pub fn water_odds(ctx: &Vec<Environment>, y: u32, max_y: u32) -> (r: u32)
        requires
            ctx@.len() <= 4,
            y <= max_y,
        ensures
            r == water_numerator(ctx@, y as int, max_y as int),
            1 <= r <= 10,
    {
        let base: u32 = if Self::is_mostly_land(ctx) { 4 } else { 7 };
        let polar = if y < max_y - y { y } else { max_y - y };
        let bonus: u32 = if polar < max_y / 7 { 3 } else { 1 };
        base + bonus
    }

    /// Decides cell `(x, y)` from its latitude and its causal neighbors, and stores the result.
    pub fn generate_hex(map: &mut HexMap, x: usize, y: usize, rng: &mut RandomSource) -> (r: Environment)
        requires
            old(map).wf(),
            x < old(map).width(),
            y < old(map).height(),
            old(map).height() <= u16::MAX,
        ensures
            final(map).wf(),
            old(map).updated(final(map), x as int, y as int, r),
            cell_allowed(old(map).causal_neighbors_spec(x as int, y as int), y as int, old(map).height() - 1, r),
    {
        let max_y = (map.height_of() - 1) as u32;
        let yy = y as u32;
        let ctx = map.causal_neighbors(x, y);
        let water = rng.ratio(Self::water_odds(&ctx, yy, max_y), 10);
        // every rung of the chosen ladder is rolled up front: the rolls are independent, so the
        // first success is distributed as when rolling stops at it
        let stages = if water {
            Self::water_chances(yy, max_y)
        } else {
            Self::land_chances_around(&ctx, yy, max_y)
        };
        let rolls = Self::roll_ladder(&stages, rng);
        let env = Self::decide_cell(&ctx, yy, max_y, water, &rolls);
        proof {
            if water {
                lemma_first_fired_allowed(stages@, rolls@, Environment::ARCTIC);
            } else {
                lemma_first_fired_allowed(stages@, rolls@, Environment::SWAMP);
            }
        }
        map.set(x, y, env);
        env
    }

    /// Fills every cell in one row-major pass. Each cell is a possible outcome of its ladders
    /// given its causal neighbors, which no later cell changes, and respects the latitude bands.
    pub fn populate(&self, map: &mut HexMap, rng: &mut RandomSource)
        requires
            old(map).wf(),
            old(map).height() <= u16::MAX,
        ensures
            final(map).wf(),
            old(map).same_shape(final(map)),
            final(map).fully_generated(),
            forall|x: int, y: int|
                0 <= y < final(map).height() && 0 <= x < final(map).width() ==> cell_allowed(
                    final(map).causal_neighbors_spec(x, y),
                    y,
                    final(map).height() - 1,
                    #[trigger] final(map).env(x, y),
                ),
            forall|x: int, y: int|
                0 <= y < final(map).height() && 0 <= x < final(map).width()
                    ==> latitude_consistent(#[trigger] final(map).env(x, y), y, final(map).height() - 1),
    {
        let ghost start = *map;
        let h = map.height_of();
        let w = map.width_of();
        let mut y: usize = 0;
        while y < h
            invariant
                map.wf(),
                start.same_shape(map),
                map.height() == h == start.height(),
                map.width() == w == start.width(),
                h <= u16::MAX,
                y <= h,
                forall|i: int, j: int|
                    0 <= j < h && 0 <= i < w && visited_before(i, j, 0, y as int) ==> cell_allowed(
                        map.causal_neighbors_spec(i, j),
                        j,
                        h - 1,
                        #[trigger] map.env(i, j),
                    ),
            decreases h - y,
        {
            let mut x: usize = 0;
            while x < w
                invariant
                    map.wf(),
                    start.same_shape(map),
                    map.height() == h == start.height(),
                    map.width() == w == start.width(),
                    h <= u16::MAX,
                    y < h,
                    x <= w,
                    forall|i: int, j: int|
                        0 <= j < h && 0 <= i < w && visited_before(i, j, x as int, y as int) ==> cell_allowed(
                            map.causal_neighbors_spec(i, j),
                            j,
                            h - 1,
                            #[trigger] map.env(i, j),
                        ),
                decreases w - x,
            {
                let ghost before = *map;
                let e = Self::generate_hex(map, x, y, rng);
                proof {
                    Self::lemma_populate_step(before, *map, x as int, y as int, e);
                }
                x = x + 1;
            }
            proof {
                assert forall|i: int, j: int|
                    0 <= j < h && 0 <= i < w && visited_before(i, j, 0, y as int + 1) implies cell_allowed(
                        map.causal_neighbors_spec(i, j),
                        j,
                        h - 1,
                        #[trigger] map.env(i, j),
                    ) by {
                    assert(visited_before(i, j, w as int, y as int));
                }
            }
            y = y + 1;
        }
        proof {
            assert forall|i: int, j: int| 0 <= j < h && 0 <= i < w implies latitude_consistent(
                #[trigger] map.env(i, j),
                j,
                h - 1,
            ) by {
                assert(visited_before(i, j, 0, h as int));
                lemma_cell_latitude(map.causal_neighbors_spec(i, j), j, h - 1, map.env(i, j));
            }
        }
    }

    /// Deciding cell `(x, y)` keeps the decisions of the cells before it valid.
    proof fn lemma_populate_step(before: HexMap, after: HexMap, x: int, y: int, e: Environment)
        requires
            before.wf(),
            0 <= x < before.width(),
            0 <= y < before.height(),
            before.updated(&after, x, y, e),
            cell_allowed(before.causal_neighbors_spec(x, y), y, before.height() - 1, e),
            forall|i: int, j: int|
                0 <= j < before.height() && 0 <= i < before.width() && visited_before(i, j, x, y) ==> cell_allowed(
                    before.causal_neighbors_spec(i, j),
                    j,
                    before.height() - 1,
                    #[trigger] before.env(i, j),
                ),
        ensures
            forall|i: int, j: int|
                0 <= j < before.height() && 0 <= i < before.width() && visited_before(i, j, x + 1, y) ==> cell_allowed(
                    after.causal_neighbors_spec(i, j),
                    j,
                    before.height() - 1,
                    #[trigger] after.env(i, j),
                ),
    {
        let (w, h) = (before.width(), before.height());
        assert forall|i: int, j: int|
            0 <= j < h && 0 <= i < w && visited_before(i, j, x + 1, y) implies cell_allowed(
                after.causal_neighbors_spec(i, j),
                j,
                h - 1,
                #[trigger] after.env(i, j),
            ) by {
            assert forall|k: int, l: int|
                0 <= l < h && 0 <= k < w && visited_before(k, l, i, j) implies #[trigger] before.env(k, l) == after.env(k, l) by {
                assert(!(k == x && l == y));
            }
            lemma_causal_frame(before, after, i, j);
            if !(i == x && j == y) {
                assert(after.env(i, j) == before.env(i, j));
            }
        }
    }

    /// This strategy defines no smoothing pass: the map is left as it is.
    pub fn smooth(&self, map: &mut HexMap, _rng: &mut RandomSource) -> (r: Result<(), MapError>)
        ensures
            r == Err::<(), MapError>(MapError::SmoothingUnsupported),
            *final(map) == *old(map),
    {
        Err(MapError::SmoothingUnsupported)
    }
}

} // verus!
