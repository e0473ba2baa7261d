use pf2e_terrain_gen::environment::Environment;
use pf2e_terrain_gen::grid::{HexMap, MapError};
use pf2e_terrain_gen::map_state::Strategy;
use pf2e_terrain_gen::procedural_gen::{Chance, ProceduralGenerator};
use pf2e_terrain_gen::random::RandomSource;
use pf2e_terrain_gen::random_gen::{pick_weighted, RandomGenerator};

fn empty(w: u16, h: u16) -> HexMap {
    HexMap::create_empty((w, h)).ok().expect("valid dimensions")
}

fn all_cells(m: &HexMap) -> Vec<Environment> {
    m.tiles.iter().flat_map(|row| row.iter().map(|h| h.environment)).collect()
}

#[test]
fn weighted_populate_four_by_four_leaves_no_none() {
    let mut m = empty(4, 4);
    let mut rng = RandomSource::from_seed(7);
    RandomGenerator::new().populate(&mut m, &mut rng);
    let cells = all_cells(&m);
    assert_eq!(cells.len(), 16);
    assert!(cells.iter().all(|e| *e != Environment::NONE));
}

#[test]
fn weighted_populate_draws_only_kinds_with_base_chance() {
    let mut m = empty(20, 20);
    let mut rng = RandomSource::from_seed(11);
    RandomGenerator::new().populate(&mut m, &mut rng);
    for e in all_cells(&m) {
        assert!(matches!(
            e,
            Environment::AQUATIC
                | Environment::DESERT
                | Environment::FOREST
                | Environment::MOUNTAIN
                | Environment::PLAINS
        ));
    }
}

#[test]
fn zero_smoothing_iterations_leave_the_map_unchanged() {
    let mut m = empty(4, 4);
    let mut rng = RandomSource::from_seed(3);
    let strategy = Strategy::weighted_random();
    strategy.populate(&mut m, &mut rng);
    let before = m.tiles.clone();
    assert_eq!(strategy.smooth_times(&mut m, 0, &mut rng), Ok(()));
    assert_eq!(m.tiles, before);
}

#[test]
fn weighted_frequencies_follow_base_chances() {
    let mut m = empty(200, 200);
    let mut rng = RandomSource::from_seed(2024);
    let g = RandomGenerator::new();
    assert_eq!(g.total_base_chance, 44);
    g.populate(&mut m, &mut rng);
    let cells = all_cells(&m);
    let n = cells.len() as f64;
    for (e, w) in [
        (Environment::AQUATIC, 14.0),
        (Environment::DESERT, 4.0),
        (Environment::FOREST, 12.0),
        (Environment::MOUNTAIN, 6.0),
        (Environment::PLAINS, 8.0),
    ] {
        let seen = cells.iter().filter(|c| **c == e).count() as f64 / n;
        let expected = w / 44.0;
        assert!((seen - expected).abs() < 0.01, "{:?}: {} vs {}", e, seen, expected);
    }
}

#[test]
fn weighted_smoothing_keeps_map_generated() {
    let mut m = empty(10, 8);
    let mut rng = RandomSource::from_seed(5);
    let strategy = Strategy::weighted_random();
    strategy.populate(&mut m, &mut rng);
    assert_eq!(strategy.smooth_times(&mut m, 5, &mut rng), Ok(()));
    assert_eq!(m.height_of(), 8);
    assert_eq!(m.width_of(), 10);
    assert!(all_cells(&m).iter().all(|e| *e != Environment::NONE));
}

#[test]
fn roulette_selects_first_entry_whose_running_total_exceeds_draw() {
    let w = RandomGenerator::base_weights();
    assert_eq!(w, vec![0, 14, 0, 4, 12, 6, 8, 0, 0, 0, 0]);
    assert_eq!(pick_weighted(&w, 0), 1);
    assert_eq!(pick_weighted(&w, 13), 1);
    assert_eq!(pick_weighted(&w, 14), 3);
    assert_eq!(pick_weighted(&w, 17), 3);
    assert_eq!(pick_weighted(&w, 18), 4);
    assert_eq!(pick_weighted(&w, 30), 5);
    assert_eq!(pick_weighted(&w, 36), 6);
    assert_eq!(pick_weighted(&w, 43), 6);
    assert_eq!(RandomGenerator::select_base(0), Environment::AQUATIC);
    assert_eq!(RandomGenerator::select_base(14), Environment::DESERT);
    assert_eq!(RandomGenerator::select_base(43), Environment::PLAINS);
}

#[test]
fn transform_totals_and_selection() {
    assert_eq!(RandomGenerator::summed_terrain_base_chance(), 44);
    assert_eq!(RandomGenerator::total_transform_chance(Environment::NONE), 0);
    assert_eq!(RandomGenerator::total_transform_chance(Environment::AQUATIC), 5);
    assert_eq!(RandomGenerator::total_transform_chance(Environment::PLAINS), 10);
    assert_eq!(RandomGenerator::total_transform_chance(Environment::FOREST), 5);
    assert_eq!(RandomGenerator::total_transform_chance(Environment::MOUNTAIN), 13);
    assert_eq!(RandomGenerator::total_transform_chance(Environment::ARCTIC), 40);
    assert_eq!(RandomGenerator::total_transform_chance(Environment::DESERT), 0);
    assert_eq!(RandomGenerator::select_transform(Environment::AQUATIC, 4), Environment::ARCTIC);
    assert_eq!(RandomGenerator::select_transform(Environment::MOUNTAIN, 2), Environment::AERIAL);
    assert_eq!(RandomGenerator::select_transform(Environment::MOUNTAIN, 3), Environment::VOLCANIC);
    assert_eq!(RandomGenerator::select_transform(Environment::PLAINS, 4), Environment::DESERT);
    assert_eq!(RandomGenerator::select_transform(Environment::PLAINS, 5), Environment::SWAMP);
    assert_eq!(RandomGenerator::select_transform(Environment::ARCTIC, 39), Environment::GLACIER);
}

#[test]
fn transform_without_targets_keeps_the_cell() {
    let mut rng = RandomSource::from_seed(1);
    for _ in 0..20 {
        assert_eq!(RandomGenerator::transform_hex(Environment::DESERT, &mut rng), Environment::DESERT);
        assert_eq!(RandomGenerator::transform_hex(Environment::AQUATIC, &mut rng), Environment::ARCTIC);
        let m = RandomGenerator::transform_hex(Environment::MOUNTAIN, &mut rng);
        assert!(m == Environment::AERIAL || m == Environment::VOLCANIC);
    }
}

#[test]
fn majority_prefers_most_frequent_then_first() {
    let s = vec![Environment::AQUATIC, Environment::FOREST, Environment::FOREST, Environment::AQUATIC, Environment::PLAINS, Environment::FOREST, Environment::AQUATIC, Environment::DESERT];
    // Environment::AQUATIC and Environment::FOREST both occur three times; Environment::AQUATIC comes first
    assert_eq!(RandomGenerator::most_frequent(&s), 0);
    let t = vec![Environment::PLAINS, Environment::FOREST, Environment::FOREST, Environment::AQUATIC, Environment::FOREST, Environment::DESERT, Environment::AQUATIC, Environment::DESERT];
    assert_eq!(RandomGenerator::most_frequent(&t), 1);
    let u = vec![Environment::SWAMP];
    assert_eq!(RandomGenerator::most_frequent(&u), 0);
}

#[test]
fn smooth_hex_operations() {
    let mut m = empty(4, 4);
    for y in 0..4 {
        for x in 0..4 {
            m.set(x, y, Environment::FOREST);
        }
    }
    m.set(1, 1, Environment::DESERT);
    let mut rng = RandomSource::from_seed(9);
    // kept
    assert_eq!(RandomGenerator::smooth_hex(&mut m, 1, 1, 44, &mut rng), Environment::DESERT);
    assert_eq!(m.get(1, 1), Environment::DESERT);
    // transformed: a desert has no transform targets
    assert_eq!(RandomGenerator::smooth_hex(&mut m, 1, 1, 50, &mut rng), Environment::DESERT);
    // majority of the neighbors
    assert_eq!(RandomGenerator::smooth_hex(&mut m, 1, 1, 55, &mut rng), Environment::FOREST);
    assert_eq!(m.get(1, 1), Environment::FOREST);
}

#[test]
fn mostly_land_counts_generated_neighbors_only() {
    assert!(!ProceduralGenerator::is_mostly_land(&vec![]));
    assert!(!ProceduralGenerator::is_mostly_land(&vec![Environment::AQUATIC, Environment::FOREST, Environment::NONE]));
    assert!(ProceduralGenerator::is_mostly_land(&vec![Environment::FOREST, Environment::FOREST, Environment::AQUATIC]));
    assert!(ProceduralGenerator::is_mostly_land(&vec![Environment::NONE, Environment::NONE, Environment::MOUNTAIN]));
    assert!(!ProceduralGenerator::is_mostly_land(&vec![Environment::GLACIER, Environment::ARCTIC, Environment::DESERT, Environment::SWAMP]));
    assert_eq!(
        ProceduralGenerator::count_in_surroundings(&vec![Environment::MOUNTAIN, Environment::DESERT, Environment::AERIAL, Environment::MOUNTAIN], &vec![Environment::MOUNTAIN, Environment::DESERT, Environment::VOLCANIC]),
        3
    );
    assert_eq!(ProceduralGenerator::count_in_surroundings(&vec![Environment::AERIAL, Environment::AERIAL], &vec![Environment::AERIAL]), 2);
}

#[test]
fn water_chances_by_latitude() {
    // rows 0..=63: ice band of 7 rows at each pole
    let at_pole = ProceduralGenerator::water_chances(0, 63);
    assert_eq!(
        at_pole,
        vec![
            Chance { numerator: 14, denominator: 70, environment: Environment::AQUATIC },
            Chance { numerator: 14, denominator: 70, environment: Environment::GLACIER },
        ]
    );
    let near_pole = ProceduralGenerator::water_chances(60, 63);
    assert_eq!(near_pole[0], Chance { numerator: 38, denominator: 70, environment: Environment::AQUATIC });
    assert_eq!(near_pole[1], Chance { numerator: 8, denominator: 70, environment: Environment::GLACIER });
    let open = ProceduralGenerator::water_chances(7, 63);
    assert_eq!(open, vec![Chance { numerator: 1, denominator: 1, environment: Environment::AQUATIC }]);
}

#[test]
fn land_chances_by_latitude_and_context() {
    let eq = ProceduralGenerator::land_chances(31, 63, 0, 0);
    assert_eq!(eq[0], Chance { numerator: 210, denominator: 700, environment: Environment::DESERT });
    assert_eq!(eq[1], Chance { numerator: 3, denominator: 100, environment: Environment::AERIAL });
    assert_eq!(eq[2], Chance { numerator: 3, denominator: 100, environment: Environment::VOLCANIC });
    assert_eq!(eq[3], Chance { numerator: 0, denominator: 315, environment: Environment::PLAINS });
    assert_eq!(eq[4], Chance { numerator: 9, denominator: 20, environment: Environment::FOREST });
    assert_eq!(eq[5], Chance { numerator: 13, denominator: 20, environment: Environment::MOUNTAIN });
    let polar = ProceduralGenerator::land_chances(0, 63, 3, 2);
    assert_eq!(polar[0].numerator, 0);
    assert_eq!(polar[1].numerator, 0);
    assert_eq!(polar[2], Chance { numerator: 7, denominator: 100, environment: Environment::VOLCANIC });
    assert_eq!(polar[3], Chance { numerator: 124, denominator: 315, environment: Environment::PLAINS });
}

#[test]
fn ladder_takes_first_successful_rung_or_fallback() {
    let desert = Chance { numerator: 1, denominator: 5, environment: Environment::DESERT };
    let forest = Chance { numerator: 2, denominator: 5, environment: Environment::FOREST };
    let swamp = Chance { numerator: 3, denominator: 5, environment: Environment::SWAMP };
    let stages = vec![desert, forest, swamp];
    let pick = |rolls: Vec<bool>| ProceduralGenerator::pick_rung(&stages, &rolls, Environment::PLAINS);
    assert_eq!(pick(vec![false, true, true]), Environment::FOREST);
    assert_eq!(pick(vec![true, true, true]), Environment::DESERT);
    assert_eq!(pick(vec![false, false, true]), Environment::SWAMP);
    assert_eq!(pick(vec![false, false, false]), Environment::PLAINS);
    assert_eq!(ProceduralGenerator::pick_rung(&vec![], &vec![], Environment::MOUNTAIN), Environment::MOUNTAIN);
}

#[test]
fn rolled_ladder_respects_certain_rungs() {
    let mut rng = RandomSource::from_seed(4);
    let never = Chance { numerator: 0, denominator: 5, environment: Environment::DESERT };
    let always = Chance { numerator: 5, denominator: 5, environment: Environment::FOREST };
    for _ in 0..20 {
        let rolls = ProceduralGenerator::roll_ladder(&vec![never, always, never], &mut rng);
        assert_eq!(rolls, vec![false, true, false]);
    }
}

#[test]
fn water_cell_from_rolls() {
    // row 0 of rows 0..=63: ladder is open water, then glacier, then arctic
    assert_eq!(ProceduralGenerator::generate_water(0, 63, &vec![true, true]), Environment::AQUATIC);
    assert_eq!(ProceduralGenerator::generate_water(0, 63, &vec![false, true]), Environment::GLACIER);
    assert_eq!(ProceduralGenerator::generate_water(0, 63, &vec![false, false]), Environment::ARCTIC);
    // outside the ice band the only rung is open water
    assert_eq!(ProceduralGenerator::generate_water(20, 63, &vec![true]), Environment::AQUATIC);
}

#[test]
fn land_cell_from_rolls() {
    let ctx = vec![Environment::MOUNTAIN, Environment::AERIAL];
    let land = |rolls: Vec<bool>| ProceduralGenerator::generate_land(&ctx, 31, 63, &rolls);
    assert_eq!(land(vec![true, true, true, true, true, true]), Environment::DESERT);
    assert_eq!(land(vec![false, true, false, false, false, false]), Environment::AERIAL);
    assert_eq!(land(vec![false, false, true, false, false, false]), Environment::VOLCANIC);
    assert_eq!(land(vec![false, false, false, true, false, false]), Environment::PLAINS);
    assert_eq!(land(vec![false, false, false, false, true, true]), Environment::FOREST);
    assert_eq!(land(vec![false, false, false, false, false, true]), Environment::MOUNTAIN);
    assert_eq!(land(vec![false; 6]), Environment::SWAMP);
    let chances = ProceduralGenerator::land_chances_around(&ctx, 31, 63);
    assert_eq!(chances[1].numerator, 2);
    assert_eq!(chances[2].numerator, 5);
}

#[test]
fn cell_decision_picks_the_ladder_by_the_water_roll() {
    let ctx = vec![Environment::AQUATIC];
    assert_eq!(ProceduralGenerator::decide_cell(&ctx, 1, 63, true, &vec![false, true]), Environment::GLACIER);
    assert_eq!(
        ProceduralGenerator::decide_cell(&ctx, 1, 63, false, &vec![false, false, false, false, true, false]),
        Environment::FOREST
    );
}

#[test]
fn procedural_populate_leaves_no_none() {
    let mut m = empty(4, 4);
    let mut rng = RandomSource::from_seed(21);
    ProceduralGenerator {}.populate(&mut m, &mut rng);
    assert!(all_cells(&m).iter().all(|e| *e != Environment::NONE));
}

#[test]
fn procedural_ice_and_desert_stay_in_their_bands() {
    let (w, h) = (64u16, 64u16);
    let max_y = (h - 1) as usize;
    for seed in 0..4u64 {
        let mut m = empty(w, h);
        let mut rng = RandomSource::from_seed(seed);
        ProceduralGenerator {}.populate(&mut m, &mut rng);
        for y in 0..h as usize {
            let polar = y.min(max_y - y);
            let equatorial = (max_y / 2).abs_diff(y);
            for x in 0..w as usize {
                let e = m.get(x, y);
                assert_ne!(e, Environment::NONE);
                if e == Environment::GLACIER || e == Environment::ARCTIC {
                    assert!(polar < max_y / 8, "ice at row {}", y);
                }
                if e == Environment::DESERT {
                    assert!(equatorial < max_y / 8, "desert at row {}", y);
                }
            }
        }
    }
}

#[test]
fn procedural_smoothing_is_unsupported() {
    let mut m = empty(4, 4);
    let mut rng = RandomSource::from_seed(2);
    let before = m.tiles.clone();
    assert_eq!(ProceduralGenerator {}.smooth(&mut m, &mut rng), Err(MapError::SmoothingUnsupported));
    assert_eq!(m.tiles, before);
    let strategy = Strategy::procedural_latitude();
    assert_eq!(strategy.smooth_times(&mut m, 0, &mut rng), Ok(()));
    assert_eq!(strategy.smooth_times(&mut m, 2, &mut rng), Err(MapError::SmoothingUnsupported));
    assert_eq!(m.tiles, before);
}

#[test]
fn seeded_sources_reproduce_a_map() {
    let strategy = Strategy::weighted_random();
    let a = HexMap::generate((8, 8), 2, &strategy, &mut RandomSource::from_seed(99)).ok().unwrap();
    let b = HexMap::generate((8, 8), 2, &strategy, &mut RandomSource::from_seed(99)).ok().unwrap();
    assert_eq!(a.tiles, b.tiles);
}

#[test]
fn water_odds_by_neighbors_and_latitude() {
    // rows 0..=63: the polar band is 9 rows deep
    assert_eq!(ProceduralGenerator::water_odds(&vec![], 0, 63), 10);
    assert_eq!(ProceduralGenerator::water_odds(&vec![], 31, 63), 8);
    let land = vec![Environment::FOREST, Environment::PLAINS, Environment::AQUATIC];
    assert_eq!(ProceduralGenerator::water_odds(&land, 31, 63), 5);
    assert_eq!(ProceduralGenerator::water_odds(&land, 8, 63), 7);
    assert_eq!(ProceduralGenerator::water_odds(&land, 9, 63), 5);
}

#[test]
fn populate_with_draws_fills_each_cell_from_its_draw() {
    let mut m = empty(4, 2);
    let g = RandomGenerator::new();
    let draws = vec![vec![0, 13, 14, 17], vec![18, 30, 36, 43]];
    g.populate_with(&mut m, &draws);
    assert_eq!(
        all_cells(&m),
        vec![
            Environment::AQUATIC,
            Environment::AQUATIC,
            Environment::DESERT,
            Environment::DESERT,
            Environment::FOREST,
            Environment::MOUNTAIN,
            Environment::PLAINS,
            Environment::PLAINS,
        ]
    );
    let mut rng = RandomSource::from_seed(6);
    let grid = g.draw_grid(3, 5, &mut rng);
    assert_eq!(grid.len(), 5);
    assert!(grid.iter().all(|row| row.len() == 3 && row.iter().all(|n| *n < 44)));
}
