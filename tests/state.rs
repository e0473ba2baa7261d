use pf2e_terrain_gen::app_state::AppState;
use pf2e_terrain_gen::environment::Environment;
use pf2e_terrain_gen::grid::{HexMap, MapError};
use pf2e_terrain_gen::map_state::{MapState, Strategy};
use pf2e_terrain_gen::random::RandomSource;
use pf2e_terrain_gen::viewport::{ViewPortState, DEFAULT_ZOOM_LEVEL, MAX_ZOOM_LEVEL, MIN_ZOOM_LEVEL};

#[test]
fn new_state_generates_a_full_map() {
    let mut rng = RandomSource::from_seed(17);
    let s = MapState::new((6, 4), 3, Strategy::weighted_random(), &mut rng).ok().unwrap();
    assert_eq!(s.map_size, (6, 4));
    assert_eq!(s.iterations, 3);
    assert_eq!(s.map.height_of(), 4);
    assert_eq!(s.map.width_of(), 6);
    for y in 0..4 {
        for x in 0..6 {
            assert_ne!(s.environment_at(x, y), Environment::NONE);
        }
    }
}

#[test]
fn new_state_rejects_bad_dimensions() {
    let mut rng = RandomSource::from_seed(1);
    assert_eq!(MapState::new((3, 4), 0, Strategy::weighted_random(), &mut rng).err(), Some(MapError::Dimension));
    assert_eq!(MapState::new((4, 0), 0, Strategy::procedural_latitude(), &mut rng).err(), Some(MapError::Dimension));
    assert_eq!(
        MapState::new((4, 4), 1, Strategy::procedural_latitude(), &mut rng).err(),
        Some(MapError::SmoothingUnsupported)
    );
    assert!(MapState::new((4, 4), 0, Strategy::procedural_latitude(), &mut rng).is_ok());
}

#[test]
fn generate_reports_errors_in_order() {
    let mut rng = RandomSource::from_seed(1);
    let p = Strategy::procedural_latitude();
    assert_eq!(HexMap::generate((5, 4), 2, &p, &mut rng).err(), Some(MapError::Dimension));
    assert_eq!(HexMap::generate((4, 4), 2, &p, &mut rng).err(), Some(MapError::SmoothingUnsupported));
}

#[test]
fn regenerate_keeps_parameters_and_changes_cells() {
    let mut rng = RandomSource::from_seed(42);
    let mut s = MapState::new((32, 32), 2, Strategy::weighted_random(), &mut rng).ok().unwrap();
    let before = s.map.tiles.clone();
    assert_eq!(s.generate_map(&mut rng), Ok(()));
    assert_eq!(s.map_size, (32, 32));
    assert_eq!(s.iterations, 2);
    assert_eq!(s.map.height_of(), 32);
    assert_eq!(s.map.width_of(), 32);
    assert_ne!(s.map.tiles, before);
    assert!(s.map.tiles.iter().flatten().all(|h| h.environment != Environment::NONE));
}

#[test]
fn regenerate_procedural_map() {
    let mut rng = RandomSource::from_seed(8);
    let mut s = MapState::new((16, 16), 0, Strategy::procedural_latitude(), &mut rng).ok().unwrap();
    let before = s.map.tiles.clone();
    assert_eq!(s.generate_map(&mut rng), Ok(()));
    assert_eq!(s.map_size, (16, 16));
    assert_eq!(s.iterations, 0);
    assert_ne!(s.map.tiles, before);
}

#[test]
fn viewport_starts_at_origin_with_default_zoom() {
    let v = ViewPortState::new();
    assert_eq!(v.offset, (0, 0));
    assert_eq!(v.zoom_level, DEFAULT_ZOOM_LEVEL);
}

#[test]
fn viewport_pans_only_with_left_button() {
    let mut v = ViewPortState::new();
    v.pan(5, -3, true);
    assert_eq!(v.offset, (-5, 3));
    v.pan(100, 100, false);
    assert_eq!(v.offset, (-5, 3));
}

#[test]
fn viewport_zoom_steps_and_limits() {
    let mut v = ViewPortState::new();
    v.zoom(3, true);
    assert_eq!(v.zoom_level, 46);
    v.zoom(2, false);
    assert_eq!(v.zoom_level, 42);
    v.zoom(1000, true);
    assert_eq!(v.zoom_level, MAX_ZOOM_LEVEL);
    v.zoom(1000, false);
    assert_eq!(v.zoom_level, MIN_ZOOM_LEVEL);
}

#[test]
fn app_state_holds_both_parts() {
    let mut rng = RandomSource::from_seed(3);
    let app = AppState {
        viewport_state: ViewPortState::new(),
        map_state: MapState::new((4, 4), 0, Strategy::weighted_random(), &mut rng).ok().unwrap(),
    };
    assert_eq!(app.map_state.map_size, (4, 4));
    assert_eq!(app.viewport_state.zoom_level, DEFAULT_ZOOM_LEVEL);
}
