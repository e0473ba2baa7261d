pub mod environment;
pub mod grid;
pub mod random;
pub mod procedural_gen;
pub mod random_gen;
pub mod map_state;
pub mod viewport;
pub mod app_state;
