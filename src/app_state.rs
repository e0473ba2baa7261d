use vstd::prelude::*;
use crate::map_state::MapState;
use crate::viewport::ViewPortState;

verus! {

/// Everything the application keeps between frames.
pub struct AppState {
    pub viewport_state: ViewPortState,
    pub map_state: MapState,
}

} // verus!
