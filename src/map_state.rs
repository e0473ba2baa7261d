use vstd::prelude::*;
use crate::environment::Environment;
use crate::grid::{HexMap, MapError, valid_dimensions};
use crate::procedural_gen::{ProceduralGenerator, cell_allowed, latitude_consistent};
use crate::random::RandomSource;
use crate::random_gen::{RandomGenerator, base_chance, smoothing_pass};

verus! {

/// The generation strategy of a map.
#[derive(Clone, Copy)]
pub enum Strategy {
    WeightedRandom(RandomGenerator),
    ProceduralLatitude(ProceduralGenerator),
}

impl Strategy {
    pub open spec fn wf(&self) -> bool {
        match self {
            Strategy::WeightedRandom(g) => g.wf(),
            Strategy::ProceduralLatitude(_) => true,
        }
    }

    /// Whether the strategy defines a smoothing pass.
    pub open spec fn smooths(&self) -> bool {
        self is WeightedRandom
    }

    /// What a finished map of this strategy holds in every cell: for the weighted strategy an
    /// environment with a positive base chance, for the procedural one a possible outcome of its
    /// ladders given its causal neighbors, within the latitude bands.
    pub open spec fn populated(&self, m: HexMap) -> bool {
        &&& m.fully_generated()
        &&& match self {
            Strategy::WeightedRandom(_) => forall|x: int, y: int|
                0 <= y < m.height() && 0 <= x < m.width() ==> base_chance(#[trigger] m.env(x, y)) > 0,
            Strategy::ProceduralLatitude(_) => forall|x: int, y: int|
                0 <= y < m.height() && 0 <= x < m.width() ==> {
                    &&& cell_allowed(m.causal_neighbors_spec(x, y), y, m.height() - 1, #[trigger] m.env(x, y))
                    &&& latitude_consistent(m.env(x, y), y, m.height() - 1)
                },
        }
    }

    pub fn weighted_random() -> (r: Strategy)
        ensures
            r.wf(),
            r is WeightedRandom,
    {
        Strategy::WeightedRandom(RandomGenerator::new())
    }

    pub fn procedural_latitude() -> (r: Strategy)
        ensures
            r.wf(),
            r is ProceduralLatitude,
    {
        Strategy::ProceduralLatitude(ProceduralGenerator {})
    }

    /// Whether the strategy defines a smoothing pass.
    pub fn has_smoothing(&self) -> (r: bool)
        ensures
            r == self.smooths(),
    {
        match self {
            Strategy::WeightedRandom(_) => true,
            Strategy::ProceduralLatitude(_) => false,
        }
    }

    /// Fills every cell of `map`.
    pub fn populate(&self, map: &mut HexMap, rng: &mut RandomSource)
        requires
            self.wf(),
            old(map).wf(),
            old(map).height() <= u16::MAX,
        ensures
            final(map).wf(),
            old(map).same_shape(final(map)),
            self.populated(*final(map)),
    {
        match self {
            Strategy::WeightedRandom(g) => g.populate(map, rng),
            Strategy::ProceduralLatitude(g) => g.populate(map, rng),
        }
    }

    /// One smoothing pass, or `MapError::SmoothingUnsupported` with the map untouched when the
    /// strategy defines none.
    pub fn smooth(&self, map: &mut HexMap, rng: &mut RandomSource) -> (r: Result<(), MapError>)
        requires
            old(map).wf(),
        ensures
            final(map).wf(),
            old(map).same_shape(final(map)),
            r is Ok <==> self.smooths(),
            r is Ok ==> smoothing_pass(*old(map), *final(map)),
            r is Err ==> r == Err::<(), MapError>(MapError::SmoothingUnsupported) && *final(map) == *old(map),
            old(map).fully_generated() ==> final(map).fully_generated(),
    {
        match self {
            Strategy::WeightedRandom(g) => {
                g.smooth(map, rng);
                Ok(())
            },
            Strategy::ProceduralLatitude(g) => g.smooth(map, rng),
        }
    }

    /// `iterations` smoothing passes. With none the map is untouched; a strategy without
    /// smoothing fails on the first pass and leaves the map untouched.
    pub fn smooth_times(&self, map: &mut HexMap, iterations: u16, rng: &mut RandomSource) -> (r: Result<(), MapError>)
        requires
            old(map).wf(),
        ensures
            final(map).wf(),
            old(map).same_shape(final(map)),
            r is Ok <==> (iterations == 0 || self.smooths()),
            r is Err ==> r == Err::<(), MapError>(MapError::SmoothingUnsupported) && *final(map) == *old(map),
            iterations == 0 ==> *final(map) == *old(map),
            old(map).fully_generated() ==> final(map).fully_generated(),
    {
        if iterations > 0 && !self.has_smoothing() {
            return Err(MapError::SmoothingUnsupported);
        }
        let ghost start = *map;
        let mut i: u16 = 0;
        while i < iterations
            invariant
                map.wf(),
                start.same_shape(map),
                i <= iterations,
                iterations > 0 ==> self.smooths(),
                i == 0 ==> *map == start,
                start.fully_generated() ==> map.fully_generated(),
            decreases iterations - i,
        {
            let _ = self.smooth(map, rng);
            i = i + 1;
        }
        Ok(())
    }
}

impl HexMap {
    /// A new map: empty cells populated by `strategy`, then `iterations` smoothing passes.
    /// Fails with `MapError::Dimension` on invalid dimensions, and with
    /// `MapError::SmoothingUnsupported` when smoothing is asked of a strategy without it.
    pub fn generate(dimensions: (u16, u16), iterations: u16, strategy: &Strategy, rng: &mut RandomSource) -> (r: Result<HexMap, MapError>)
        requires
            strategy.wf(),
        ensures
            r is Ok <==> valid_dimensions(dimensions.0 as int, dimensions.1 as int) && (iterations == 0 || strategy.smooths()),
            !valid_dimensions(dimensions.0 as int, dimensions.1 as int) ==> r == Err::<HexMap, MapError>(MapError::Dimension),
            valid_dimensions(dimensions.0 as int, dimensions.1 as int) && !(iterations == 0 || strategy.smooths())
                ==> r == Err::<HexMap, MapError>(MapError::SmoothingUnsupported),
            r matches Ok(m) ==> {
                &&& m.wf()
                &&& m.width() == dimensions.0
                &&& m.height() == dimensions.1
                &&& m.fully_generated()
                &&& strategy is ProceduralLatitude ==> strategy.populated(m)
                &&& iterations == 0 ==> strategy.populated(m)
            },
    {
        let mut map = match HexMap::create_empty(dimensions) {
            Ok(m) => m,
            Err(e) => return Err(e),
        };
        match MapState::generate(&mut map, iterations, strategy, rng) {
            Ok(()) => Ok(map),
            Err(e) => Err(e),
        }
    }
}

/// A generated map together with the parameters it was generated with.
pub struct MapState {
    pub map: HexMap,
    /// Width and height of the map.
    pub map_size: (u16, u16),
    /// Number of smoothing passes after population.
    pub iterations: u16,
    pub strategy: Strategy,
}

impl MapState {
    /// The map matches `map_size` and the strategy is well formed.
    pub open spec fn wf(&self) -> bool {
        &&& self.map.wf()
        &&& self.map.width() == self.map_size.0
        &&& self.map.height() == self.map_size.1
        &&& self.strategy.wf()
    }

    /// Populates `map` with `strategy`, then runs `iterations` smoothing passes. When the
    /// strategy cannot smooth and passes are asked for, fails before touching the map.
    pub fn generate(map: &mut HexMap, iterations: u16, strategy: &Strategy, rng: &mut RandomSource) -> (r: Result<(), MapError>)
        requires
            strategy.wf(),
            old(map).wf(),
            old(map).height() <= u16::MAX,
        ensures
            final(map).wf(),
            old(map).same_shape(final(map)),
            r is Ok <==> (iterations == 0 || strategy.smooths()),
            r is Err ==> r == Err::<(), MapError>(MapError::SmoothingUnsupported) && *final(map) == *old(map),
            r is Ok ==> final(map).fully_generated(),
            r is Ok && strategy is ProceduralLatitude ==> strategy.populated(*final(map)),
            r is Ok && iterations == 0 ==> strategy.populated(*final(map)),
    {
        if iterations > 0 && !strategy.has_smoothing() {
            return Err(MapError::SmoothingUnsupported);
        }
        strategy.populate(map, rng);
        let r = strategy.smooth_times(map, iterations, rng);
        r
    }

    /// A state whose map is generated right away with `strategy`. Fails as `HexMap::generate`
    /// does.
    pub fn new(dimensions: (u16, u16), iterations: u16, strategy: Strategy, rng: &mut RandomSource) -> (r: Result<MapState, MapError>)
        requires
            strategy.wf(),
        ensures
            r is Ok <==> valid_dimensions(dimensions.0 as int, dimensions.1 as int) && (iterations == 0 || strategy.smooths()),
            !valid_dimensions(dimensions.0 as int, dimensions.1 as int) ==> r == Err::<MapState, MapError>(MapError::Dimension),
            valid_dimensions(dimensions.0 as int, dimensions.1 as int) && !(iterations == 0 || strategy.smooths())
                ==> r == Err::<MapState, MapError>(MapError::SmoothingUnsupported),
            r matches Ok(s) ==> {
                &&& s.wf()
                &&& s.map_size == dimensions
                &&& s.iterations == iterations
                &&& s.strategy == strategy
                &&& s.map.fully_generated()
                &&& (strategy is ProceduralLatitude || iterations == 0) ==> strategy.populated(s.map)
            },
    {
        match HexMap::generate(dimensions, iterations, &strategy, rng) {
            Ok(map) => Ok(MapState { map, map_size: dimensions, iterations, strategy }),
            Err(e) => Err(e),
        }
    }

    /// Regenerates the map in place with the same size, passes and strategy.
    pub fn generate_map(&mut self, rng: &mut RandomSource) -> (r: Result<(), MapError>)
        requires
            old(self).wf(),
        ensures
            final(self).wf(),
            final(self).map_size == old(self).map_size,
            final(self).iterations == old(self).iterations,
            final(self).strategy == old(self).strategy,
            r is Ok <==> (old(self).iterations == 0 || old(self).strategy.smooths()),
            r is Err ==> r == Err::<(), MapError>(MapError::SmoothingUnsupported) && *final(self) == *old(self),
            r is Ok ==> final(self).map.fully_generated(),
            r is Ok && old(self).iterations == 0 ==> old(self).strategy.populated(final(self).map),
    {
        if self.iterations > 0 && !self.strategy.has_smoothing() {
            return Err(MapError::SmoothingUnsupported);
        }
        let mut map = match HexMap::create_empty(self.map_size) {
            Ok(m) => m,
            Err(e) => return Err(e),
        };
        let r = MapState::generate(&mut map, self.iterations, &self.strategy, rng);
        self.map = map;
        r
    }

    /// The environment of cell `(x, y)`.
    pub fn environment_at(&self, x: usize, y: usize) -> (r: Environment)
        requires
            self.wf(),
            x < self.map_size.0,
            y < self.map_size.1,
        ensures
            r == self.map.env(x as int, y as int),
    {
        self.map.get(x, y)
    }
}

} // verus!
