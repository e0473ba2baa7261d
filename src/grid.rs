use vstd::prelude::*;
use crate::environment::Environment;

verus! {

/// A single cell of the map.
#[derive(Copy, Clone, PartialEq, Eq, Structural, Debug, Hash)]
pub struct Hex {
    pub environment: Environment,
}

/// The hex grid: `tiles[y][x]` is the cell in column `x` of row `y`.
pub struct HexMap {
    pub tiles: Vec<Vec<Hex>>,
}

/// Why a map could not be built or generated.
#[derive(Copy, Clone, PartialEq, Eq, Structural, Debug)]
pub enum MapError {
    /// A dimension is odd or smaller than 2, so the map cannot tile seamlessly.
    Dimension,
    /// The strategy defines no smoothing pass.
    SmoothingUnsupported,
}

/// Both dimensions are even and at least 2.
pub open spec fn valid_dimensions(width: int, height: int) -> bool {
    width % 2 == 0 && height % 2 == 0 && width >= 2 && height >= 2
}

/// The index before `i` on a ring of `n` positions.
pub open spec fn wrap_prev(i: int, n: int) -> int {
    if i > 0 {
        i - 1
    } else {
        n - 1
    }
}

/// The index after `i` on a ring of `n` positions.
pub open spec fn wrap_next(i: int, n: int) -> int {
    if i < n - 1 {
        i + 1
    } else {
        0
    }
}

/// Cell `(i, j)` comes before cell `(x, y)` in a row-major scan.
pub open spec fn visited_before(i: int, j: int, x: int, y: int) -> bool {
    j < y || (j == y && i < x)
}

impl HexMap {
    pub open spec fn height(&self) -> int {
        self.tiles@.len() as int
    }

    pub open spec fn width(&self) -> int {
        if self.tiles@.len() > 0 {
            self.tiles@[0]@.len() as int
        } else {
            0
        }
    }

    /// Every row has the same length and both dimensions are valid.
    pub open spec fn wf(&self) -> bool {
        &&& valid_dimensions(self.width(), self.height())
        &&& forall|y: int| 0 <= y < self.height() ==> #[trigger] self.tiles@[y]@.len() == self.width()
    }

    pub open spec fn env(&self, x: int, y: int) -> Environment {
        self.tiles@[y]@[x].environment
    }

    /// `other` has the same dimensions as `self`.
    pub open spec fn same_shape(&self, other: &HexMap) -> bool {
        &&& other.tiles@.len() == self.tiles@.len()
        &&& forall|y: int| 0 <= y < self.height() ==> #[trigger] other.tiles@[y]@.len() == self.tiles@[y]@.len()
    }

    /// `other` equals `self` but for cell `(x, y)`, which holds `e`.
    pub open spec fn updated(&self, other: &HexMap, x: int, y: int, e: Environment) -> bool {
        &&& self.same_shape(other)
        &&& other.env(x, y) == e
        &&& forall|i: int, j: int|
            0 <= j < self.height() && 0 <= i < self.width() && !(i == x && j == y)
                ==> #[trigger] other.env(i, j) == self.env(i, j)
    }

    /// Every cell holds `e`.
    pub open spec fn all_cells(&self, e: Environment) -> bool {
        forall|x: int, y: int| 0 <= y < self.height() && 0 <= x < self.width() ==> #[trigger] self.env(x, y) == e
    }

    /// No cell holds `Environment::NONE`.
    pub open spec fn fully_generated(&self) -> bool {
        forall|x: int, y: int|
            0 <= y < self.height() && 0 <= x < self.width() ==> #[trigger] self.env(x, y) != Environment::NONE
    }

    /// The eight neighbors of `(x, y)` on the torus: the row above (west, center, east),
    /// west and east on the same row, then the row below (west, center, east).
    pub open spec fn toroidal_neighbors_spec(&self, x: int, y: int) -> Seq<Environment> {
        let (w, h) = (self.width(), self.height());
        let (l, r) = (wrap_prev(x, w), wrap_next(x, w));
        let (a, b) = (wrap_prev(y, h), wrap_next(y, h));
        seq![
            self.env(l, a), self.env(x, a), self.env(r, a),
            self.env(l, y), self.env(r, y),
            self.env(l, b), self.env(x, b), self.env(r, b),
        ]
    }

    /// The neighbors of `(x, y)` that come earlier in a row-major scan: north, north-west and
    /// north-east where the row above exists, then west; the grid does not wrap here.
    pub open spec fn causal_neighbors_spec(&self, x: int, y: int) -> Seq<Environment> {
        let above: Seq<Environment> = if y > 0 {
            seq![self.env(x, y - 1)]
                + (if x > 0 { seq![self.env(x - 1, y - 1)] } else { Seq::empty() })
                + (if x < self.width() - 1 { seq![self.env(x + 1, y - 1)] } else { Seq::empty() })
        } else {
            Seq::empty()
        };
        above + (if x > 0 { seq![self.env(x - 1, y)] } else { Seq::empty() })
    }

    /// A `width` by `height` grid with every cell `NONE`, or `MapError::Dimension` when a
    /// dimension is odd or smaller than 2.
    pub fn create_empty(dimensions: (u16, u16)) -> (r: Result<HexMap, MapError>)
        ensures
            r is Ok <==> valid_dimensions(dimensions.0 as int, dimensions.1 as int),
            r is Err ==> r == Err::<HexMap, MapError>(MapError::Dimension),
            r matches Ok(m) ==> {
                &&& m.wf()
                &&& m.width() == dimensions.0
                &&& m.height() == dimensions.1
                &&& m.all_cells(Environment::NONE)
            },
    {
        let (width, height) = dimensions;
        if height % 2 != 0 || width % 2 != 0 || height < 2 || width < 2 {
            return Err(MapError::Dimension);
        }
        let empty = Hex { environment: Environment::NONE };
        let mut row: Vec<Hex> = Vec::new();
        let mut x: u16 = 0;
        while x < width
            invariant
                x <= width,
                row@.len() == x,
                forall|i: int| 0 <= i < x ==> #[trigger] row@[i] == empty,
            decreases width - x,
        {
            row.push(empty);
            x = x + 1;
        }
        let mut tiles: Vec<Vec<Hex>> = Vec::new();
        let mut y: u16 = 0;
        while y < height
            invariant
                y <= height,
                row@.len() == width,
                forall|i: int| 0 <= i < width ==> #[trigger] row@[i] == empty,
                tiles@.len() == y,
                forall|j: int| 0 <= j < y ==> #[trigger] tiles@[j]@ == row@,
            decreases height - y,
        {
            tiles.push(row.clone());
            y = y + 1;
        }
        let m = HexMap { tiles };
        assert(m.tiles@[0]@ == row@);
        Ok(m)
    }

    /// Number of rows.
    pub fn height_of(&self) -> (r: usize)
        ensures
            r == self.height(),
    {
        self.tiles.len()
    }

    /// Number of columns.
    pub fn width_of(&self) -> (r: usize)
        requires
            self.wf(),
        ensures
            r == self.width(),
    {
        self.tiles[0].len()
    }

    /// The environment of cell `(x, y)`.
    pub fn get(&self, x: usize, y: usize) -> (r: Environment)
        requires
            self.wf(),
            x < self.width(),
            y < self.height(),
        ensures
            r == self.env(x as int, y as int),
    {
        self.tiles[y][x].environment
    }

    /// Puts `e` into cell `(x, y)`.
    pub fn set(&mut self, x: usize, y: usize, e: Environment)
        requires
            old(self).wf(),
            x < old(self).width(),
            y < old(self).height(),
        ensures
            final(self).wf(),
            old(self).updated(final(self), x as int, y as int, e),
    {
        let ghost before = *self;
        self.tiles[y][x] = Hex { environment: e };
        assert(self.tiles@[y as int]@.len() == before.tiles@[y as int]@.len());
        assert(self.width() == before.width());
    }
    /// The eight neighbors of `(x, y)`, wrapping at every edge, in the order of
    /// `toroidal_neighbors_spec`.
    pub fn toroidal_neighbors(&self, x: usize, y: usize) -> (r: Vec<Environment>)
        requires
            self.wf(),
            x < self.width(),
            y < self.height(),
        ensures
            r@ == self.toroidal_neighbors_spec(x as int, y as int),
            r@.len() == 8,
    {
        let w = self.width_of();
        let h = self.height_of();
        let left = if x > 0 { x - 1 } else { w - 1 };
        let right = if x < w - 1 { x + 1 } else { 0 };
        let above = if y > 0 { y - 1 } else { h - 1 };
        let below = if y < h - 1 { y + 1 } else { 0 };
        assert(left == wrap_prev(x as int, w as int) && right == wrap_next(x as int, w as int));
        assert(above == wrap_prev(y as int, h as int) && below == wrap_next(y as int, h as int));
        let r: Vec<Environment> = vec![
            self.get(left, above), self.get(x, above), self.get(right, above),
            self.get(left, y), self.get(right, y),
            self.get(left, below), self.get(x, below), self.get(right, below),
        ];
        assert(r@ =~= self.toroidal_neighbors_spec(x as int, y as int));
        r
    }

    /// The already generated neighbors of `(x, y)` in a row-major scan, in the order of
    /// `causal_neighbors_spec`.
    pub fn causal_neighbors(&self, x: usize, y: usize) -> (r: Vec<Environment>)
        requires
            self.wf(),
            x < self.width(),
            y < self.height(),
        ensures
            r@ == self.causal_neighbors_spec(x as int, y as int),
            r@.len() <= 4,
    {
        let w = self.width_of();
        let mut r: Vec<Environment> = Vec::new();
        if y > 0 {
            r.push(self.get(x, y - 1));
            if x > 0 {
                r.push(self.get(x - 1, y - 1));
            }
            if x < w - 1 {
                r.push(self.get(x + 1, y - 1));
            }
        }
        if x > 0 {
            r.push(self.get(x - 1, y));
        }
        assert(r@ =~= self.causal_neighbors_spec(x as int, y as int));
        r
    }
}

/// On the torus the west neighbor of a cell in the first column is the cell in the last column
/// of the same row, and the north neighbor of a cell in the first row is the cell in the last
/// row of the same column.
pub proof fn lemma_toroidal_wrap(m: HexMap, x: int, y: int)
    requires
        m.wf(),
        0 <= x < m.width(),
        0 <= y < m.height(),
    ensures
        m.toroidal_neighbors_spec(0, y)[3] == m.env(m.width() - 1, y),
        m.toroidal_neighbors_spec(x, 0)[1] == m.env(x, m.height() - 1),
        m.toroidal_neighbors_spec(m.width() - 1, y)[4] == m.env(0, y),
        m.toroidal_neighbors_spec(x, m.height() - 1)[6] == m.env(x, 0),
{
}

/// The causal neighbors of `(x, y)` depend only on the cells before it in a row-major scan.
pub proof fn lemma_causal_frame(c1: HexMap, c2: HexMap, x: int, y: int)
    requires
        c1.wf(),
        c1.same_shape(&c2),
        0 <= x < c1.width(),
        0 <= y < c1.height(),
        forall|i: int, j: int|
            0 <= j < c1.height() && 0 <= i < c1.width() && visited_before(i, j, x, y)
                ==> #[trigger] c1.env(i, j) == c2.env(i, j),
    ensures
        c1.causal_neighbors_spec(x, y) == c2.causal_neighbors_spec(x, y),
{
    assert(c2.width() == c1.width());
    if y > 0 {
        assert(c1.env(x, y - 1) == c2.env(x, y - 1));
        if x > 0 {
            assert(c1.env(x - 1, y - 1) == c2.env(x - 1, y - 1));
        }
        if x < c1.width() - 1 {
            assert(c1.env(x + 1, y - 1) == c2.env(x + 1, y - 1));
        }
    }
    if x > 0 {
        assert(c1.env(x - 1, y) == c2.env(x - 1, y));
    }
    assert(c1.causal_neighbors_spec(x, y) =~= c2.causal_neighbors_spec(x, y));
}

} // verus!
