//! The tile grid: cells, tile kinds, the blocked mask and liquid stains.

use vstd::prelude::*;
use crate::liquids::StainSet;

verus! {

/// A grid cell, addressed by column `x` and row `y`.
#[derive(Clone, Copy, PartialEq, Eq, Structural, Debug)]
pub struct Point {
    pub x: i32,
    pub y: i32,
}

impl Point {
    pub fn new(x: i32, y: i32) -> (r: Point)
        ensures
            r == (Point { x, y }),
    {
        Point { x, y }
    }
}

/// Squared Euclidean distance between two cells, as unbounded math.
pub open spec fn squared_distance(a: Point, b: Point) -> int {
    (a.x - b.x) * (a.x - b.x) + (a.y - b.y) * (a.y - b.y)
}

/// Eight-directional adjacency: distinct cells whose coordinates differ by at
/// most one in each axis.
pub open spec fn adjacent(a: Point, b: Point) -> bool {
    a != b && -1 <= a.x - b.x <= 1 && -1 <= a.y - b.y <= 1
}

/// Whether two cells are within melee reach: Euclidean distance strictly
/// below one and a half, which over integer cells is exactly a squared
/// distance of at most two.
pub open spec fn in_melee_reach(a: Point, b: Point) -> bool {
    squared_distance(a, b) < 3
}

/// Decides melee reach; including a cell against itself.
pub fn melee_reach(a: Point, b: Point) -> (r: bool)
    requires
        -1000000 <= a.x <= 1000000,
        -1000000 <= a.y <= 1000000,
        -1000000 <= b.x <= 1000000,
        -1000000 <= b.y <= 1000000,
    ensures
        r == in_melee_reach(a, b),
{
    let dx: i64 = a.x as i64 - b.x as i64;
    let dy: i64 = a.y as i64 - b.y as i64;
    proof {
        assert(dx * dx <= 2000000 * 2000000 && dx * dx >= 0) by (nonlinear_arith)
            requires
                -2000000 <= dx <= 2000000,
        ;
        assert(dy * dy <= 2000000 * 2000000 && dy * dy >= 0) by (nonlinear_arith)
            requires
                -2000000 <= dy <= 2000000,
        ;
    }
    dx * dx + dy * dy < 3
}

/// What a tile is made of.
#[derive(Clone, Copy, PartialEq, Eq, Structural, Debug)]
pub enum TileType {
    Wall,
    Floor,
    DownStairs,
}

impl TileType {
    /// The tile kind's display name.
    pub fn name(self) -> (r: String)
        ensures
            self is Wall ==> r@ == "wall"@,
            self is Floor ==> r@ == "floor"@,
            self is DownStairs ==> r@ == "stairs down"@,
    {
        match self {
            TileType::Wall => String::from_str("wall"),
            TileType::Floor => String::from_str("floor"),
            TileType::DownStairs => String::from_str("stairs down"),
        }
    }
}

/// The tile grid with its blocked mask and per-tile liquid stains.
///
/// Tiles are stored row by row: the cell `(x, y)` lives at index
/// `y * width + x`.
pub struct Grid {
    pub width: i32,
    pub height: i32,
    pub tiles: Vec<TileType>,
    pub blocked: Vec<bool>,
    pub stains: Vec<StainSet>,
}

impl Grid {
    /// Well-formedness: positive bounded dimensions and one entry per cell in
    /// every per-tile vector.
    pub open spec fn wf(self) -> bool {
        &&& 1 <= self.width <= 1024
        &&& 1 <= self.height <= 1024
        &&& self.tiles.len() == self.width * self.height
        &&& self.blocked.len() == self.width * self.height
        &&& self.stains.len() == self.width * self.height
    }

    /// Whether a cell lies inside the grid.
    pub open spec fn spec_point_valid(self, p: Point) -> bool {
        0 <= p.x < self.width && 0 <= p.y < self.height
    }

    /// The row-major index of an in-bounds cell.
    pub open spec fn spec_idx(self, x: int, y: int) -> int {
        y * self.width + x
    }

    /// An in-bounds cell's index lies within every per-tile vector.
    pub proof fn lemma_idx_bounds(self, p: Point)
        requires
            self.wf(),
            self.spec_point_valid(p),
        ensures
            0 <= self.spec_idx(p.x as int, p.y as int) < self.width * self.height,
    {
        let w = self.width as int;
        let h = self.height as int;
        assert(p.y * w + p.x < h * w) by (nonlinear_arith)
            requires
                0 <= p.x < w,
                0 <= p.y < h,
        ;
        assert(h * w == w * h) by (nonlinear_arith);
    }

    /// A map whose tiles are all floor, unblocked and unstained.
    pub fn new(width: i32, height: i32) -> (r: Grid)
        requires
            1 <= width <= 1024,
            1 <= height <= 1024,
        ensures
            r.wf(),
            r.width == width,
            r.height == height,
            forall|i: int| 0 <= i < r.tiles.len() ==> r.tiles[i] is Floor,
            forall|i: int| 0 <= i < r.blocked.len() ==> !r.blocked[i],
            forall|i: int| 0 <= i < r.stains.len() ==> r.stains[i] == StainSet::none(),
    {
        proof {
            assert(width * height <= 1024 * 1024) by (nonlinear_arith)
                requires
                    1 <= width <= 1024 && 1 <= height <= 1024,
            ;
        }
        let count: usize = (width as usize) * (height as usize);
        let mut tiles: Vec<TileType> = Vec::new();
        let mut blocked: Vec<bool> = Vec::new();
        let mut stains: Vec<StainSet> = Vec::new();
        let mut i: usize = 0;
        while i < count
            invariant
                i <= count,
                tiles.len() == i,
                blocked.len() == i,
                stains.len() == i,
                forall|j: int| 0 <= j < i ==> tiles[j] is Floor,
                forall|j: int| 0 <= j < i ==> !blocked[j],
                forall|j: int| 0 <= j < i ==> stains[j] == StainSet::none(),
            decreases count - i,
        {
            tiles.push(TileType::Floor);
            blocked.push(false);
            stains.push(StainSet::empty());
            i = i + 1;
        }
        Grid { width, height, tiles, blocked, stains }
    }

    /// Whether a cell lies inside the grid.
    pub fn point_valid(&self, point: &Point) -> (r: bool)
        ensures
            r == self.spec_point_valid(*point),
    {
        point.x >= 0 && point.x < self.width && point.y >= 0 && point.y < self.height
    }

    /// The row-major index of an in-bounds coordinate pair.
    pub fn xy_idx(&self, x: i32, y: i32) -> (r: usize)
        requires
            self.wf(),
            0 <= x < self.width,
            0 <= y < self.height,
        ensures
            r == self.spec_idx(x as int, y as int),
            r < self.tiles.len(),
    {
        proof {
            self.lemma_idx_bounds(Point { x, y });
        }
        (y as usize) * (self.width as usize) + (x as usize)
    }

    /// The row-major index of an in-bounds cell.
    pub fn point_idx(&self, point: &Point) -> (r: usize)
        requires
            self.wf(),
            self.spec_point_valid(*point),
        ensures
            r == self.spec_idx(point.x as int, point.y as int),
            r < self.tiles.len(),
    {
        self.xy_idx(point.x, point.y)
    }

    /// Whether an in-bounds cell is blocked.
    pub open spec fn spec_blocked_at(self, p: Point) -> bool {
        self.blocked[self.spec_idx(p.x as int, p.y as int)]
    }

    /// Reads the blocked mask at a cell.
    pub fn blocked_at(&self, point: &Point) -> (r: bool)
        requires
            self.wf(),
            self.spec_point_valid(*point),
        ensures
            r == self.spec_blocked_at(*point),
    {
        let idx = self.point_idx(point);
        self.blocked[idx]
    }

    /// Sets one tile's kind, leaving every other per-tile entry unchanged.
    pub fn set_tile(&mut self, x: i32, y: i32, tile: TileType)
        requires
            old(self).wf(),
            0 <= x < old(self).width,
            0 <= y < old(self).height,
        ensures
            final(self).wf(),
            final(self).width == old(self).width,
            final(self).height == old(self).height,
            final(self).tiles@ == old(self).tiles@.update(
                old(self).spec_idx(x as int, y as int),
                tile,
            ),
            final(self).blocked == old(self).blocked,
            final(self).stains == old(self).stains,
    {
        let idx = self.xy_idx(x, y);
        self.tiles.set(idx, tile);
    }

    /// Rebuilds the blocked mask from the tiles: a cell is blocked exactly
    /// when its tile is a wall.
    pub fn populate_blocked(&mut self)
        requires
            old(self).wf(),
        ensures
            final(self).wf(),
            final(self).width == old(self).width,
            final(self).height == old(self).height,
            final(self).tiles == old(self).tiles,
            final(self).stains == old(self).stains,
            final(self).blocked.len() == old(self).blocked.len(),
            forall|i: int|
                0 <= i < final(self).blocked.len()
                    ==> final(self).blocked[i] == (old(self).tiles[i] is Wall),
    {
        let ghost orig = *self;
        let mut i: usize = 0;
        while i < self.tiles.len()
            invariant
                self.wf(),
                self.width == orig.width,
                self.height == orig.height,
                self.tiles == orig.tiles,
                self.stains == orig.stains,
                self.blocked.len() == orig.blocked.len(),
                i <= self.tiles.len(),
                forall|j: int| 0 <= j < i ==> self.blocked[j] == (orig.tiles[j] is Wall),
                forall|j: int|
                    i <= j < self.blocked.len() ==> self.blocked[j] == orig.blocked[j],
            decreases self.tiles.len() - i,
        {
            let is_wall = match self.tiles[i] {
                TileType::Wall => true,
                _ => false,
            };
            self.blocked.set(i, is_wall);
            i = i + 1;
        }
    }

    /// Adds a liquid stain at an in-bounds cell.
    pub fn add_stain(&mut self, point: &Point, liquid: crate::liquids::Liquid)
        requires
            old(self).wf(),
            old(self).spec_point_valid(*point),
        ensures
            final(self).wf(),
            final(self).width == old(self).width,
            final(self).height == old(self).height,
            final(self).tiles == old(self).tiles,
            final(self).blocked == old(self).blocked,
            final(self).stains@ == old(self).stains@.update(
                old(self).spec_idx(point.x as int, point.y as int),
                old(self).stains[old(self).spec_idx(point.x as int, point.y as int)].with(
                    liquid,
                ),
            ),
    {
        let idx = self.point_idx(point);
        let updated = self.stains[idx].with_liquid(liquid);
        self.stains.set(idx, updated);
    }
}

} // verus!
