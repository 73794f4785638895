use vstd::prelude::*;

verus! {

/// Whether a tile is level or sloped towards a lower neighbor.
#[derive(Clone, Copy, Debug, PartialEq, Eq, Structural)]
pub enum TileKind {
    Floor,
    Ramp,
}

/// One of the four grid directions; north is towards smaller `y`.
#[derive(Clone, Copy, Debug, PartialEq, Eq, Structural)]
pub enum RampDirection {
    North,
    East,
    South,
    West,
}

/// The direction that follows `d` clockwise.
pub open spec fn next_dir(d: RampDirection) -> RampDirection {
    match d {
        RampDirection::North => RampDirection::East,
        RampDirection::East => RampDirection::South,
        RampDirection::South => RampDirection::West,
        RampDirection::West => RampDirection::North,
    }
}

/// The grid step of a direction, as (dx, dy).
pub open spec fn dir_offset(d: RampDirection) -> (int, int) {
    match d {
        RampDirection::North => (0, -1),
        RampDirection::East => (1, 0),
        RampDirection::South => (0, 1),
        RampDirection::West => (-1, 0),
    }
}

/// The directions in the fixed search order North, East, South, West.
pub open spec fn dir_at(i: int) -> RampDirection {
    if i == 0 {
        RampDirection::North
    } else if i == 1 {
        RampDirection::East
    } else if i == 2 {
        RampDirection::South
    } else {
        RampDirection::West
    }
}

impl RampDirection {
    pub fn next(self) -> (r: RampDirection)
        ensures
            r == next_dir(self),
    {
        match self {
            RampDirection::North => RampDirection::East,
            RampDirection::East => RampDirection::South,
            RampDirection::South => RampDirection::West,
            RampDirection::West => RampDirection::North,
        }
    }

    pub fn offset(self) -> (r: (i32, i32))
        ensures
            r.0 as int == dir_offset(self).0,
            r.1 as int == dir_offset(self).1,
    {
        match self {
            RampDirection::North => (0, -1),
            RampDirection::East => (1, 0),
            RampDirection::South => (0, 1),
            RampDirection::West => (-1, 0),
        }
    }
}

/// The surface material of a tile.
#[derive(Clone, Copy, Debug, PartialEq, Eq, Hash, Structural)]
pub enum TileType {
    Grass,
    Dirt,
    Sand,
    Rock,
}

/// The fixed layer index of a surface type (also its weight-map channel).
pub open spec fn type_index(t: TileType) -> nat {
    match t {
        TileType::Grass => 0,
        TileType::Dirt => 1,
        TileType::Sand => 2,
        TileType::Rock => 3,
    }
}

/// The surface type with layer index `i`.
pub open spec fn type_at(i: int) -> TileType {
    if i == 0 {
        TileType::Grass
    } else if i == 1 {
        TileType::Dirt
    } else if i == 2 {
        TileType::Sand
    } else {
        TileType::Rock
    }
}

pub open spec fn type_identifier(t: TileType) -> Seq<char> {
    match t {
        TileType::Grass => "grass"@,
        TileType::Dirt => "dirt"@,
        TileType::Sand => "sand"@,
        TileType::Rock => "rock"@,
    }
}

impl TileType {
    pub fn as_index(self) -> (r: usize)
        ensures
            r == type_index(self),
            r < 4,
    {
        match self {
            TileType::Grass => 0,
            TileType::Dirt => 1,
            TileType::Sand => 2,
            TileType::Rock => 3,
        }
    }

    pub fn identifier(self) -> (r: &'static str)
        ensures
            r@ == type_identifier(self),
    {
        match self {
            TileType::Grass => "grass",
            TileType::Dirt => "dirt",
            TileType::Sand => "sand",
            TileType::Rock => "rock",
        }
    }
}

impl Default for TileType {
    fn default() -> (r: TileType)
        ensures
            r == TileType::Grass,
    {
        TileType::Grass
    }
}

/// One cell of the grid. `elevation` counts height steps and may be negative;
/// `ramp_direction` only matters for ramp tiles.
#[derive(Clone, Copy, Debug, PartialEq, Eq, Structural)]
pub struct Tile {
    pub kind: TileKind,
    pub tile_type: TileType,
    pub x: u32,
    pub y: u32,
    pub elevation: i8,
    pub ramp_direction: Option<RampDirection>,
}

/// The tile every new grid is filled with.
pub open spec fn blank_tile() -> Tile {
    Tile {
        kind: TileKind::Floor,
        tile_type: TileType::Grass,
        x: 0,
        y: 0,
        elevation: 0,
        ramp_direction: None,
    }
}

/// A row-major grid of tiles: the tile at (x, y) is `tiles[y * width + x]`.
#[derive(Clone, Debug)]
pub struct TileMap {
    pub width: u32,
    pub height: u32,
    pub tiles: Vec<Tile>,
}

impl TileMap {
    /// The number of cells, `width * height`.
    pub open spec fn cells(&self) -> int {
        self.width as int * self.height as int
    }

    /// Well-formed: one tile per cell, and every cell index fits in 32 bits.
    pub open spec fn wf(&self) -> bool {
        &&& self.tiles@.len() == self.cells()
        &&& self.cells() <= u32::MAX as int
    }

    pub open spec fn in_bounds(&self, x: int, y: int) -> bool {
        0 <= x < self.width && 0 <= y < self.height
    }

    pub open spec fn index_of(&self, x: int, y: int) -> int {
        y * self.width + x
    }

    /// The tile at (x, y).
    pub open spec fn tile(&self, x: int, y: int) -> Tile {
        self.tiles@[self.index_of(x, y)]
    }

    pub fn new(w: u32, h: u32) -> (r: TileMap)
        requires
            w as int * h as int <= u32::MAX as int,
        ensures
            r.width == w,
            r.height == h,
            r.wf(),
            forall|i: int| 0 <= i < r.tiles@.len() ==> r.tiles@[i] == blank_tile(),
    {
        let n: u32 = w * h;
        let mut tiles: Vec<Tile> = Vec::new();
        let mut i: u32 = 0;
        while i < n
            invariant
                i <= n,
                tiles@.len() == i,
                forall|k: int| 0 <= k < tiles@.len() ==> tiles@[k] == blank_tile(),
            decreases n - i,
        {
            tiles.push(
                Tile {
                    kind: TileKind::Floor,
                    tile_type: TileType::default(),
                    elevation: 0,
                    x: 0,
                    y: 0,
                    ramp_direction: None,
                },
            );
            i = i + 1;
        }
        TileMap { width: w, height: h, tiles }
    }

    pub fn idx(&self, x: u32, y: u32) -> (r: usize)
        requires
            self.wf(),
            self.in_bounds(x as int, y as int),
        ensures
            r as int == self.index_of(x as int, y as int),
            r < self.tiles@.len(),
    {
        proof {
            lemma_index_in_range(self.width as int, self.height as int, x as int, y as int);
        }
        (y * self.width + x) as usize
    }

    pub fn get(&self, x: u32, y: u32) -> (r: &Tile)
        requires
            self.wf(),
            self.in_bounds(x as int, y as int),
        ensures
            *r == self.tile(x as int, y as int),
    {
        let i = self.idx(x, y);
        &self.tiles[i]
    }

    pub fn set(&mut self, x: u32, y: u32, t: Tile)
        requires
            old(self).wf(),
            old(self).in_bounds(x as int, y as int),
        ensures
            final(self).wf(),
            final(self).width == old(self).width,
            final(self).height == old(self).height,
            final(self).tiles@ == old(self).tiles@.update(
                old(self).index_of(x as int, y as int),
                t,
            ),
    {
        let i = self.idx(x, y);
        self.tiles.set(i, t);
    }
}

/// A cell inside a `w` by `h` grid has a row-major index below `w * h`.
pub proof fn lemma_index_in_range(w: int, h: int, x: int, y: int)
    requires
        0 <= x < w,
        0 <= y < h,
    ensures
        0 <= y * w + x < w * h,
{
    assert(y * w + x < w * h) by (nonlinear_arith)
        requires
            0 <= x < w,
            0 <= y < h,
    ;
    assert(0 <= y * w) by (nonlinear_arith)
        requires
            0 <= y,
            0 <= w,
    ;
}

} // verus!
