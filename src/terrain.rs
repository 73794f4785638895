use vstd::prelude::*;
use crate::types::{dir_at, dir_offset, RampDirection, TileKind, TileMap};

verus! {

/// Heights of a tile's four top corners, in elevation steps.
#[derive(Clone, Copy, Debug, PartialEq, Eq, Structural)]
pub struct Corners {
    pub nw: i8,
    pub ne: i8,
    pub sw: i8,
    pub se: i8,
}

pub open spec fn flat_corners(h: i8) -> Corners {
    Corners { nw: h, ne: h, sw: h, se: h }
}

/// `base` everywhere except on the edge facing `d`, which drops to `h`.
pub open spec fn lowered_edge(base: i8, d: RampDirection, h: i8) -> Corners {
    match d {
        RampDirection::North => Corners { nw: h, ne: h, sw: base, se: base },
        RampDirection::South => Corners { nw: base, ne: base, sw: h, se: h },
        RampDirection::West => Corners { nw: h, ne: base, sw: h, se: base },
        RampDirection::East => Corners { nw: base, ne: h, sw: base, se: h },
    }
}

/// The cell next to (x, y) in direction `d`, when it lies on the grid.
pub open spec fn neighbor_cell(m: TileMap, x: int, y: int, d: RampDirection) -> Option<(int, int)> {
    let nx = x + dir_offset(d).0;
    let ny = y + dir_offset(d).1;
    if m.in_bounds(nx, ny) {
        Some((nx, ny))
    } else {
        None
    }
}

/// The elevation of the neighbor in direction `d` when it exists and is
/// strictly below `base`.
pub open spec fn downhill_height(m: TileMap, x: int, y: int, d: RampDirection, base: i8) -> Option<i8> {
    match neighbor_cell(m, x, y, d) {
        Some((nx, ny)) => {
            let h = m.tile(nx, ny).elevation;
            if h < base {
                Some(h)
            } else {
                None
            }
        },
        None => None,
    }
}

/// The downhill neighbor chosen among the first `k` directions of the search
/// order: the lowest one, the earlier direction on a tie.
pub open spec fn ramp_search(m: TileMap, x: int, y: int, base: i8, k: int) -> Option<(RampDirection, i8)>
    decreases k,
{
    if k <= 0 {
        None
    } else {
        let prev = ramp_search(m, x, y, base, k - 1);
        match downhill_height(m, x, y, dir_at(k - 1), base) {
            Some(h) => match prev {
                Some((pd, e)) => if e <= h {
                    prev
                } else {
                    Some((dir_at(k - 1), h))
                },
                None => Some((dir_at(k - 1), h)),
            },
            None => prev,
        }
    }
}

/// The position of a direction in the search order North, East, South, West.
pub open spec fn dir_index(d: RampDirection) -> int {
    match d {
        RampDirection::North => 0,
        RampDirection::East => 1,
        RampDirection::South => 2,
        RampDirection::West => 3,
    }
}

/// The edge a ramp tile slopes towards and the height it drops to: its
/// stored direction when that neighbor is downhill, else the search result.
pub open spec fn ramp_target(m: TileMap, x: int, y: int) -> Option<(RampDirection, i8)> {
    let t = m.tile(x, y);
    let base = t.elevation;
    let stored = match t.ramp_direction {
        Some(d) => match downhill_height(m, x, y, d, base) {
            Some(h) => Some((d, h)),
            None => None,
        },
        None => None,
    };
    if stored.is_some() {
        stored
    } else {
        ramp_search(m, x, y, base, 4)
    }
}

/// The resolved corner heights of the tile at (x, y).
#[verifier::opaque]
pub open spec fn corners_of(m: TileMap, x: int, y: int) -> Corners {
    let t = m.tile(x, y);
    if t.kind != TileKind::Ramp {
        flat_corners(t.elevation)
    } else {
        match ramp_target(m, x, y) {
            Some((d, h)) => lowered_edge(t.elevation, d, h),
            None => flat_corners(t.elevation),
        }
    }
}

fn ramp_neighbor_height(map: &TileMap, x: u32, y: u32, dir: RampDirection, base: i8) -> (r: Option<i8>)
    requires
        map.wf(),
        map.in_bounds(x as int, y as int),
    ensures
        r == downhill_height(*map, x as int, y as int, dir, base),
{
    let (dx, dy) = dir.offset();
    let nx: i64 = x as i64 + dx as i64;
    let ny: i64 = y as i64 + dy as i64;
    if nx < 0 || ny < 0 {
        return None;
    }
    if nx >= map.width as i64 || ny >= map.height as i64 {
        return None;
    }
    let neighbor = map.get(nx as u32, ny as u32);
    let height = neighbor.elevation;
    if height < base {
        Some(height)
    } else {
        None
    }
}

/// The lower neighbor a ramp at (x, y) with elevation `base` slopes towards
/// when it has no usable stored direction: none when no neighbor is lower,
/// else the lowest one, the first in the order North, East, South, West on a
/// tie.
pub fn find_ramp_target(map: &TileMap, x: u32, y: u32, base: i8) -> (r: Option<(RampDirection, i8)>)
    requires
        map.wf(),
        map.in_bounds(x as int, y as int),
    ensures
        r == ramp_search(*map, x as int, y as int, base, 4),
        r is None <==> forall|j: int|
            0 <= j < 4 ==> downhill_height(*map, x as int, y as int, #[trigger] dir_at(j), base) is None,
        r matches Some((d, h)) ==> {
            &&& downhill_height(*map, x as int, y as int, d, base) == Some(h)
            &&& forall|j: int|
                #![trigger dir_at(j)]
                0 <= j < 4 ==> (downhill_height(*map, x as int, y as int, dir_at(j), base) matches Some(
                    h2,
                ) ==> h <= h2)
            &&& forall|j: int|
                #![trigger dir_at(j)]
                0 <= j < dir_index(d) ==> (downhill_height(*map, x as int, y as int, dir_at(j), base) matches Some(
                    h2,
                ) ==> h < h2)
        },
{
    proof {
        lemma_ramp_search_first_lowest(*map, x as int, y as int, base, 4);
    }
    let dirs = [RampDirection::North, RampDirection::East, RampDirection::South, RampDirection::West];
    let mut result: Option<(RampDirection, i8)> = None;
    let mut i: usize = 0;
    while i < 4
        invariant
            i <= 4,
            map.wf(),
            map.in_bounds(x as int, y as int),
            forall|k: int| 0 <= k < 4 ==> dirs@[k] == dir_at(k),
            result == ramp_search(*map, x as int, y as int, base, i as int),
        decreases 4 - i,
    {
        let dir = dirs[i];
        if let Some(height) = ramp_neighbor_height(map, x, y, dir, base) {
            match result {
                Some((_, existing)) if existing <= height => {},
                _ => {
                    result = Some((dir, height));
                },
            }
        }
        i = i + 1;
    }
    result
}

/// The four corner heights of the tile at (x, y), in the order NW, NE, SW, SE.
/// A floor tile is flat at its elevation; a ramp tile drops the edge facing
/// its target neighbor to that neighbor's elevation, and stays flat when no
/// neighbor is lower.
pub fn tile_corner_heights(map: &TileMap, x: u32, y: u32) -> (r: Corners)
    requires
        map.wf(),
        map.in_bounds(x as int, y as int),
    ensures
        r == corners_of(*map, x as int, y as int),
        map.tile(x as int, y as int).kind != TileKind::Ramp ==> r == flat_corners(
            map.tile(x as int, y as int).elevation,
        ),
{
    reveal(corners_of);
    let tile = map.get(x, y);
    let base = tile.elevation;
    if tile.kind != TileKind::Ramp {
        return Corners { nw: base, ne: base, sw: base, se: base };
    }
    let mut target: Option<(RampDirection, i8)> = match tile.ramp_direction {
        Some(dir) => match ramp_neighbor_height(map, x, y, dir, base) {
            Some(h) => Some((dir, h)),
            None => None,
        },
        None => None,
    };
    if target.is_none() {
        target = find_ramp_target(map, x, y, base);
    }
    match target {
        Some((dir, h)) => match dir {
            RampDirection::North => Corners { nw: h, ne: h, sw: base, se: base },
            RampDirection::South => Corners { nw: base, ne: base, sw: h, se: h },
            RampDirection::West => Corners { nw: h, ne: base, sw: h, se: base },
            RampDirection::East => Corners { nw: base, ne: h, sw: base, se: h },
        },
        None => Corners { nw: base, ne: base, sw: base, se: base },
    }
}

/// A tile that is not a ramp resolves to four equal corners at its own
/// elevation.
pub proof fn lemma_non_ramp_is_flat(m: TileMap, x: int, y: int)
    requires
        m.wf(),
        m.in_bounds(x, y),
        m.tile(x, y).kind != TileKind::Ramp,
    ensures
        corners_of(m, x, y) == flat_corners(m.tile(x, y).elevation),
{
    reveal(corners_of);
}

/// A ramp tile with exactly one lower neighbor drops the shared edge to that
/// neighbor's elevation and keeps its other two corners at its own.
pub proof fn lemma_single_downhill_neighbor(m: TileMap, x: int, y: int, i: int)
    requires
        m.wf(),
        m.in_bounds(x, y),
        m.tile(x, y).kind == TileKind::Ramp,
        0 <= i < 4,
        downhill_height(m, x, y, dir_at(i), m.tile(x, y).elevation).is_some(),
        forall|j: int|
            0 <= j < 4 && j != i ==> downhill_height(m, x, y, dir_at(j), m.tile(x, y).elevation)
                is None,
    ensures
        corners_of(m, x, y) == lowered_edge(
            m.tile(x, y).elevation,
            dir_at(i),
            downhill_height(m, x, y, dir_at(i), m.tile(x, y).elevation).unwrap(),
        ),
{
    reveal(corners_of);
    let base = m.tile(x, y).elevation;
    let h = downhill_height(m, x, y, dir_at(i), base).unwrap();
    lemma_search_picks_first_lowest(m, x, y, base, i, h, 4);
    match m.tile(x, y).ramp_direction {
        Some(d) => {
            if downhill_height(m, x, y, d, base).is_some() {
                let k: int = if d == RampDirection::North {
                    0
                } else if d == RampDirection::East {
                    1
                } else if d == RampDirection::South {
                    2
                } else {
                    3
                };
                assert(dir_at(k) == d);
            }
        },
        None => {},
    }
}

/// With no usable stored direction, a ramp tile slopes towards its lowest
/// lower neighbor, the first one in the order North, East, South, West when
/// several are equally low.
pub proof fn lemma_lowest_downhill_neighbor_wins(m: TileMap, x: int, y: int, i: int)
    requires
        m.wf(),
        m.in_bounds(x, y),
        m.tile(x, y).kind == TileKind::Ramp,
        m.tile(x, y).ramp_direction is None || downhill_height(
            m,
            x,
            y,
            m.tile(x, y).ramp_direction.unwrap(),
            m.tile(x, y).elevation,
        ) is None,
        0 <= i < 4,
        downhill_height(m, x, y, dir_at(i), m.tile(x, y).elevation).is_some(),
        forall|j: int|
            #![trigger dir_at(j)]
            0 <= j < 4 && downhill_height(m, x, y, dir_at(j), m.tile(x, y).elevation).is_some()
                ==> downhill_height(m, x, y, dir_at(i), m.tile(x, y).elevation).unwrap()
                <= downhill_height(m, x, y, dir_at(j), m.tile(x, y).elevation).unwrap(),
        forall|j: int|
            #![trigger dir_at(j)]
            0 <= j < i && downhill_height(m, x, y, dir_at(j), m.tile(x, y).elevation).is_some()
                ==> downhill_height(m, x, y, dir_at(i), m.tile(x, y).elevation).unwrap()
                < downhill_height(m, x, y, dir_at(j), m.tile(x, y).elevation).unwrap(),
    ensures
        ramp_target(m, x, y) == Some(
            (dir_at(i), downhill_height(m, x, y, dir_at(i), m.tile(x, y).elevation).unwrap()),
        ),
        corners_of(m, x, y) == lowered_edge(
            m.tile(x, y).elevation,
            dir_at(i),
            downhill_height(m, x, y, dir_at(i), m.tile(x, y).elevation).unwrap(),
        ),
{
    reveal(corners_of);
    let base = m.tile(x, y).elevation;
    let h = downhill_height(m, x, y, dir_at(i), base).unwrap();
    lemma_search_picks_first_lowest(m, x, y, base, i, h, 4);
}

/// The search over the first `k` directions finds nothing exactly when none of
/// them is downhill, and otherwise the lowest downhill one, the earliest on a
/// tie.
pub proof fn lemma_ramp_search_first_lowest(m: TileMap, x: int, y: int, base: i8, k: int)
    requires
        0 <= k <= 4,
    ensures
        ramp_search(m, x, y, base, k) is None <==> forall|j: int|
            0 <= j < k ==> downhill_height(m, x, y, #[trigger] dir_at(j), base) is None,
        ramp_search(m, x, y, base, k) matches Some((d, h)) ==> {
            &&& 0 <= dir_index(d) < k
            &&& dir_at(dir_index(d)) == d
            &&& downhill_height(m, x, y, d, base) == Some(h)
            &&& forall|j: int|
                #![trigger dir_at(j)]
                0 <= j < k ==> (downhill_height(m, x, y, dir_at(j), base) matches Some(h2) ==> h <= h2)
            &&& forall|j: int|
                #![trigger dir_at(j)]
                0 <= j < dir_index(d) ==> (downhill_height(m, x, y, dir_at(j), base) matches Some(h2) ==> h
                    < h2)
        },
    decreases k,
{
    if k > 0 {
        lemma_ramp_search_first_lowest(m, x, y, base, k - 1);
        let _ = dir_at(k - 1);
        assert(dir_index(dir_at(k - 1)) == k - 1);
    }
}

/// The search over the first `k` directions keeps the first lowest one seen.
proof fn lemma_search_picks_first_lowest(m: TileMap, x: int, y: int, base: i8, i: int, h: i8, k: int)
    requires
        0 <= i < 4,
        0 <= k <= 4,
        downhill_height(m, x, y, dir_at(i), base) == Some(h),
        forall|j: int|
            #![trigger dir_at(j)]
            0 <= j < 4 && downhill_height(m, x, y, dir_at(j), base).is_some() ==> h
                <= downhill_height(m, x, y, dir_at(j), base).unwrap(),
        forall|j: int|
            #![trigger dir_at(j)]
            0 <= j < i && downhill_height(m, x, y, dir_at(j), base).is_some() ==> h
                < downhill_height(m, x, y, dir_at(j), base).unwrap(),
    ensures
        k > i ==> ramp_search(m, x, y, base, k) == Some((dir_at(i), h)),
        k <= i ==> match ramp_search(m, x, y, base, k) {
            Some((_, e)) => h < e,
            None => true,
        },
    decreases k,
{
    if k > 0 {
        lemma_search_picks_first_lowest(m, x, y, base, i, h, k - 1);
        let _ = dir_at(k - 1);
    }
}

} // verus!
