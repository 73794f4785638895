use vstd::prelude::*;
use crate::terrain::downhill_height;
use crate::types::{dir_at, RampDirection, Tile, TileKind, TileMap, TileType};

verus! {

/// The directions among the first `k` of the search order whose neighbor
/// lies strictly below `base`, in that order.
pub open spec fn downhill_dirs(m: TileMap, x: int, y: int, base: i8, k: int) -> Seq<RampDirection>
    decreases k,
{
    if k <= 0 {
        seq![]
    } else if downhill_height(m, x, y, dir_at(k - 1), base) is Some {
        downhill_dirs(m, x, y, base, k - 1).push(dir_at(k - 1))
    } else {
        downhill_dirs(m, x, y, base, k - 1)
    }
}

/// The first position of `d` in `s`, when `s` contains it.
pub open spec fn first_index(s: Seq<RampDirection>, d: RampDirection) -> int {
    choose|i: int| 0 <= i < s.len() && s[i] == d && forall|j: int| 0 <= j < i ==> s[j] != d
}

/// The ramp direction a freshly painted tile of `kind` at `elevation` gets:
/// none for a floor; for a ramp, the current direction when it still points
/// downhill, else the first downhill direction, if any.
pub open spec fn painted_direction(m: TileMap, x: int, y: int, kind: TileKind, elevation: i8) -> Option<RampDirection> {
    let candidates = downhill_dirs(m, x, y, elevation, 4);
    if kind != TileKind::Ramp {
        None
    } else if m.tile(x, y).ramp_direction is Some && candidates.contains(m.tile(x, y).ramp_direction.unwrap()) {
        m.tile(x, y).ramp_direction
    } else if candidates.len() > 0 {
        Some(candidates[0])
    } else {
        None
    }
}

/// The direction a click rotates a ramp to: the downhill direction after its
/// current one (wrapping around), or the first when the current one is not
/// downhill; none when the tile is no ramp or has no lower neighbor.
pub open spec fn rotated_direction(m: TileMap, x: int, y: int) -> Option<RampDirection> {
    let t = m.tile(x, y);
    let candidates = downhill_dirs(m, x, y, t.elevation, 4);
    if t.kind != TileKind::Ramp || candidates.len() == 0 {
        None
    } else if t.ramp_direction is Some && candidates.contains(t.ramp_direction.unwrap()) {
        Some(candidates[(first_index(candidates, t.ramp_direction.unwrap()) + 1) % (candidates.len() as int)])
    } else {
        Some(candidates[0])
    }
}

/// The directions, in the order North, East, South, West, whose neighbor
/// lies strictly below `base`.
pub fn ramp_targets(map: &TileMap, x: u32, y: u32, base: i8) -> (r: Vec<RampDirection>)
    requires
        map.wf(),
        map.in_bounds(x as int, y as int),
    ensures
        r@ == downhill_dirs(*map, x as int, y as int, base, 4),
{
    let dirs = [RampDirection::North, RampDirection::East, RampDirection::South, RampDirection::West];
    let mut results: Vec<RampDirection> = Vec::new();
    let mut i: usize = 0;
    while i < 4
        invariant
            i <= 4,
            map.wf(),
            map.in_bounds(x as int, y as int),
            forall|k: int| 0 <= k < 4 ==> dirs@[k] == dir_at(k),
            results@ == downhill_dirs(*map, x as int, y as int, base, i as int),
        decreases 4 - i,
    {
        let dir = dirs[i];
        let (dx, dy) = dir.offset();
        let nx: i64 = x as i64 + dx as i64;
        let ny: i64 = y as i64 + dy as i64;
        if nx >= 0 && ny >= 0 && nx < map.width as i64 && ny < map.height as i64 {
            let neighbor = map.get(nx as u32, ny as u32);
            if neighbor.elevation < base {
                results.push(dir);
            }
        }
        i = i + 1;
    }
    results
}

/// The first position of `d` in `v`.
fn position_of(v: &Vec<RampDirection>, d: RampDirection) -> (r: Option<usize>)
    ensures
        r is Some <==> v@.contains(d),
        r matches Some(i) ==> i < v@.len() && i == first_index(v@, d),
{
    let mut i: usize = 0;
    while i < v.len()
        invariant
            i <= v@.len(),
            forall|k: int| 0 <= k < i ==> v@[k] != d,
        decreases v@.len() - i,
    {
        if v[i] == d {
            proof {
                assert(v@.contains(d));
                let f = first_index(v@, d);
                assert(0 <= i < v@.len() && v@[i as int] == d && forall|j: int| 0 <= j < i ==> v@[j] != d);
                assert(0 <= f < v@.len() && v@[f] == d && forall|j: int| 0 <= j < f ==> v@[j] != d);
                if f < i {
                    assert(v@[f] != d);
                } else if f > i {
                    assert(v@[i as int] != d);
                }
            }
            return Some(i);
        }
        i = i + 1;
    }
    None
}

/// Paints the tile at (x, y) with `kind`, `elevation` and `tile_type`; a ramp
/// keeps its direction while that still points downhill. Returns whether the
/// grid changed; it is left as it was when the tile already matched.
pub fn paint_tile(map: &mut TileMap, x: u32, y: u32, kind: TileKind, elevation: i8, tile_type: TileType) -> (changed: bool)
    requires
        old(map).wf(),
        old(map).in_bounds(x as int, y as int),
    ensures
        final(map).wf(),
        final(map).width == old(map).width,
        final(map).height == old(map).height,
        ({
            let current = old(map).tile(x as int, y as int);
            let dir = painted_direction(*old(map), x as int, y as int, kind, elevation);
            &&& changed == (current.kind != kind || current.elevation != elevation || current.ramp_direction
                != dir || current.tile_type != tile_type)
            &&& changed ==> final(map).tiles@ == old(map).tiles@.update(
                old(map).index_of(x as int, y as int),
                Tile { kind, tile_type, x, y, elevation, ramp_direction: dir },
            )
            &&& !changed ==> final(map).tiles@ == old(map).tiles@
        }),
{
    let current = *map.get(x, y);
    let target_ramp_direction = if kind == TileKind::Ramp {
        let candidates = ramp_targets(map, x, y, elevation);
        match current.ramp_direction {
            Some(existing) => match position_of(&candidates, existing) {
                Some(_) => Some(existing),
                None => if candidates.len() > 0 { Some(candidates[0]) } else { None },
            },
            None => if candidates.len() > 0 { Some(candidates[0]) } else { None },
        }
    } else {
        None
    };
    if current.kind != kind || current.elevation != elevation || current.ramp_direction != target_ramp_direction
        || current.tile_type != tile_type {
        map.set(x, y, Tile { kind, elevation, tile_type, x, y, ramp_direction: target_ramp_direction });
        true
    } else {
        false
    }
}

/// Turns the ramp at (x, y) to its next downhill direction. Returns whether
/// the grid changed; it is left as it was when the tile is no ramp, has no
/// lower neighbor, or already faces the chosen direction.
pub fn rotate_ramp(map: &mut TileMap, x: u32, y: u32) -> (changed: bool)
    requires
        old(map).wf(),
        old(map).in_bounds(x as int, y as int),
    ensures
        final(map).wf(),
        final(map).width == old(map).width,
        final(map).height == old(map).height,
        ({
            let current = old(map).tile(x as int, y as int);
            let next = rotated_direction(*old(map), x as int, y as int);
            &&& changed == (next is Some && current.ramp_direction != next)
            &&& changed ==> final(map).tiles@ == old(map).tiles@.update(
                old(map).index_of(x as int, y as int),
                Tile { ramp_direction: next, ..current },
            )
            &&& !changed ==> final(map).tiles@ == old(map).tiles@
        }),
{
    let base_tile = *map.get(x, y);
    if base_tile.kind != TileKind::Ramp {
        return false;
    }
    let candidates = ramp_targets(map, x, y, base_tile.elevation);
    if candidates.len() == 0 {
        return false;
    }
    let next_direction = match base_tile.ramp_direction {
        Some(current) => match position_of(&candidates, current) {
            Some(idx) => candidates[(idx + 1) % candidates.len()],
            None => candidates[0],
        },
        None => candidates[0],
    };
    if base_tile.ramp_direction == Some(next_direction) {
        return false;
    }
    let mut updated = base_tile;
    updated.ramp_direction = Some(next_direction);
    map.set(x, y, updated);
    true
}

} // verus!
