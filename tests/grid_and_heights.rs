use tilemapedit3d::terrain::{find_ramp_target, tile_corner_heights, Corners};
use tilemapedit3d::types::{RampDirection, Tile, TileKind, TileMap, TileType};

fn tile(kind: TileKind, elevation: i8, dir: Option<RampDirection>) -> Tile {
    Tile { kind, tile_type: TileType::Grass, x: 0, y: 0, elevation, ramp_direction: dir }
}

fn grid(w: u32, h: u32, elevations: &[i8]) -> TileMap {
    let mut m = TileMap::new(w, h);
    for y in 0..h {
        for x in 0..w {
            let e = elevations[(y * w + x) as usize];
            m.set(x, y, Tile { x, y, ..tile(TileKind::Floor, e, None) });
        }
    }
    m
}

fn set_ramp(m: &mut TileMap, x: u32, y: u32, dir: Option<RampDirection>) {
    let mut t = m.get(x, y).clone();
    t.kind = TileKind::Ramp;
    t.ramp_direction = dir;
    m.set(x, y, t);
}

#[test]
fn new_grid_is_blank_and_row_major() {
    let m = TileMap::new(3, 2);
    assert_eq!(m.tiles.len(), 6);
    assert!(m.tiles.iter().all(|t| t.kind == TileKind::Floor && t.elevation == 0 && t.tile_type == TileType::Grass && t.ramp_direction.is_none()));
    assert_eq!(m.idx(2, 1), 5);
    assert_eq!(m.idx(1, 0), 1);
}

#[test]
fn zero_sized_grid_has_no_tiles() {
    let m = TileMap::new(0, 0);
    assert_eq!(m.tiles.len(), 0);
}

#[test]
fn set_then_get_returns_tile() {
    let mut m = TileMap::new(2, 2);
    let t = Tile { kind: TileKind::Ramp, tile_type: TileType::Rock, x: 1, y: 1, elevation: -3, ramp_direction: Some(RampDirection::West) };
    m.set(1, 1, t.clone());
    assert_eq!(*m.get(1, 1), t);
    assert_eq!(m.tiles[3], t);
    assert_eq!(m.get(0, 0).elevation, 0);
}

#[test]
fn directions_cycle_and_offsets() {
    assert_eq!(RampDirection::North.next(), RampDirection::East);
    assert_eq!(RampDirection::East.next(), RampDirection::South);
    assert_eq!(RampDirection::South.next(), RampDirection::West);
    assert_eq!(RampDirection::West.next(), RampDirection::North);
    assert_eq!(RampDirection::North.offset(), (0, -1));
    assert_eq!(RampDirection::East.offset(), (1, 0));
    assert_eq!(RampDirection::South.offset(), (0, 1));
    assert_eq!(RampDirection::West.offset(), (-1, 0));
}

#[test]
fn tile_type_indices_and_identifiers() {
    assert_eq!(TileType::Grass.as_index(), 0);
    assert_eq!(TileType::Dirt.as_index(), 1);
    assert_eq!(TileType::Sand.as_index(), 2);
    assert_eq!(TileType::Rock.as_index(), 3);
    assert_eq!(TileType::Grass.identifier(), "grass");
    assert_eq!(TileType::Dirt.identifier(), "dirt");
    assert_eq!(TileType::Sand.identifier(), "sand");
    assert_eq!(TileType::Rock.identifier(), "rock");
    assert_eq!(TileType::default(), TileType::Grass);
}

#[test]
fn floor_tile_corners_are_flat() {
    let m = grid(3, 1, &[2, 5, -1]);
    assert_eq!(tile_corner_heights(&m, 1, 0), Corners { nw: 5, ne: 5, sw: 5, se: 5 });
    assert_eq!(tile_corner_heights(&m, 2, 0), Corners { nw: -1, ne: -1, sw: -1, se: -1 });
}

#[test]
fn ramp_with_single_lower_neighbor_slopes_to_it() {
    // centre at 2, only the east neighbor lower (at 0)
    let mut m = grid(3, 3, &[3, 3, 3, 3, 2, 0, 3, 3, 3]);
    set_ramp(&mut m, 1, 1, None);
    assert_eq!(tile_corner_heights(&m, 1, 1), Corners { nw: 2, ne: 0, sw: 2, se: 0 });
    // a stored direction that is not downhill falls back to the search
    set_ramp(&mut m, 1, 1, Some(RampDirection::North));
    assert_eq!(tile_corner_heights(&m, 1, 1), Corners { nw: 2, ne: 0, sw: 2, se: 0 });
}

#[test]
fn ramp_picks_lowest_neighbor_first_on_ties() {
    // north 1, east 0, south 0, west 1: east and south tie at 0, east comes first
    let mut m = grid(3, 3, &[5, 1, 5, 1, 3, 0, 5, 0, 5]);
    set_ramp(&mut m, 1, 1, None);
    assert_eq!(tile_corner_heights(&m, 1, 1), Corners { nw: 3, ne: 0, sw: 3, se: 0 });
    // strictly lowest wins regardless of order
    let mut m = grid(3, 3, &[5, 2, 5, -2, 3, 1, 5, 0, 5]);
    set_ramp(&mut m, 1, 1, None);
    assert_eq!(tile_corner_heights(&m, 1, 1), Corners { nw: -2, ne: 3, sw: -2, se: 3 });
}

#[test]
fn ramp_keeps_valid_stored_direction() {
    let mut m = grid(3, 3, &[5, 1, 5, 1, 3, 0, 5, 0, 5]);
    set_ramp(&mut m, 1, 1, Some(RampDirection::West));
    assert_eq!(tile_corner_heights(&m, 1, 1), Corners { nw: 1, ne: 3, sw: 1, se: 3 });
    set_ramp(&mut m, 1, 1, Some(RampDirection::South));
    assert_eq!(tile_corner_heights(&m, 1, 1), Corners { nw: 3, ne: 3, sw: 0, se: 0 });
}

#[test]
fn ramp_without_lower_neighbor_is_flat() {
    let mut m = grid(2, 1, &[1, 1]);
    set_ramp(&mut m, 0, 0, Some(RampDirection::East));
    assert_eq!(tile_corner_heights(&m, 0, 0), Corners { nw: 1, ne: 1, sw: 1, se: 1 });
}

#[test]
fn ramp_search_finds_first_lowest_neighbor() {
    let m = grid(3, 3, &[5, 1, 5, 1, 3, 0, 5, 0, 5]);
    assert_eq!(find_ramp_target(&m, 1, 1, 3), Some((RampDirection::East, 0)));
    assert_eq!(find_ramp_target(&m, 1, 1, 1), Some((RampDirection::East, 0)));
    assert_eq!(find_ramp_target(&m, 1, 1, 0), None);
    assert_eq!(find_ramp_target(&m, 1, 1, 2), Some((RampDirection::East, 0)));
    let m = grid(2, 1, &[4, 2]);
    assert_eq!(find_ramp_target(&m, 0, 0, 4), Some((RampDirection::East, 2)));
    assert_eq!(find_ramp_target(&m, 1, 0, 2), None);
}
