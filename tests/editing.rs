use tilemapedit3d::editor::{paint_tile, ramp_targets, rotate_ramp};
use tilemapedit3d::types::{RampDirection, Tile, TileKind, TileMap, TileType};

fn grid(w: u32, h: u32, elevations: &[i8]) -> TileMap {
    let mut m = TileMap::new(w, h);
    for y in 0..h {
        for x in 0..w {
            let e = elevations[(y * w + x) as usize];
            m.set(x, y, Tile { kind: TileKind::Floor, tile_type: TileType::Grass, x, y, elevation: e, ramp_direction: None });
        }
    }
    m
}

#[test]
fn ramp_targets_lists_lower_neighbors_in_order() {
    let m = grid(3, 3, &[0, 1, 0, 3, 2, 0, 0, 5, 0]);
    assert_eq!(ramp_targets(&m, 1, 1, 2), vec![RampDirection::North, RampDirection::East]);
    assert_eq!(ramp_targets(&m, 1, 1, 4), vec![RampDirection::North, RampDirection::East, RampDirection::West]);
    assert_eq!(ramp_targets(&m, 0, 0, 0), Vec::<RampDirection>::new());
}

#[test]
fn painting_a_ramp_picks_first_downhill_direction() {
    let mut m = grid(3, 1, &[0, 0, 0]);
    assert!(paint_tile(&mut m, 1, 0, TileKind::Ramp, 1, TileType::Dirt));
    let t = m.get(1, 0);
    assert_eq!((t.kind, t.elevation, t.tile_type, t.ramp_direction), (TileKind::Ramp, 1, TileType::Dirt, Some(RampDirection::East)));
    // painting the same again changes nothing
    assert!(!paint_tile(&mut m, 1, 0, TileKind::Ramp, 1, TileType::Dirt));
    // painting a floor clears the direction
    assert!(paint_tile(&mut m, 1, 0, TileKind::Floor, 1, TileType::Dirt));
    assert_eq!(m.get(1, 0).ramp_direction, None);
}

#[test]
fn rotating_cycles_through_downhill_directions() {
    let mut m = grid(3, 1, &[0, 0, 0]);
    paint_tile(&mut m, 1, 0, TileKind::Ramp, 1, TileType::Grass);
    assert_eq!(m.get(1, 0).ramp_direction, Some(RampDirection::East));
    assert!(rotate_ramp(&mut m, 1, 0));
    assert_eq!(m.get(1, 0).ramp_direction, Some(RampDirection::West));
    assert!(rotate_ramp(&mut m, 1, 0));
    assert_eq!(m.get(1, 0).ramp_direction, Some(RampDirection::East));
    // a floor tile or a ramp without a lower neighbor does not rotate
    assert!(!rotate_ramp(&mut m, 0, 0));
    let mut flat = grid(1, 1, &[0]);
    paint_tile(&mut flat, 0, 0, TileKind::Ramp, 0, TileType::Grass);
    assert!(!rotate_ramp(&mut flat, 0, 0));
}

#[test]
fn painting_keeps_a_still_valid_direction() {
    let mut m = grid(3, 1, &[0, 0, 0]);
    paint_tile(&mut m, 1, 0, TileKind::Ramp, 1, TileType::Grass);
    rotate_ramp(&mut m, 1, 0);
    assert_eq!(m.get(1, 0).ramp_direction, Some(RampDirection::West));
    assert!(paint_tile(&mut m, 1, 0, TileKind::Ramp, 2, TileType::Grass));
    assert_eq!(m.get(1, 0).ramp_direction, Some(RampDirection::West));
}
