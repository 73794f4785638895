use tilemapedit3d::mesh::{build_combined_mesh, build_map_meshes, GridPoint, LayerInfo, NormalDir, VertexInfo};
use tilemapedit3d::types::{RampDirection, Tile, TileKind, TileMap, TileType};

fn grid(w: u32, h: u32, elevations: &[i8], types: &[TileType]) -> TileMap {
    let mut m = TileMap::new(w, h);
    for y in 0..h {
        for x in 0..w {
            let i = (y * w + x) as usize;
            m.set(x, y, Tile { kind: TileKind::Floor, tile_type: types[i], x, y, elevation: elevations[i], ramp_direction: None });
        }
    }
    m
}

fn p(x: u32, y: i8, z: u32) -> GridPoint {
    GridPoint { x, y, z }
}

#[test]
fn level_single_tile_has_only_its_top() {
    let m = grid(1, 1, &[0], &[TileType::Grass]);
    let mesh = build_combined_mesh(&m);
    assert_eq!(mesh.positions, vec![p(0, 0, 0), p(0, 0, 1), p(1, 0, 1), p(0, 0, 0), p(1, 0, 1), p(1, 0, 0)]);
    assert_eq!(mesh.normals, vec![NormalDir { x: 0, y: 25, z: 0 }; 6]);
    assert_eq!(mesh.indices, vec![0, 1, 2, 3, 4, 5]);
    assert_eq!(mesh.layers, Some(vec![LayerInfo { layer: 0, seam: 0 }; 6]));
    assert_eq!(mesh.infos, Some(vec![VertexInfo::Blend { mask: 0 }; 6]));
}

#[test]
fn raised_single_tile_gets_four_skirts() {
    let m = grid(1, 1, &[1], &[TileType::Dirt]);
    let mesh = build_combined_mesh(&m);
    assert_eq!(mesh.positions.len(), 30);
    assert_eq!(mesh.indices, (0..30).collect::<Vec<u32>>());
    // north skirt: top edge NW-NE down to height 0, facing -z
    assert_eq!(&mesh.positions[6..12], &[p(0, 1, 0), p(1, 1, 0), p(1, 0, 0), p(0, 1, 0), p(1, 0, 0), p(0, 0, 0)]);
    assert_eq!(mesh.normals[6], NormalDir { x: 0, y: 0, z: -10 });
    let infos = mesh.infos.unwrap();
    assert_eq!(infos[6], VertexInfo::Plain);
    let layers = mesh.layers.unwrap();
    assert_eq!(layers[6], LayerInfo { layer: 1, seam: 1 });
}

#[test]
fn level_neighbors_skip_side_faces_and_set_blend_bits() {
    let m = grid(3, 1, &[0, 0, 1], &[TileType::Grass, TileType::Grass, TileType::Grass]);
    let mesh = build_combined_mesh(&m);
    let infos = mesh.infos.unwrap();
    // tile 0: top only (east neighbor level, borders at 0)
    assert_eq!(infos[0], VertexInfo::Blend { mask: 8 });
    // tile 1: top only; its east edge is below the raised neighbor, so no skirt
    assert_eq!(infos[6], VertexInfo::Blend { mask: 4 });
    // tile 2: top, north, south, west (towards tile 1) and east skirts
    assert_eq!(infos[12], VertexInfo::Blend { mask: 0 });
    assert_eq!(mesh.positions.len(), 6 + 6 + 30);
    assert_eq!(infos[12 + 18], VertexInfo::Seam { layer: 0, bottom: 0, cliff: false });
}

#[test]
fn seam_records_neighbor_layer() {
    let m = grid(2, 1, &[2, 0], &[TileType::Grass, TileType::Rock]);
    let mesh = build_combined_mesh(&m);
    let infos = mesh.infos.unwrap();
    // tile 0: top, north, south, west (border), east (towards the rock tile)
    assert_eq!(infos[24], VertexInfo::Seam { layer: 3, bottom: 0, cliff: false });
    assert_eq!(mesh.positions[24], p(1, 2, 0));
    assert_eq!(mesh.positions[26], p(1, 0, 1));
}

#[test]
fn ramp_edges_are_forced_cliffs() {
    let mut m = grid(2, 1, &[1, 0], &[TileType::Grass, TileType::Grass]);
    m.set(0, 0, Tile { kind: TileKind::Ramp, tile_type: TileType::Grass, x: 0, y: 0, elevation: 1, ramp_direction: Some(RampDirection::East) });
    let mesh = build_combined_mesh(&m);
    // ramp tile: top, north, south, west; the flat tile: top only
    assert_eq!(mesh.positions.len(), 30);
    let infos = mesh.infos.unwrap();
    assert_eq!(infos[6], VertexInfo::Cliff);
    assert_eq!(infos[12], VertexInfo::Cliff);
    assert_eq!(infos[18], VertexInfo::Cliff);
    assert_eq!(mesh.positions[0..6], [p(0, 1, 0), p(0, 1, 1), p(1, 0, 1), p(0, 1, 0), p(1, 0, 1), p(1, 0, 0)]);
}

#[test]
fn empty_grid_gives_empty_meshes() {
    let m = TileMap::new(0, 0);
    let mesh = build_combined_mesh(&m);
    assert!(mesh.positions.is_empty());
    assert!(mesh.indices.is_empty());
    assert!(mesh.layers.is_none());
    assert!(mesh.infos.is_none());
    let typed = build_map_meshes(&m);
    assert_eq!(typed.len(), 4);
    assert!(typed.iter().all(|t| t.is_none()));
}

#[test]
fn per_type_meshes_agree_with_combined() {
    let types = [TileType::Grass, TileType::Rock, TileType::Rock, TileType::Sand, TileType::Grass, TileType::Rock];
    let mut m = grid(3, 2, &[0, 2, 1, -1, 0, 3], &types);
    m.set(1, 1, Tile { kind: TileKind::Ramp, tile_type: TileType::Grass, x: 1, y: 1, elevation: 0, ramp_direction: None });
    let combined = build_combined_mesh(&m);
    let typed = build_map_meshes(&m);
    let layers = combined.layers.unwrap();
    for t in 0..4 {
        let in_combined: Vec<GridPoint> = combined
            .positions
            .iter()
            .zip(layers.iter())
            .filter(|(_, l)| l.layer == t)
            .map(|(pos, _)| *pos)
            .collect();
        match &typed[t] {
            Some(mesh) => {
                assert_eq!(mesh.positions, in_combined);
                assert!(mesh.layers.is_none());
                assert!(mesh.infos.is_none());
                assert_eq!(mesh.indices, (0..mesh.positions.len() as u32).collect::<Vec<u32>>());
            }
            None => assert!(in_combined.is_empty()),
        }
    }
    assert!(typed[1].is_none());
}
