use tilemapedit3d::export::{
    build_metadata_and_files, texture_target_path, used_tile_types, texture_target_path_for, validate_identifier,
    MetadataError, TextureExportDescriptor, TextureFileDescriptor, WallTextureExportDescriptor,
};
use tilemapedit3d::glb::{
    assemble_glb, pad_to_four, write_mesh_buffers, AccessorType, AttributeValues, ExportMesh, GlbError,
    Indices, MeshAttribute, CHUNK_BIN, CHUNK_JSON, FLOAT_COMPONENT, GLB_MAGIC, INDEX_BUFFER_TARGET,
    UNSIGNED_INT_COMPONENT, VERTEX_BUFFER_TARGET,
};
use tilemapedit3d::io::obfuscate;
use tilemapedit3d::splatmap::{build_map_splatmap_png, create, encode_splatmap_png, PixelFormat, SplatImage, SplatmapError};
use tilemapedit3d::types::{Tile, TileKind, TileMap, TileType};

fn bits3(v: [f32; 3]) -> [u32; 3] {
    [v[0].to_bits(), v[1].to_bits(), v[2].to_bits()]
}

fn read_u32(b: &[u8], off: usize) -> u32 {
    u32::from_le_bytes([b[off], b[off + 1], b[off + 2], b[off + 3]])
}

fn quad_mesh() -> (ExportMesh, Vec<[f32; 3]>) {
    let positions = vec![[0.0f32, 0.0, 0.0], [2.0, 0.5, 0.0], [2.0, 1.5, 2.0], [-1.0, 0.0, 2.0]];
    let mesh = ExportMesh {
        position: Some(AttributeValues::Float32x3(positions.iter().map(|v| bits3(*v)).collect())),
        normal: Some(AttributeValues::Float32x3(vec![bits3([0.0, 1.0, 0.0]); 4])),
        texcoord0: Some(AttributeValues::Float32x2(vec![[0, 0]; 4])),
        texcoord1: None,
        color: None,
        indices: Some(Indices::U16(vec![0, 1, 2, 0, 2, 3])),
    };
    (mesh, positions)
}

fn map_of(w: u32, h: u32, t: TileType) -> TileMap {
    let mut m = TileMap::new(w, h);
    for y in 0..h {
        for x in 0..w {
            m.set(x, y, Tile { kind: TileKind::Floor, tile_type: t, x, y, elevation: 0, ramp_direction: None });
        }
    }
    m
}

#[test]
fn uniform_grid_weight_map_is_one_hot() {
    for (i, t) in [TileType::Grass, TileType::Dirt, TileType::Sand, TileType::Rock].into_iter().enumerate() {
        let img = create(&map_of(3, 2, t));
        assert_eq!((img.width, img.height), (3, 2));
        assert_eq!(img.format, PixelFormat::Rgba8Unorm);
        assert_eq!(img.data.len(), 24);
        for px in img.data.chunks(4) {
            for c in 0..4 {
                assert_eq!(px[c], if c == i { 255 } else { 0 });
            }
        }
    }
}

#[test]
fn mixed_grid_weight_map_pixels() {
    let mut m = map_of(2, 1, TileType::Grass);
    m.set(1, 0, Tile { kind: TileKind::Floor, tile_type: TileType::Sand, x: 1, y: 0, elevation: 0, ramp_direction: None });
    assert_eq!(create(&m).data, vec![255, 0, 0, 0, 0, 0, 255, 0]);
}

#[test]
fn degenerate_grid_weight_map_is_black() {
    let img = create(&TileMap::new(0, 0));
    assert_eq!((img.width, img.height), (1, 1));
    assert_eq!(img.data, vec![0, 0, 0, 0]);
    let img = create(&TileMap::new(0, 3));
    assert_eq!((img.width, img.height), (1, 3));
    assert_eq!(img.data, vec![0; 12]);
}

#[test]
fn weight_map_write_reuses_or_rebuilds() {
    let m = map_of(2, 2, TileType::Dirt);
    let mut same = SplatImage { width: 2, height: 2, format: PixelFormat::Rgba8Unorm, data: vec![7; 16] };
    tilemapedit3d::splatmap::write(&m, &mut same);
    assert_eq!(same.data, create(&m).data);
    let mut other = SplatImage { width: 5, height: 1, format: PixelFormat::Other, data: vec![1, 2, 3] };
    tilemapedit3d::splatmap::write(&m, &mut other);
    assert_eq!((other.width, other.height, other.format), (2, 2, PixelFormat::Rgba8Unorm));
    assert_eq!(other.data, create(&m).data);
}

#[test]
fn weight_map_png_encoding() {
    let png = build_map_splatmap_png(&map_of(2, 2, TileType::Rock)).unwrap();
    assert_eq!(&png[0..8], &[0x89, b'P', b'N', b'G', 0x0D, 0x0A, 0x1A, 0x0A]);
    assert_eq!(read_u32(&png, 16).swap_bytes(), 2);
    let bad = SplatImage { width: 1, height: 1, format: PixelFormat::Other, data: vec![0; 4] };
    assert_eq!(encode_splatmap_png(&bad), Err(SplatmapError::UnsupportedFormat));
    let short = SplatImage { width: 2, height: 1, format: PixelFormat::Rgba8Unorm, data: vec![0; 4] };
    assert_eq!(encode_splatmap_png(&short), Err(SplatmapError::UnsupportedFormat));
    let ok = SplatImage { width: 1, height: 2, format: PixelFormat::Rgba8Unorm, data: vec![0, 255, 0, 0, 0, 0, 0, 255] };
    let png = encode_splatmap_png(&ok).unwrap();
    assert_eq!(&png[1..4], b"PNG");
    assert_eq!(read_u32(&png, 20).swap_bytes(), 2);
    let empty = SplatImage { width: 0, height: 0, format: PixelFormat::Rgba8Unorm, data: vec![] };
    assert_eq!(encode_splatmap_png(&empty), Err(SplatmapError::Encoding));
}

#[test]
fn quad_round_trips_through_container() {
    let (mesh, positions) = quad_mesh();
    let parts = write_mesh_buffers(&mesh).unwrap();
    assert_eq!((parts.position, parts.normal, parts.texcoord0, parts.indices), (0, 1, 2, 3));
    assert_eq!(parts.texcoord1, None);
    assert_eq!(parts.color, None);
    let json = b"{\"asset\":{}}".to_vec();
    let glb = assemble_glb(json.clone(), parts.bin.clone());
    // header and chunks
    assert_eq!(read_u32(&glb, 0), GLB_MAGIC);
    assert_eq!(read_u32(&glb, 4), 2);
    assert_eq!(read_u32(&glb, 8) as usize, glb.len());
    let json_len = read_u32(&glb, 12) as usize;
    assert_eq!(read_u32(&glb, 16), CHUNK_JSON);
    let bin_at = 20 + json_len;
    let bin_len = read_u32(&glb, bin_at) as usize;
    assert_eq!(read_u32(&glb, bin_at + 4), CHUNK_BIN);
    let bin = &glb[bin_at + 8..bin_at + 8 + bin_len];
    // positions
    let view = parts.buffer_views[0];
    assert_eq!((view.byte_offset, view.byte_length, view.target), (0, 48, VERTEX_BUFFER_TARGET));
    let expected: Vec<u8> = positions.iter().flat_map(|v| v.iter().flat_map(|f| f.to_le_bytes())).collect();
    assert_eq!(&bin[0..48], &expected[..]);
    // indices
    let acc = parts.accessors[3];
    assert_eq!((acc.component_type, acc.count, acc.accessor_type), (UNSIGNED_INT_COMPONENT, 6, AccessorType::Scalar));
    let iv = parts.buffer_views[acc.buffer_view];
    assert_eq!(iv.target, INDEX_BUFFER_TARGET);
    let idx: Vec<u32> = (0..6).map(|k| read_u32(bin, iv.byte_offset + 4 * k)).collect();
    assert_eq!(idx, vec![0, 1, 2, 0, 2, 3]);
    // bounds
    let b = parts.accessors[0].bounds.unwrap();
    assert_eq!(b.min.map(f32::from_bits), [-1.0, 0.0, 0.0]);
    assert_eq!(b.max.map(f32::from_bits), [2.0, 1.5, 2.0]);
    assert!(parts.accessors[1].bounds.is_none());
    assert_eq!((parts.accessors[2].component_type, parts.accessors[2].accessor_type), (FLOAT_COMPONENT, AccessorType::Vec2));
}

#[test]
fn container_length_and_padding() {
    let glb = assemble_glb(vec![b'{', b'}'], vec![1, 2, 3, 4, 5]);
    // json padded 2 -> 4 with spaces, binary 5 -> 8 with zeros
    assert_eq!(read_u32(&glb, 8), 12 + 8 + 4 + 8 + 8);
    assert_eq!(glb.len(), 40);
    assert_eq!(read_u32(&glb, 12), 4);
    assert_eq!(&glb[20..24], b"{}  ");
    assert_eq!(read_u32(&glb, 24), 8);
    assert_eq!(&glb[32..40], &[1, 2, 3, 4, 5, 0, 0, 0]);
}

#[test]
fn pad_to_four_appends_up_to_boundary() {
    let mut v = vec![1u8; 5];
    pad_to_four(&mut v, 9);
    assert_eq!(v, vec![1, 1, 1, 1, 1, 9, 9, 9]);
    let mut w = vec![1u8; 4];
    pad_to_four(&mut w, 9);
    assert_eq!(w, vec![1u8; 4]);
}

#[test]
fn missing_normal_is_rejected() {
    let (mut mesh, _) = quad_mesh();
    mesh.normal = None;
    assert_eq!(write_mesh_buffers(&mesh).err(), Some(GlbError::MissingAttribute(MeshAttribute::Normal)));
}

#[test]
fn malformed_meshes_are_rejected() {
    let (mut mesh, _) = quad_mesh();
    mesh.texcoord0 = Some(AttributeValues::Other);
    assert_eq!(write_mesh_buffers(&mesh).err(), Some(GlbError::UnsupportedFormat(MeshAttribute::TexCoord0)));
    let (mut mesh, _) = quad_mesh();
    mesh.color = Some(AttributeValues::Float32x4(vec![[0; 4]; 3]));
    assert_eq!(write_mesh_buffers(&mesh).err(), Some(GlbError::CountMismatch(MeshAttribute::Color)));
    let (mut mesh, _) = quad_mesh();
    mesh.indices = Some(Indices::U32(vec![]));
    assert_eq!(write_mesh_buffers(&mesh).err(), Some(GlbError::EmptyIndices));
    let (mut mesh, _) = quad_mesh();
    mesh.indices = None;
    assert_eq!(write_mesh_buffers(&mesh).err(), Some(GlbError::MissingIndices));
    let empty = ExportMesh {
        position: Some(AttributeValues::Float32x3(vec![])),
        normal: Some(AttributeValues::Float32x3(vec![])),
        texcoord0: Some(AttributeValues::Float32x2(vec![])),
        texcoord1: None,
        color: None,
        indices: Some(Indices::U32(vec![0])),
    };
    assert_eq!(write_mesh_buffers(&empty).err(), Some(GlbError::EmptyAttribute(MeshAttribute::Position)));
}

#[test]
fn optional_channels_follow_texcoords() {
    let (mut mesh, _) = quad_mesh();
    mesh.texcoord1 = Some(AttributeValues::Float32x2(vec![[1, 2]; 4]));
    mesh.color = Some(AttributeValues::Float32x4(vec![[3, 4, 5, 6]; 4]));
    let parts = write_mesh_buffers(&mesh).unwrap();
    assert_eq!((parts.texcoord1, parts.color, parts.indices), (Some(3), Some(4), 5));
    assert_eq!(parts.buffer_views.len(), 6);
    // 48 + 48 + 32 + 32 + 64 + 24 bytes, all aligned
    assert_eq!(parts.bin.len(), 248);
    assert_eq!(parts.buffer_views[4].byte_offset, 160);
    assert_eq!(read_u32(&parts.bin, 160), 3);
}

#[test]
fn obfuscation_round_trips_encoded_grid() {
    for (w, h) in [(0u32, 0u32), (2, 3)] {
        let tiles: Vec<(u32, u32, i8)> = (0..w * h).map(|i| (i % w.max(1), i / w.max(1), (i as i8) - 2)).collect();
        let value = (w, h, tiles);
        let encoded = bincode::encode_to_vec(&value, bincode::config::standard()).unwrap();
        let mut stored = encoded.clone();
        obfuscate(&mut stored);
        assert!(encoded.is_empty() || stored != encoded);
        assert_eq!(stored[0], encoded[0] ^ 0xAA);
        obfuscate(&mut stored);
        assert_eq!(stored, encoded);
        let (decoded, _): ((u32, u32, Vec<(u32, u32, i8)>), usize) =
            bincode::decode_from_slice(&stored, bincode::config::standard()).unwrap();
        assert_eq!(decoded, value);
    }
}

#[test]
fn identifiers_are_checked() {
    assert_eq!(validate_identifier("grass_01-b"), Ok(()));
    assert_eq!(validate_identifier(""), Ok(()));
    assert_eq!(validate_identifier("bad id"), Err(MetadataError::UnsupportedIdentifier));
    assert_eq!(validate_identifier("../x"), Err(MetadataError::UnsupportedIdentifier));
}

#[test]
fn texture_paths_keep_extension() {
    assert_eq!(texture_target_path("grass", "diffuse", "assets/tex/grass.png"), "textures/grass_diffuse.png");
    assert_eq!(texture_target_path("rock", "normal", "/abs/rock_n.tar.jpg"), "textures/rock_normal.jpg");
    assert_eq!(texture_target_path("dirt", "roughness", "dirt"), "textures/dirt_roughness");
    assert_eq!(texture_target_path("sand", "diffuse", ".hidden"), "textures/sand_diffuse");
    assert_eq!(texture_target_path_for("a", "b", Some("")), "textures/a_b");
    assert_eq!(texture_target_path_for("a", "b", Some("ktx2")), "textures/a_b.ktx2");
}

#[test]
fn metadata_lists_files_in_order() {
    let d = |p: &str| TextureFileDescriptor { source_path: p.to_string() };
    let textures = vec![
        TextureExportDescriptor { tile_type: TileType::Sand, identifier: "sand".into(), diffuse: d("s.png"), normal: None, roughness: Some(d("s_r.png")) },
        TextureExportDescriptor { tile_type: TileType::Grass, identifier: "grass".into(), diffuse: d("g.jpg"), normal: Some(d("g_n.jpg")), roughness: None },
    ];
    let wall = WallTextureExportDescriptor { identifier: "wall".into(), diffuse: d("w.png"), normal: None, roughness: None };
    let (meta, files, wall_meta) = build_metadata_and_files(&textures, Some(wall)).unwrap();
    assert_eq!(meta.len(), 2);
    assert_eq!(meta[0].splatmap_channel, 2);
    assert_eq!(meta[0].roughness.as_deref(), Some("textures/sand_roughness.png"));
    assert_eq!(meta[1].normal.as_deref(), Some("textures/grass_normal.jpg"));
    let listed: Vec<(&str, &str)> = files.iter().map(|f| (f.target_path.as_str(), f.source_path.as_str())).collect();
    assert_eq!(listed, vec![
        ("textures/sand_diffuse.png", "s.png"),
        ("textures/sand_roughness.png", "s_r.png"),
        ("textures/grass_diffuse.jpg", "g.jpg"),
        ("textures/grass_normal.jpg", "g_n.jpg"),
        ("textures/wall_diffuse.png", "w.png"),
    ]);
    assert_eq!(wall_meta.unwrap().diffuse, "textures/wall_diffuse.png");
    let bad = vec![TextureExportDescriptor { tile_type: TileType::Rock, identifier: "ro ck".into(), diffuse: d("r.png"), normal: None, roughness: None }];
    assert_eq!(build_metadata_and_files(&bad, None).err(), Some(MetadataError::UnsupportedIdentifier));
}

#[test]
fn used_types_in_layer_order() {
    let mut m = map_of(2, 2, TileType::Rock);
    m.set(1, 1, Tile { kind: TileKind::Floor, tile_type: TileType::Dirt, x: 1, y: 1, elevation: 0, ramp_direction: None });
    assert_eq!(used_tile_types(&m), vec![TileType::Dirt, TileType::Rock]);
    assert_eq!(used_tile_types(&TileMap::new(0, 0)), Vec::<TileType>::new());
}
