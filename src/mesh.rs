use vstd::prelude::*;
use vstd::arithmetic::div_mod::lemma_fundamental_div_mod_converse;
use crate::terrain::{corners_of, neighbor_cell, tile_corner_heights, Corners};
use crate::types::{lemma_index_in_range, type_at, type_index, RampDirection, TileKind, TileMap, TileType};

verus! {

/// Width of a tile in the unit that the normal vectors are measured in.
pub const TILE_WIDTH_UNITS: i64 = 5;

/// Height of one elevation step in the same unit: a step is 2/5 of a tile width.
pub const STEP_HEIGHT_UNITS: i64 = 2;

/// The most tiles a grid may have for its mesh indices to fit in 32 bits
/// (each tile yields at most five quads of six vertices).
pub const MAX_MESH_TILES: u32 = 143_165_576;

/// A vertex on the corner lattice: `x` and `z` count tile widths, `y` counts
/// elevation steps.
#[derive(Clone, Copy, Debug, PartialEq, Eq, Structural)]
pub struct GridPoint {
    pub x: u32,
    pub y: i8,
    pub z: u32,
}

/// An unnormalized face normal, with both lattice axes scaled to a common unit.
#[derive(Clone, Copy, Debug, PartialEq, Eq, Structural)]
pub struct NormalDir {
    pub x: i64,
    pub y: i64,
    pub z: i64,
}

/// The surface layer of the tile a vertex belongs to, and the seam height
/// (highest top corner of the face) in elevation steps.
#[derive(Clone, Copy, Debug, PartialEq, Eq, Structural)]
pub struct LayerInfo {
    pub layer: usize,
    pub seam: i8,
}

/// Per-vertex blend and cliff metadata.
#[derive(Clone, Copy, Debug, PartialEq, Eq, Structural)]
pub enum VertexInfo {
    /// No metadata.
    Plain,
    /// A top face, with bit 0/1/2/3 set when the north/south/west/east
    /// neighbor is level with it.
    Blend { mask: u8 },
    /// A side face towards a neighbor: that neighbor's layer, the bottom edge's
    /// higher end, and whether it is a forced cliff.
    Seam { layer: usize, bottom: i8, cliff: bool },
    /// A forced cliff side face at the border of the grid.
    Cliff,
}

/// A quad face a-b-c-d, emitted as the triangles (a, b, c) and (a, c, d).
#[derive(Clone, Copy, Debug, PartialEq, Eq, Structural)]
pub struct Quad {
    pub a: GridPoint,
    pub b: GridPoint,
    pub c: GridPoint,
    pub d: GridPoint,
    pub layer: LayerInfo,
    pub info: VertexInfo,
}

pub open spec fn scaled_edge(p: GridPoint, q: GridPoint) -> (int, int, int) {
    (
        TILE_WIDTH_UNITS * (q.x - p.x),
        STEP_HEIGHT_UNITS * (q.y - p.y),
        TILE_WIDTH_UNITS * (q.z - p.z),
    )
}

/// The cross product (b - a) x (c - a), in the common unit.
pub open spec fn triangle_normal(a: GridPoint, b: GridPoint, c: GridPoint) -> NormalDir {
    let u = scaled_edge(a, b);
    let v = scaled_edge(a, c);
    NormalDir {
        x: (u.1 * v.2 - u.2 * v.1) as i64,
        y: (u.2 * v.0 - u.0 * v.2) as i64,
        z: (u.0 * v.1 - u.1 * v.0) as i64,
    }
}

pub open spec fn quad_positions(q: Quad) -> Seq<GridPoint> {
    seq![q.a, q.b, q.c, q.a, q.c, q.d]
}

pub open spec fn quad_normals(q: Quad) -> Seq<NormalDir> {
    let n1 = triangle_normal(q.a, q.b, q.c);
    let n2 = triangle_normal(q.a, q.c, q.d);
    seq![n1, n1, n1, n2, n2, n2]
}

pub open spec fn positions_of(qs: Seq<Quad>) -> Seq<GridPoint>
    decreases qs.len(),
{
    if qs.len() == 0 {
        seq![]
    } else {
        positions_of(qs.drop_last()) + quad_positions(qs.last())
    }
}

pub open spec fn normals_of(qs: Seq<Quad>) -> Seq<NormalDir>
    decreases qs.len(),
{
    if qs.len() == 0 {
        seq![]
    } else {
        normals_of(qs.drop_last()) + quad_normals(qs.last())
    }
}

pub open spec fn layers_of(qs: Seq<Quad>) -> Seq<LayerInfo>
    decreases qs.len(),
{
    if qs.len() == 0 {
        seq![]
    } else {
        let l = qs.last().layer;
        layers_of(qs.drop_last()) + seq![l, l, l, l, l, l]
    }
}

pub open spec fn infos_of(qs: Seq<Quad>) -> Seq<VertexInfo>
    decreases qs.len(),
{
    if qs.len() == 0 {
        seq![]
    } else {
        let i = qs.last().info;
        infos_of(qs.drop_last()) + seq![i, i, i, i, i, i]
    }
}

/// The indices 0, 1, ..., n - 1.
pub open spec fn index_run(n: nat) -> Seq<u32> {
    Seq::new(n, |i: int| i as u32)
}

pub open spec fn max_corner(c: Corners) -> i8 {
    let a = if c.nw >= c.ne { c.nw } else { c.ne };
    let b = if c.sw >= c.se { c.sw } else { c.se };
    if a >= b { a } else { b }
}

pub open spec fn min_i8(a: i8, b: i8) -> i8 {
    if a <= b { a } else { b }
}

pub open spec fn max_i8(a: i8, b: i8) -> i8 {
    if a >= b { a } else { b }
}

pub open spec fn nw_point(x: int, y: int, c: Corners) -> GridPoint {
    GridPoint { x: x as u32, y: c.nw, z: y as u32 }
}

pub open spec fn ne_point(x: int, y: int, c: Corners) -> GridPoint {
    GridPoint { x: (x + 1) as u32, y: c.ne, z: y as u32 }
}

pub open spec fn sw_point(x: int, y: int, c: Corners) -> GridPoint {
    GridPoint { x: x as u32, y: c.sw, z: (y + 1) as u32 }
}

pub open spec fn se_point(x: int, y: int, c: Corners) -> GridPoint {
    GridPoint { x: (x + 1) as u32, y: c.se, z: (y + 1) as u32 }
}

/// The top endpoints of the side face on edge `d`, in emission order.
pub open spec fn edge_tops(x: int, y: int, c: Corners, d: RampDirection) -> (GridPoint, GridPoint) {
    match d {
        RampDirection::North => (nw_point(x, y, c), ne_point(x, y, c)),
        RampDirection::South => (se_point(x, y, c), sw_point(x, y, c)),
        RampDirection::West => (sw_point(x, y, c), nw_point(x, y, c)),
        RampDirection::East => (ne_point(x, y, c), se_point(x, y, c)),
    }
}

/// The neighbor's corner heights that sit under the two top endpoints of edge `d`.
pub open spec fn facing_heights(nc: Corners, d: RampDirection) -> (i8, i8) {
    match d {
        RampDirection::North => (nc.sw, nc.se),
        RampDirection::South => (nc.ne, nc.nw),
        RampDirection::West => (nc.se, nc.ne),
        RampDirection::East => (nc.nw, nc.sw),
    }
}

/// Whether the neighbor in direction `d` exists and its highest corner is
/// level with `top`.
pub open spec fn level_with(m: TileMap, x: int, y: int, d: RampDirection, top: i8) -> bool {
    match neighbor_cell(m, x, y, d) {
        Some((nx, ny)) => max_corner(corners_of(m, nx, ny)) == top,
        None => false,
    }
}

/// The 4-bit blend mask of the tile at (x, y): bit 0/1/2/3 for a level
/// north/south/west/east neighbor.
pub open spec fn blend_mask(m: TileMap, x: int, y: int) -> u8 {
    let top = max_corner(corners_of(m, x, y));
    ((if level_with(m, x, y, RampDirection::North, top) { 1int } else { 0int }) + (if level_with(
        m,
        x,
        y,
        RampDirection::South,
        top,
    ) { 2int } else { 0int }) + (if level_with(m, x, y, RampDirection::West, top) {
        4int
    } else {
        0int
    }) + (if level_with(m, x, y, RampDirection::East, top) { 8int } else { 0int })) as u8
}

/// The top face of the tile at (x, y): the quad NW, SW, SE, NE.
pub open spec fn top_face(m: TileMap, x: int, y: int) -> Quad {
    let c = corners_of(m, x, y);
    Quad {
        a: nw_point(x, y, c),
        b: sw_point(x, y, c),
        c: se_point(x, y, c),
        d: ne_point(x, y, c),
        layer: LayerInfo { layer: type_index(m.tile(x, y).tile_type) as usize, seam: max_corner(c) },
        info: VertexInfo::Blend { mask: blend_mask(m, x, y) },
    }
}

/// The side face on edge `d` of the tile at (x, y), reaching down to the
/// neighbor's facing corners (or to height 0 off the grid) but never above
/// this tile's own edge; none when the edge has no drop at either end.
#[verifier::opaque]
pub open spec fn side_face(m: TileMap, x: int, y: int, d: RampDirection) -> Option<Quad> {
    let c = corners_of(m, x, y);
    let t = m.tile(x, y);
    let (ta, tb) = edge_tops(x, y, c, d);
    let nbr = neighbor_cell(m, x, y, d);
    let (ha, hb) = match nbr {
        Some((nx, ny)) => facing_heights(corners_of(m, nx, ny), d),
        None => (0i8, 0i8),
    };
    let ba = GridPoint { y: min_i8(ha, ta.y), ..ta };
    let bb = GridPoint { y: min_i8(hb, tb.y), ..tb };
    if ta.y == ba.y && tb.y == bb.y {
        None
    } else {
        let ramp = t.kind == TileKind::Ramp || match nbr {
            Some((nx, ny)) => m.tile(nx, ny).kind == TileKind::Ramp,
            None => false,
        };
        let cliff = ramp && (ta.y > ba.y || tb.y > bb.y);
        let info = match nbr {
            Some((nx, ny)) => VertexInfo::Seam {
                layer: type_index(m.tile(nx, ny).tile_type) as usize,
                bottom: max_i8(ba.y, bb.y),
                cliff,
            },
            None => if cliff {
                VertexInfo::Cliff
            } else {
                VertexInfo::Plain
            },
        };
        Some(
            Quad {
                a: ta,
                b: tb,
                c: bb,
                d: ba,
                layer: LayerInfo { layer: type_index(t.tile_type) as usize, seam: max_i8(ta.y, tb.y) },
                info,
            },
        )
    }
}

pub open spec fn side_quads(m: TileMap, x: int, y: int, d: RampDirection) -> Seq<Quad> {
    match side_face(m, x, y, d) {
        Some(q) => seq![q],
        None => seq![],
    }
}

/// Every face of the tile at (x, y): its top, then the side faces on the
/// north, south, west and east edges.
#[verifier::opaque]
pub open spec fn tile_quads(m: TileMap, x: int, y: int) -> Seq<Quad> {
    seq![top_face(m, x, y)] + side_quads(m, x, y, RampDirection::North) + side_quads(
        m,
        x,
        y,
        RampDirection::South,
    ) + side_quads(m, x, y, RampDirection::West) + side_quads(m, x, y, RampDirection::East)
}

/// The faces of the first `n` tiles in row-major order.
pub open spec fn grid_quads(m: TileMap, n: int) -> Seq<Quad>
    decreases n,
{
    if n <= 0 || m.width == 0 {
        seq![]
    } else {
        grid_quads(m, n - 1) + tile_quads(m, (n - 1) % (m.width as int), (n - 1) / (m.width as int))
    }
}

/// The faces of those of the first `n` tiles whose surface type is `t`.
pub open spec fn typed_quads(m: TileMap, t: TileType, n: int) -> Seq<Quad>
    decreases n,
{
    if n <= 0 || m.width == 0 {
        seq![]
    } else {
        let x = (n - 1) % (m.width as int);
        let y = (n - 1) / (m.width as int);
        if m.tile(x, y).tile_type == t {
            typed_quads(m, t, n - 1) + tile_quads(m, x, y)
        } else {
            typed_quads(m, t, n - 1)
        }
    }
}

/// A triangle mesh on the corner lattice. All present per-vertex channels
/// have one entry per vertex, and `indices` lists the vertices in order.
#[derive(Clone, Debug)]
pub struct TerrainMesh {
    pub positions: Vec<GridPoint>,
    pub normals: Vec<NormalDir>,
    pub layers: Option<Vec<LayerInfo>>,
    pub infos: Option<Vec<VertexInfo>>,
    pub indices: Vec<u32>,
}

impl TerrainMesh {
    /// The mesh is exactly the faces `qs`; the layer and metadata channels are
    /// present when `layered` holds and there is at least one face.
    pub open spec fn represents(&self, qs: Seq<Quad>, layered: bool) -> bool {
        &&& self.positions@ == positions_of(qs)
        &&& self.normals@ == normals_of(qs)
        &&& self.indices@ == index_run(6 * qs.len())
        &&& if layered && qs.len() > 0 {
            &&& self.layers matches Some(l) && l@ == layers_of(qs)
            &&& self.infos matches Some(i) && i@ == infos_of(qs)
        } else {
            self.layers is None && self.infos is None
        }
    }
}

struct MeshBuffers {
    positions: Vec<GridPoint>,
    normals: Vec<NormalDir>,
    layers: Option<Vec<LayerInfo>>,
    infos: Option<Vec<VertexInfo>>,
    indices: Vec<u32>,
    next_index: u32,
    quads: Ghost<Seq<Quad>>,
}

/// Points whose lattice columns are at most one tile apart.
pub open spec fn near(p: GridPoint, q: GridPoint) -> bool {
    -1 <= q.x - p.x <= 1 && -1 <= q.z - p.z <= 1
}

pub open spec fn compact(q: Quad) -> bool {
    near(q.a, q.b) && near(q.a, q.c) && near(q.a, q.d)
}

proof fn lemma_push_quad_channels(qs: Seq<Quad>, q: Quad)
    ensures
        positions_of(qs.push(q)) == positions_of(qs) + quad_positions(q),
        normals_of(qs.push(q)) == normals_of(qs) + quad_normals(q),
        layers_of(qs.push(q)) == layers_of(qs) + seq![q.layer, q.layer, q.layer, q.layer, q.layer, q.layer],
        infos_of(qs.push(q)) == infos_of(qs) + seq![q.info, q.info, q.info, q.info, q.info, q.info],
        index_run(6 * qs.push(q).len()) == index_run(6 * qs.len()) + Seq::new(6, |i: int| (6 * qs.len() + i) as u32),
{
    assert(qs.push(q).drop_last() =~= qs);
    assert(index_run(6 * qs.push(q).len()) =~= index_run(6 * qs.len()) + Seq::new(6, |i: int| (6 * qs.len() + i) as u32));
}

impl MeshBuffers {
    spec fn wf(&self) -> bool {
        &&& self.positions@ == positions_of(self.quads@)
        &&& self.normals@ == normals_of(self.quads@)
        &&& self.indices@ == index_run(6 * self.quads@.len())
        &&& self.next_index == 6 * self.quads@.len()
        &&& self.layers.is_some() == self.infos.is_some()
        &&& self.layers matches Some(l) ==> l@ == layers_of(self.quads@)
        &&& self.infos matches Some(i) ==> i@ == infos_of(self.quads@)
    }

    fn new(layered: bool) -> (r: MeshBuffers)
        ensures
            r.wf(),
            r.quads@ == Seq::<Quad>::empty(),
            r.layers.is_some() == layered,
    {
        proof {
            assert(index_run(0) =~= Seq::<u32>::empty());
        }
        MeshBuffers {
            positions: Vec::new(),
            normals: Vec::new(),
            layers: if layered { Some(Vec::new()) } else { None },
            infos: if layered { Some(Vec::new()) } else { None },
            indices: Vec::new(),
            next_index: 0,
            quads: Ghost(Seq::empty()),
        }
    }

    fn push_triangle(&mut self, a: GridPoint, b: GridPoint, c: GridPoint)
        requires
            near(a, b),
            near(a, c),
            old(self).next_index as int + 3 <= u32::MAX,
        ensures
            final(self).positions@ == old(self).positions@ + seq![a, b, c],
            final(self).normals@ == old(self).normals@ + seq![
                triangle_normal(a, b, c),
                triangle_normal(a, b, c),
                triangle_normal(a, b, c),
            ],
            final(self).indices@ == old(self).indices@ + seq![
                old(self).next_index,
                (old(self).next_index + 1) as u32,
                (old(self).next_index + 2) as u32,
            ],
            final(self).next_index == old(self).next_index + 3,
            final(self).layers == old(self).layers,
            final(self).infos == old(self).infos,
            final(self).quads == old(self).quads,
    {
        let ux: i64 = TILE_WIDTH_UNITS * (b.x as i64 - a.x as i64);
        let uy: i64 = STEP_HEIGHT_UNITS * (b.y as i64 - a.y as i64);
        let uz: i64 = TILE_WIDTH_UNITS * (b.z as i64 - a.z as i64);
        let vx: i64 = TILE_WIDTH_UNITS * (c.x as i64 - a.x as i64);
        let vy: i64 = STEP_HEIGHT_UNITS * (c.y as i64 - a.y as i64);
        let vz: i64 = TILE_WIDTH_UNITS * (c.z as i64 - a.z as i64);
        assert(-5 <= ux <= 5 && -5 <= uz <= 5 && -5 <= vx <= 5 && -5 <= vz <= 5);
        assert(-510 <= uy <= 510 && -510 <= vy <= 510);
        assert(-2550 <= uy * vz <= 2550 && -2550 <= uz * vy <= 2550) by (nonlinear_arith)
            requires
                -510 <= uy <= 510,
                -510 <= vy <= 510,
                -5 <= uz <= 5,
                -5 <= vz <= 5,
        ;
        assert(-25 <= uz * vx <= 25 && -25 <= ux * vz <= 25) by (nonlinear_arith)
            requires
                -5 <= ux <= 5,
                -5 <= uz <= 5,
                -5 <= vx <= 5,
                -5 <= vz <= 5,
        ;
        assert(-2550 <= ux * vy <= 2550 && -2550 <= uy * vx <= 2550) by (nonlinear_arith)
            requires
                -510 <= uy <= 510,
                -510 <= vy <= 510,
                -5 <= ux <= 5,
                -5 <= vx <= 5,
        ;
        let normal = NormalDir { x: uy * vz - uz * vy, y: uz * vx - ux * vz, z: ux * vy - uy * vx };
        self.positions.push(a);
        self.positions.push(b);
        self.positions.push(c);
        self.normals.push(normal);
        self.normals.push(normal);
        self.normals.push(normal);
        let n = self.next_index;
        self.indices.push(n);
        self.indices.push(n + 1);
        self.indices.push(n + 2);
        self.next_index = n + 3;
        proof {
            assert(self.positions@ =~= old(self).positions@ + seq![a, b, c]);
            assert(self.normals@ =~= old(self).normals@ + seq![normal, normal, normal]);
            assert(self.indices@ =~= old(self).indices@ + seq![n, (n + 1) as u32, (n + 2) as u32]);
        }
    }

    /// Appends the two triangles of `q`, and its layer and metadata when this
    /// buffer records them.
    fn push_quad(&mut self, q: Quad)
        requires
            old(self).wf(),
            compact(q),
            6 * old(self).quads@.len() + 6 <= u32::MAX,
        ensures
            final(self).wf(),
            final(self).quads@ == old(self).quads@.push(q),
            final(self).layers.is_some() == old(self).layers.is_some(),
    {
        let ghost qs = self.quads@;
        self.push_triangle(q.a, q.b, q.c);
        self.push_triangle(q.a, q.c, q.d);
        match &mut self.layers {
            Some(layers) => push_six(layers, q.layer),
            None => {},
        }
        match &mut self.infos {
            Some(infos) => push_six(infos, q.info),
            None => {},
        }
        self.quads = Ghost(qs.push(q));
        proof {
            lemma_push_quad_channels(qs, q);
            assert(self.positions@ =~= positions_of(qs) + quad_positions(q));
            assert(self.normals@ =~= normals_of(qs) + quad_normals(q));
            assert(self.indices@ =~= index_run(6 * qs.push(q).len()));
        }
    }

    fn into_mesh(self) -> (r: TerrainMesh)
        requires
            self.wf(),
        ensures
            r.represents(self.quads@, self.layers.is_some()),
    {
        let layers = match self.layers {
            Some(l) => if l.len() > 0 { Some(l) } else { None },
            None => None,
        };
        let infos = match self.infos {
            Some(i) => if i.len() > 0 { Some(i) } else { None },
            None => None,
        };
        proof {
            lemma_channel_lengths(self.quads@);
        }
        TerrainMesh {
            positions: self.positions,
            normals: self.normals,
            layers,
            infos,
            indices: self.indices,
        }
    }
}

proof fn lemma_channel_lengths(qs: Seq<Quad>)
    ensures
        layers_of(qs).len() == 6 * qs.len(),
        infos_of(qs).len() == 6 * qs.len(),
    decreases qs.len(),
{
    if qs.len() > 0 {
        lemma_channel_lengths(qs.drop_last());
    }
}

fn push_six<T: Copy>(v: &mut Vec<T>, e: T)
    ensures
        final(v)@ == old(v)@ + seq![e, e, e, e, e, e],
{
    v.push(e);
    v.push(e);
    v.push(e);
    v.push(e);
    v.push(e);
    v.push(e);
    assert(v@ =~= old(v)@ + seq![e, e, e, e, e, e]);
}

fn max_corner_height(c: Corners) -> (r: i8)
    ensures
        r == max_corner(c),
{
    let a = if c.nw >= c.ne { c.nw } else { c.ne };
    let b = if c.sw >= c.se { c.sw } else { c.se };
    if a >= b { a } else { b }
}

/// A cache of every tile's resolved corners, indexed like the tiles.
pub open spec fn is_corner_cache(m: TileMap, cache: Seq<Corners>) -> bool {
    &&& cache.len() == m.cells()
    &&& forall|i: int|
        #![trigger cache[i]]
        0 <= i < cache.len() ==> cache[i] == corners_of(m, i % (m.width as int), i / (m.width as int))
}

/// The row-major index of a cell gives back its coordinates.
proof fn lemma_cell_index(m: TileMap, x: int, y: int)
    requires
        m.in_bounds(x, y),
    ensures
        0 <= m.index_of(x, y) < m.cells(),
        m.index_of(x, y) % (m.width as int) == x,
        m.index_of(x, y) / (m.width as int) == y,
{
    lemma_index_in_range(m.width as int, m.height as int, x, y);
    lemma_fundamental_div_mod_converse(m.index_of(x, y), m.width as int, y, x);
}

fn cached_corners(map: &TileMap, cache: &Vec<Corners>, x: u32, y: u32) -> (r: Corners)
    requires
        map.wf(),
        map.in_bounds(x as int, y as int),
        is_corner_cache(*map, cache@),
    ensures
        r == corners_of(*map, x as int, y as int),
{
    let i = map.idx(x, y);
    proof {
        lemma_cell_index(*map, x as int, y as int);
    }
    cache[i]
}

/// The resolved corners of every tile, in row-major order.
fn corner_cache(map: &TileMap) -> (r: Vec<Corners>)
    requires
        map.wf(),
    ensures
        is_corner_cache(*map, r@),
{
    let mut cache: Vec<Corners> = Vec::new();
    let mut y: u32 = 0;
    while y < map.height
        invariant
            map.wf(),
            y <= map.height,
            cache@.len() == y as int * map.width as int,
            forall|i: int|
                #![trigger cache@[i]]
                0 <= i < cache@.len() ==> cache@[i] == corners_of(
                    *map,
                    i % (map.width as int),
                    i / (map.width as int),
                ),
        decreases map.height - y,
    {
        let mut x: u32 = 0;
        while x < map.width
            invariant
                map.wf(),
                y < map.height,
                x <= map.width,
                cache@.len() == y as int * map.width as int + x,
                forall|i: int|
                    #![trigger cache@[i]]
                    0 <= i < cache@.len() ==> cache@[i] == corners_of(
                        *map,
                        i % (map.width as int),
                        i / (map.width as int),
                    ),
            decreases map.width - x,
        {
            proof {
                lemma_cell_index(*map, x as int, y as int);
            }
            cache.push(tile_corner_heights(map, x, y));
            x = x + 1;
        }
        assert(y as int * map.width as int + map.width as int == (y + 1) as int * map.width as int)
            by (nonlinear_arith);
        y = y + 1;
    }
    assert(y as int * map.width as int == map.cells()) by (nonlinear_arith)
        requires
            y == map.height,
    ;
    cache
}

/// The blend mask of the tile at (x, y), whose highest corner is `top_height`.
fn tile_top_blend_mask(map: &TileMap, cache: &Vec<Corners>, x: u32, y: u32, top_height: i8) -> (r: u8)
    requires
        map.wf(),
        map.in_bounds(x as int, y as int),
        is_corner_cache(*map, cache@),
        top_height == max_corner(corners_of(*map, x as int, y as int)),
    ensures
        r == blend_mask(*map, x as int, y as int),
{
    reveal(blend_mask);
    let mut mask_bits: u8 = 0;
    if y > 0 {
        let neighbor = cached_corners(map, cache, x, y - 1);
        if max_corner_height(neighbor) == top_height {
            mask_bits = mask_bits + 1;
        }
    }
    if y + 1 < map.height {
        let neighbor = cached_corners(map, cache, x, y + 1);
        if max_corner_height(neighbor) == top_height {
            mask_bits = mask_bits + 2;
        }
    }
    if x > 0 {
        let neighbor = cached_corners(map, cache, x - 1, y);
        if max_corner_height(neighbor) == top_height {
            mask_bits = mask_bits + 4;
        }
    }
    if x + 1 < map.width {
        let neighbor = cached_corners(map, cache, x + 1, y);
        if max_corner_height(neighbor) == top_height {
            mask_bits = mask_bits + 8;
        }
    }
    mask_bits
}

/// A side face is a forced cliff when the tile or its neighbor is a ramp and
/// the edge drops at either end.
fn should_force_cliff_face(
    tile_kind: TileKind,
    neighbor_kind: Option<TileKind>,
    top_a: GridPoint,
    top_b: GridPoint,
    bottom_a: GridPoint,
    bottom_b: GridPoint,
) -> (r: bool)
    ensures
        r == ((tile_kind == TileKind::Ramp || neighbor_kind == Some(TileKind::Ramp)) && (top_a.y
            > bottom_a.y || top_b.y > bottom_b.y)),
{
    let neighbor_ramp = match neighbor_kind {
        Some(TileKind::Ramp) => true,
        _ => false,
    };
    if tile_kind != TileKind::Ramp && !neighbor_ramp {
        return false;
    }
    top_a.y > bottom_a.y || top_b.y > bottom_b.y
}

impl MeshBuffers {
    /// Appends the side face between the top edge (top_a, top_b) and the
    /// bottom edge (bottom_a, bottom_b), unless both ends are level.
    fn add_side_face(
        &mut self,
        top_a: GridPoint,
        top_b: GridPoint,
        bottom_a: GridPoint,
        bottom_b: GridPoint,
        tile_layer: usize,
        seam_height: i8,
        bottom_info: Option<(usize, i8)>,
        force_cliff: bool,
    )
        requires
            old(self).wf(),
            compact(
                Quad {
                    a: top_a,
                    b: top_b,
                    c: bottom_b,
                    d: bottom_a,
                    layer: LayerInfo { layer: tile_layer, seam: seam_height },
                    info: VertexInfo::Plain,
                },
            ),
            6 * old(self).quads@.len() + 6 <= u32::MAX,
        ensures
            final(self).wf(),
            final(self).layers.is_some() == old(self).layers.is_some(),
            top_a.y == bottom_a.y && top_b.y == bottom_b.y ==> final(self).quads@ == old(self).quads@,
            !(top_a.y == bottom_a.y && top_b.y == bottom_b.y) ==> final(self).quads@ == old(
                self,
            ).quads@.push(
                Quad {
                    a: top_a,
                    b: top_b,
                    c: bottom_b,
                    d: bottom_a,
                    layer: LayerInfo { layer: tile_layer, seam: seam_height },
                    info: match bottom_info {
                        Some((l, h)) => VertexInfo::Seam { layer: l, bottom: h, cliff: force_cliff },
                        None => if force_cliff {
                            VertexInfo::Cliff
                        } else {
                            VertexInfo::Plain
                        },
                    },
                },
            ),
    {
        if top_a.y == bottom_a.y && top_b.y == bottom_b.y {
            return;
        }
        let info = match bottom_info {
            Some((l, h)) => VertexInfo::Seam { layer: l, bottom: h, cliff: force_cliff },
            None => if force_cliff {
                VertexInfo::Cliff
            } else {
                VertexInfo::Plain
            },
        };
        self.push_quad(
            Quad {
                a: top_a,
                b: top_b,
                c: bottom_b,
                d: bottom_a,
                layer: LayerInfo { layer: tile_layer, seam: seam_height },
                info,
            },
        );
    }
}

fn min_height(a: i8, b: i8) -> (r: i8)
    ensures
        r == min_i8(a, b),
{
    if a <= b { a } else { b }
}

fn max_height(a: i8, b: i8) -> (r: i8)
    ensures
        r == max_i8(a, b),
{
    if a >= b { a } else { b }
}

/// The cell next to (x, y) in direction `dir`, when it lies on the grid.
fn neighbor_of(map: &TileMap, x: u32, y: u32, dir: RampDirection) -> (r: Option<(u32, u32)>)
    requires
        map.in_bounds(x as int, y as int),
    ensures
        match r {
            Some((nx, ny)) => neighbor_cell(*map, x as int, y as int, dir) == Some((nx as int, ny as int)),
            None => neighbor_cell(*map, x as int, y as int, dir) is None,
        },
{
    match dir {
        RampDirection::North => if y > 0 { Some((x, y - 1)) } else { None },
        RampDirection::South => if y + 1 < map.height { Some((x, y + 1)) } else { None },
        RampDirection::West => if x > 0 { Some((x - 1, y)) } else { None },
        RampDirection::East => if x + 1 < map.width { Some((x + 1, y)) } else { None },
    }
}

/// Appends the side face on edge `dir` of the tile at (x, y).
#[verifier::rlimit(50)]
fn append_side(
    map: &TileMap,
    cache: &Vec<Corners>,
    x: u32,
    y: u32,
    corners: Corners,
    dir: RampDirection,
    buffer: &mut MeshBuffers,
)
    requires
        map.wf(),
        map.in_bounds(x as int, y as int),
        is_corner_cache(*map, cache@),
        corners == corners_of(*map, x as int, y as int),
        old(buffer).wf(),
        6 * old(buffer).quads@.len() + 6 <= u32::MAX,
    ensures
        final(buffer).wf(),
        final(buffer).layers.is_some() == old(buffer).layers.is_some(),
        final(buffer).quads@ == old(buffer).quads@ + side_quads(*map, x as int, y as int, dir),
{
    let tile = map.get(x, y);
    let nw = GridPoint { x: x, y: corners.nw, z: y };
    let ne = GridPoint { x: x + 1, y: corners.ne, z: y };
    let sw = GridPoint { x: x, y: corners.sw, z: y + 1 };
    let se = GridPoint { x: x + 1, y: corners.se, z: y + 1 };
    let (top_a, top_b) = match dir {
        RampDirection::North => (nw, ne),
        RampDirection::South => (se, sw),
        RampDirection::West => (sw, nw),
        RampDirection::East => (ne, se),
    };
    let neighbor = neighbor_of(map, x, y, dir);
    let (ha, hb, neighbor_kind, neighbor_layer) = match neighbor {
        Some((nx, ny)) => {
            let nc = cached_corners(map, cache, nx, ny);
            let (ha, hb) = match dir {
                RampDirection::North => (nc.sw, nc.se),
                RampDirection::South => (nc.ne, nc.nw),
                RampDirection::West => (nc.se, nc.ne),
                RampDirection::East => (nc.nw, nc.sw),
            };
            let neighbor_tile = map.get(nx, ny);
            (ha, hb, Some(neighbor_tile.kind), Some(neighbor_tile.tile_type.as_index()))
        },
        None => (0i8, 0i8, None, None),
    };
    let bottom_a = GridPoint { x: top_a.x, y: min_height(ha, top_a.y), z: top_a.z };
    let bottom_b = GridPoint { x: top_b.x, y: min_height(hb, top_b.y), z: top_b.z };
    let bottom_info = match neighbor_layer {
        Some(layer) => Some((layer, max_height(bottom_a.y, bottom_b.y))),
        None => None,
    };
    let force_cliff = should_force_cliff_face(
        tile.kind,
        neighbor_kind,
        top_a,
        top_b,
        bottom_a,
        bottom_b,
    );
    let ghost before = buffer.quads@;
    buffer.add_side_face(
        top_a,
        top_b,
        bottom_a,
        bottom_b,
        tile.tile_type.as_index(),
        max_height(top_a.y, top_b.y),
        bottom_info,
        force_cliff,
    );
    proof {
        reveal(side_face);
        assert(edge_tops(x as int, y as int, corners, dir) == (top_a, top_b));
        match side_face(*map, x as int, y as int, dir) {
            Some(q) => {
                assert(buffer.quads@ =~= before + seq![q]);
            },
            None => {
                assert(buffer.quads@ =~= before + Seq::<Quad>::empty());
            },
        }
    }
}

proof fn lemma_tile_quads_len(m: TileMap, x: int, y: int)
    ensures
        1 <= tile_quads(m, x, y).len() <= 5,
{
    reveal(tile_quads);
}

/// Appends every face of the tile at (x, y).
fn append_tile_geometry(map: &TileMap, cache: &Vec<Corners>, x: u32, y: u32, buffer: &mut MeshBuffers)
    requires
        map.wf(),
        map.in_bounds(x as int, y as int),
        is_corner_cache(*map, cache@),
        old(buffer).wf(),
        6 * old(buffer).quads@.len() + 30 <= u32::MAX,
    ensures
        final(buffer).wf(),
        final(buffer).layers.is_some() == old(buffer).layers.is_some(),
        final(buffer).quads@ == old(buffer).quads@ + tile_quads(*map, x as int, y as int),
{
    let ghost start = buffer.quads@;
    let corners = cached_corners(map, cache, x, y);
    let top_height = max_corner_height(corners);
    let mask = tile_top_blend_mask(map, cache, x, y, top_height);
    let tile_layer = map.get(x, y).tile_type.as_index();
    let nw = GridPoint { x: x, y: corners.nw, z: y };
    let ne = GridPoint { x: x + 1, y: corners.ne, z: y };
    let sw = GridPoint { x: x, y: corners.sw, z: y + 1 };
    let se = GridPoint { x: x + 1, y: corners.se, z: y + 1 };
    let top = Quad {
        a: nw,
        b: sw,
        c: se,
        d: ne,
        layer: LayerInfo { layer: tile_layer, seam: top_height },
        info: VertexInfo::Blend { mask },
    };
    assert(top == top_face(*map, x as int, y as int));
    buffer.push_quad(top);
    assert(buffer.quads@ =~= start + seq![top_face(*map, x as int, y as int)]);
    append_side(map, cache, x, y, corners, RampDirection::North, buffer);
    append_side(map, cache, x, y, corners, RampDirection::South, buffer);
    append_side(map, cache, x, y, corners, RampDirection::West, buffer);
    append_side(map, cache, x, y, corners, RampDirection::East, buffer);
    proof {
        reveal(tile_quads);
        assert(buffer.quads@ =~= start + tile_quads(*map, x as int, y as int));
    }
}

proof fn lemma_grid_quads_step(m: TileMap, x: int, y: int)
    requires
        m.in_bounds(x, y),
    ensures
        grid_quads(m, m.index_of(x, y) + 1) == grid_quads(m, m.index_of(x, y)) + tile_quads(m, x, y),
        forall|t: TileType|
            typed_quads(m, t, m.index_of(x, y) + 1) == if m.tile(x, y).tile_type == t {
                typed_quads(m, t, m.index_of(x, y)) + tile_quads(m, x, y)
            } else {
                typed_quads(m, t, m.index_of(x, y))
            },
{
    lemma_cell_index(m, x, y);
}

proof fn lemma_grid_quads_len(m: TileMap, n: int)
    requires
        n >= 0,
    ensures
        grid_quads(m, n).len() <= 5 * n,
        forall|t: TileType| #[trigger] typed_quads(m, t, n).len() <= 5 * n,
    decreases n,
{
    if n > 0 && m.width != 0 {
        lemma_grid_quads_len(m, n - 1);
        lemma_tile_quads_len(m, (n - 1) % (m.width as int), (n - 1) / (m.width as int));
        assert forall|t: TileType| #[trigger] typed_quads(m, t, n).len() <= 5 * n by {
            assert(typed_quads(m, t, n - 1).len() <= 5 * (n - 1));
        }
    }
}

/// A mesh with no faces.
pub fn empty_mesh() -> (r: TerrainMesh)
    ensures
        r.represents(Seq::<Quad>::empty(), false),
{
    MeshBuffers::new(false).into_mesh()
}

/// One mesh holding every tile, with per-vertex layers and blend metadata.
pub fn build_combined_mesh(map: &TileMap) -> (r: TerrainMesh)
    requires
        map.wf(),
        map.cells() <= MAX_MESH_TILES,
    ensures
        r.represents(grid_quads(*map, map.cells()), true),
{
    let mut buffer = MeshBuffers::new(true);
    if map.width == 0 || map.height == 0 {
        assert(map.cells() == 0) by (nonlinear_arith)
            requires
                map.width == 0 || map.height == 0,
        ;
        return buffer.into_mesh();
    }
    let cache = corner_cache(map);
    let mut y: u32 = 0;
    while y < map.height
        invariant
            map.wf(),
            map.cells() <= MAX_MESH_TILES,
            map.width > 0,
            y <= map.height,
            is_corner_cache(*map, cache@),
            buffer.wf(),
            buffer.layers.is_some(),
            buffer.quads@ == grid_quads(*map, y as int * map.width as int),
        decreases map.height - y,
    {
        let mut x: u32 = 0;
        while x < map.width
            invariant
                map.wf(),
                map.cells() <= MAX_MESH_TILES,
                y < map.height,
                x <= map.width,
                is_corner_cache(*map, cache@),
                buffer.wf(),
                buffer.layers.is_some(),
                buffer.quads@ == grid_quads(*map, y as int * map.width as int + x),
            decreases map.width - x,
        {
            proof {
                lemma_cell_index(*map, x as int, y as int);
                lemma_grid_quads_len(*map, y as int * map.width as int + x);
                lemma_grid_quads_step(*map, x as int, y as int);
            }
            append_tile_geometry(map, &cache, x, y, &mut buffer);
            x = x + 1;
        }
        assert(y as int * map.width as int + map.width as int == (y + 1) as int * map.width as int)
            by (nonlinear_arith);
        y = y + 1;
    }
    assert(y as int * map.width as int == map.cells()) by (nonlinear_arith)
        requires
            y == map.height,
    ;
    buffer.into_mesh()
}

/// One mesh per surface type, indexed by layer: entry `i` holds the faces of
/// the tiles of type `i`, without layer or blend metadata, and is absent when
/// no tile has that type.
pub fn build_map_meshes(map: &TileMap) -> (r: Vec<Option<TerrainMesh>>)
    requires
        map.wf(),
        map.cells() <= MAX_MESH_TILES,
    ensures
        r@.len() == 4,
        forall|i: int|
            0 <= i < 4 ==> match #[trigger] r@[i] {
                Some(mesh) => typed_quads(*map, type_at(i), map.cells()).len() > 0 && mesh.represents(
                    typed_quads(*map, type_at(i), map.cells()),
                    false,
                ),
                None => typed_quads(*map, type_at(i), map.cells()).len() == 0,
            },
{
    let mut buffers: Vec<MeshBuffers> = Vec::new();
    let mut k: usize = 0;
    while k < 4
        invariant
            k <= 4,
            buffers@.len() == k,
            forall|i: int|
                0 <= i < k ==> (#[trigger] buffers@[i]).wf() && buffers@[i].layers is None
                    && buffers@[i].quads@ == Seq::<Quad>::empty(),
        decreases 4 - k,
    {
        buffers.push(MeshBuffers::new(false));
        k = k + 1;
    }
    if map.width > 0 && map.height > 0 {
        let cache = corner_cache(map);
        let mut y: u32 = 0;
        while y < map.height
            invariant
                map.wf(),
                map.cells() <= MAX_MESH_TILES,
                map.width > 0,
                y <= map.height,
                is_corner_cache(*map, cache@),
                buffers@.len() == 4,
                forall|i: int|
                    0 <= i < 4 ==> (#[trigger] buffers@[i]).wf() && buffers@[i].layers is None
                        && buffers@[i].quads@ == typed_quads(*map, type_at(i), y as int * map.width as int),
            decreases map.height - y,
        {
            let mut x: u32 = 0;
            while x < map.width
                invariant
                    map.wf(),
                    map.cells() <= MAX_MESH_TILES,
                    y < map.height,
                    x <= map.width,
                    is_corner_cache(*map, cache@),
                    buffers@.len() == 4,
                    forall|i: int|
                        0 <= i < 4 ==> (#[trigger] buffers@[i]).wf() && buffers@[i].layers is None
                            && buffers@[i].quads@ == typed_quads(
                            *map,
                            type_at(i),
                            y as int * map.width as int + x,
                        ),
                decreases map.width - x,
            {
                proof {
                    lemma_cell_index(*map, x as int, y as int);
                    lemma_grid_quads_len(*map, y as int * map.width as int + x);
                    lemma_grid_quads_step(*map, x as int, y as int);
                }
                let t = map.get(x, y).tile_type.as_index();
                let ghost n = y as int * map.width as int + x;
                assert(type_at(t as int) == map.tile(x as int, y as int).tile_type);
                append_tile_geometry(map, &cache, x, y, &mut buffers[t]);
                proof {
                    assert forall|i: int| 0 <= i < 4 implies (#[trigger] buffers@[i]).quads@ == typed_quads(
                        *map,
                        type_at(i),
                        n + 1,
                    ) by {
                        if i != t as int {
                            assert(type_at(i) != map.tile(x as int, y as int).tile_type);
                        }
                    }
                }
                x = x + 1;
            }
            assert(y as int * map.width as int + map.width as int == (y + 1) as int * map.width as int)
                by (nonlinear_arith);
            y = y + 1;
        }
        assert(y as int * map.width as int == map.cells()) by (nonlinear_arith)
            requires
                y == map.height,
        ;
    } else {
        assert(map.cells() == 0) by (nonlinear_arith)
            requires
                map.width == 0 || map.height == 0,
        ;
    }
    let mut meshes: Vec<Option<TerrainMesh>> = Vec::new();
    let mut i: usize = 0;
    while i < 4
        invariant
            map.wf(),
            i <= 4,
            buffers@.len() == 4,
            meshes@.len() == i,
            forall|j: int|
                i <= j < 4 ==> (#[trigger] buffers@[j]).wf() && buffers@[j].layers is None
                    && buffers@[j].quads@ == typed_quads(*map, type_at(j), map.cells()),
            forall|j: int|
                0 <= j < i ==> match #[trigger] meshes@[j] {
                    Some(mesh) => typed_quads(*map, type_at(j), map.cells()).len() > 0 && mesh.represents(
                        typed_quads(*map, type_at(j), map.cells()),
                        false,
                    ),
                    None => typed_quads(*map, type_at(j), map.cells()).len() == 0,
                },
        decreases 4 - i,
    {
        let mut buffer = MeshBuffers::new(false);
        std::mem::swap(&mut buffer, &mut buffers[i]);
        if buffer.positions.len() > 0 {
            meshes.push(Some(buffer.into_mesh()));
        } else {
            meshes.push(None);
        }
        i = i + 1;
    }
    meshes
}

/// Every face of a tile carries that tile's layer.
proof fn lemma_tile_quads_layer(m: TileMap, x: int, y: int)
    ensures
        forall|i: int|
            0 <= i < tile_quads(m, x, y).len() ==> (#[trigger] tile_quads(m, x, y)[i]).layer.layer
                == type_index(m.tile(x, y).tile_type) as usize,
{
    reveal(tile_quads);
    reveal(side_face);
}

proof fn lemma_filter_uniform(s: Seq<Quad>, pred: spec_fn(Quad) -> bool, keep: bool)
    requires
        forall|i: int| 0 <= i < s.len() ==> pred(#[trigger] s[i]) == keep,
    ensures
        s.filter(pred) == if keep { s } else { Seq::<Quad>::empty() },
    decreases s.len(),
{
    reveal(Seq::filter);
    if s.len() > 0 {
        lemma_filter_uniform(s.drop_last(), pred, keep);
        assert(pred(s[s.len() - 1]) == keep);
        if keep {
            assert(s.drop_last().push(s.last()) =~= s);
        }
    }
}

pub proof fn lemma_positions_len(qs: Seq<Quad>)
    ensures
        positions_of(qs).len() == 6 * qs.len(),
        normals_of(qs).len() == 6 * qs.len(),
    decreases qs.len(),
{
    if qs.len() > 0 {
        lemma_positions_len(qs.drop_last());
    }
}

proof fn lemma_typed_is_filtered(m: TileMap, t: TileType, n: int)
    requires
        n >= 0,
    ensures
        typed_quads(m, t, n) == grid_quads(m, n).filter(|q: Quad| q.layer.layer == type_index(t) as usize),
    decreases n,
{
    let pred = |q: Quad| q.layer.layer == type_index(t) as usize;
    if n <= 0 || m.width == 0 {
        reveal(Seq::filter);
    } else {
        let x = (n - 1) % (m.width as int);
        let y = (n - 1) / (m.width as int);
        lemma_typed_is_filtered(m, t, n - 1);
        lemma_tile_quads_layer(m, x, y);
        Seq::filter_distributes_over_add(grid_quads(m, n - 1), tile_quads(m, x, y), pred);
        let keep = m.tile(x, y).tile_type == t;
        assert(keep <==> type_index(m.tile(x, y).tile_type) as usize == type_index(t) as usize);
        assert forall|i: int| 0 <= i < tile_quads(m, x, y).len() implies pred(
            #[trigger] tile_quads(m, x, y)[i],
        ) == keep by {}
        lemma_filter_uniform(tile_quads(m, x, y), pred, keep);
        if !keep {
            assert(grid_quads(m, n - 1).filter(pred) + Seq::<Quad>::empty() =~= grid_quads(m, n - 1).filter(pred));
        }
    }
}

/// Built from the same grid, the mesh of surface type `t` holds exactly the
/// faces of the combined mesh that carry layer `t`, in the same order; so the
/// two agree on geometry and on the vertex count of every surface type.
pub proof fn lemma_per_type_meshes_match_combined(m: TileMap, t: TileType)
    requires
        m.wf(),
    ensures
        typed_quads(m, t, m.cells()) == grid_quads(m, m.cells()).filter(
            |q: Quad| q.layer.layer == type_index(t) as usize,
        ),
        positions_of(typed_quads(m, t, m.cells())).len() == 6 * grid_quads(m, m.cells()).filter(
            |q: Quad| q.layer.layer == type_index(t) as usize,
        ).len(),
{
    lemma_typed_is_filtered(m, t, m.cells());
    lemma_positions_len(typed_quads(m, t, m.cells()));
}

/// A side face is emitted exactly when its edge drops at one end or both.
pub proof fn lemma_level_edge_has_no_side_face(m: TileMap, x: int, y: int, d: RampDirection)
    ensures
        side_face(m, x, y, d) is None <==> ({
            let c = corners_of(m, x, y);
            let (ta, tb) = edge_tops(x, y, c, d);
            let (ha, hb) = match neighbor_cell(m, x, y, d) {
                Some((nx, ny)) => facing_heights(corners_of(m, nx, ny), d),
                None => (0i8, 0i8),
            };
            ha >= ta.y && hb >= tb.y
        }),
{
    reveal(side_face);
}

/// In a mesh made of faces, every present per-vertex channel has one entry per
/// position, and every index names a position.
pub proof fn lemma_mesh_channels_agree(mesh: TerrainMesh, qs: Seq<Quad>, layered: bool)
    requires
        mesh.represents(qs, layered),
        6 * qs.len() <= u32::MAX,
    ensures
        mesh.normals@.len() == mesh.positions@.len(),
        mesh.indices@.len() == mesh.positions@.len(),
        mesh.layers matches Some(l) ==> l@.len() == mesh.positions@.len(),
        mesh.infos matches Some(i) ==> i@.len() == mesh.positions@.len(),
        forall|k: int| 0 <= k < mesh.indices@.len() ==> (#[trigger] mesh.indices@[k] as int) < mesh.positions@.len(),
{
    lemma_positions_len(qs);
    lemma_channel_lengths(qs);
}

/// A side face only fills a gap downwards: its bottom edge never lies above
/// its top edge, and it spans one edge of the tile.
pub proof fn lemma_side_face_hangs_down(m: TileMap, x: int, y: int, d: RampDirection)
    ensures
        side_face(m, x, y, d) matches Some(q) ==> {
            &&& q.c.y <= q.b.y
            &&& q.d.y <= q.a.y
            &&& (q.c.y < q.b.y || q.d.y < q.a.y)
            &&& q.c.x == q.b.x && q.c.z == q.b.z
            &&& q.d.x == q.a.x && q.d.z == q.a.z
            &&& (q.a, q.b) == edge_tops(x, y, corners_of(m, x, y), d)
        },
{
    reveal(side_face);
}

/// A tile whose four edges have no drop at either end adds its top face and
/// nothing else: six vertices, two triangles.
pub proof fn lemma_level_tile_adds_only_its_top(m: TileMap, x: int, y: int)
    requires
        side_face(m, x, y, RampDirection::North) is None,
        side_face(m, x, y, RampDirection::South) is None,
        side_face(m, x, y, RampDirection::West) is None,
        side_face(m, x, y, RampDirection::East) is None,
    ensures
        tile_quads(m, x, y) == seq![top_face(m, x, y)],
        positions_of(tile_quads(m, x, y)).len() == 6,
{
    reveal(tile_quads);
    assert(tile_quads(m, x, y) =~= seq![top_face(m, x, y)]);
    lemma_positions_len(tile_quads(m, x, y));
}

} // verus!
