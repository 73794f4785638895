use vstd::prelude::*;
use vstd::arithmetic::div_mod::{lemma_div_denominator, lemma_fundamental_div_mod};

verus! {

/// The first word of a binary container.
pub const GLB_MAGIC: u32 = 0x46546C67;

/// The container format version.
pub const GLB_VERSION: u32 = 2;

/// The type tag of the JSON chunk.
pub const CHUNK_JSON: u32 = 0x4E4F534A;

/// The type tag of the binary chunk.
pub const CHUNK_BIN: u32 = 0x004E4942;

/// Buffer-view target of vertex attributes.
pub const VERTEX_BUFFER_TARGET: u32 = 34962;

/// Buffer-view target of triangle indices.
pub const INDEX_BUFFER_TARGET: u32 = 34963;

/// Accessor component type of 32-bit floats.
pub const FLOAT_COMPONENT: u32 = 5126;

/// Accessor component type of 32-bit unsigned integers.
pub const UNSIGNED_INT_COMPONENT: u32 = 5125;

/// Bit pattern of positive infinity.
pub const POS_INFINITY_BITS: u32 = 0x7f80_0000;

/// Bit pattern of negative infinity.
pub const NEG_INFINITY_BITS: u32 = 0xff80_0000;

/// Values of one vertex attribute. Floats are given by their IEEE-754
/// single-precision bit patterns.
#[derive(Clone, Debug)]
pub enum AttributeValues {
    Float32x2(Vec<[u32; 2]>),
    Float32x3(Vec<[u32; 3]>),
    Float32x4(Vec<[u32; 4]>),
    /// Any other element layout.
    Other,
}

/// Triangle indices, 16 or 32 bits wide.
#[derive(Clone, Debug)]
pub enum Indices {
    U16(Vec<u16>),
    U32(Vec<u32>),
}

/// A triangle mesh to export; an absent channel is `None`.
#[derive(Clone, Debug)]
pub struct ExportMesh {
    pub position: Option<AttributeValues>,
    pub normal: Option<AttributeValues>,
    pub texcoord0: Option<AttributeValues>,
    pub texcoord1: Option<AttributeValues>,
    pub color: Option<AttributeValues>,
    pub indices: Option<Indices>,
}

/// The vertex channels of an exported mesh.
#[derive(Clone, Copy, Debug, PartialEq, Eq, Structural)]
pub enum MeshAttribute {
    Position,
    Normal,
    TexCoord0,
    TexCoord1,
    Color,
}

/// Why a mesh could not be exported.
#[derive(Clone, Copy, Debug, PartialEq, Eq, Structural)]
pub enum GlbError {
    /// A required channel is absent.
    MissingAttribute(MeshAttribute),
    /// A channel does not have the expected element layout.
    UnsupportedFormat(MeshAttribute),
    /// A channel's element count differs from the position count.
    CountMismatch(MeshAttribute),
    /// The mesh has no vertices.
    EmptyAttribute(MeshAttribute),
    /// The mesh has no index buffer.
    MissingIndices,
    /// The index buffer is empty.
    EmptyIndices,
}

/// The shape of one accessor element.
#[derive(Clone, Copy, Debug, PartialEq, Eq, Structural)]
pub enum AccessorType {
    Scalar,
    Vec2,
    Vec3,
    Vec4,
}

/// A byte range of the binary chunk.
#[derive(Clone, Copy, Debug, PartialEq, Eq, Structural)]
pub struct BufferView {
    pub byte_offset: usize,
    pub byte_length: usize,
    pub target: u32,
}

/// Per-axis minimum and maximum of a float vector attribute, as bit patterns.
#[derive(Clone, Copy, Debug)]
pub struct Bounds {
    pub min: [u32; 3],
    pub max: [u32; 3],
}

/// A typed view of the elements in one buffer view.
#[derive(Clone, Copy, Debug)]
pub struct Accessor {
    pub buffer_view: usize,
    pub component_type: u32,
    pub count: usize,
    pub accessor_type: AccessorType,
    pub bounds: Option<Bounds>,
}

/// One appended array: its words, element count and description.
pub struct Section {
    pub words: Seq<u32>,
    pub count: nat,
    pub accessor_type: AccessorType,
    pub component_type: u32,
    pub target: u32,
    pub bounds: Option<Bounds>,
}

/// The four little-endian bytes of `w`.
pub open spec fn le_bytes(w: u32) -> Seq<u8> {
    seq![(w % 256) as u8, ((w / 256) % 256) as u8, ((w / 65536) % 256) as u8, (w / 16777216) as u8]
}

/// The little-endian bytes of each word in turn.
pub open spec fn le_words(ws: Seq<u32>) -> Seq<u8>
    decreases ws.len(),
{
    if ws.len() == 0 {
        seq![]
    } else {
        le_words(ws.drop_last()) + le_bytes(ws.last())
    }
}

/// The components of each element in turn.
pub open spec fn flatten2(s: Seq<[u32; 2]>) -> Seq<u32>
    decreases s.len(),
{
    if s.len() == 0 {
        seq![]
    } else {
        flatten2(s.drop_last()) + s.last()@
    }
}

pub open spec fn flatten3(s: Seq<[u32; 3]>) -> Seq<u32>
    decreases s.len(),
{
    if s.len() == 0 {
        seq![]
    } else {
        flatten3(s.drop_last()) + s.last()@
    }
}

pub open spec fn flatten4(s: Seq<[u32; 4]>) -> Seq<u32>
    decreases s.len(),
{
    if s.len() == 0 {
        seq![]
    } else {
        flatten4(s.drop_last()) + s.last()@
    }
}

/// The bytes of the binary arena after appending `secs` in order.
pub open spec fn arena(secs: Seq<Section>) -> Seq<u8>
    decreases secs.len(),
{
    if secs.len() == 0 {
        seq![]
    } else {
        arena(secs.drop_last()) + le_words(secs.last().words)
    }
}

/// One buffer view per section, each covering that section's bytes.
pub open spec fn views_of(secs: Seq<Section>) -> Seq<BufferView>
    decreases secs.len(),
{
    if secs.len() == 0 {
        seq![]
    } else {
        views_of(secs.drop_last()).push(
            BufferView {
                byte_offset: arena(secs.drop_last()).len() as usize,
                byte_length: (4 * secs.last().words.len()) as usize,
                target: secs.last().target,
            },
        )
    }
}

/// One accessor per section, reading the buffer view of the same index.
pub open spec fn accessors_of(secs: Seq<Section>) -> Seq<Accessor>
    decreases secs.len(),
{
    if secs.len() == 0 {
        seq![]
    } else {
        accessors_of(secs.drop_last()).push(
            Accessor {
                buffer_view: (secs.len() - 1) as usize,
                component_type: secs.last().component_type,
                count: secs.last().count as usize,
                accessor_type: secs.last().accessor_type,
                bounds: secs.last().bounds,
            },
        )
    }
}

/// Whether a float bit pattern is a NaN.
pub open spec fn is_nan_bits(b: u32) -> bool {
    b % 0x8000_0000 > 0x7f80_0000
}

/// An integer that orders non-NaN floats by value (both zeros map to 0).
pub open spec fn float_key(b: u32) -> int {
    if b >= 0x8000_0000 {
        -((b - 0x8000_0000) as int)
    } else {
        b as int
    }
}

/// The smaller of two floats, ignoring a NaN argument; `a` on a tie.
pub open spec fn fmin_bits(a: u32, b: u32) -> u32 {
    if is_nan_bits(b) {
        a
    } else if is_nan_bits(a) {
        b
    } else if float_key(b) < float_key(a) {
        b
    } else {
        a
    }
}

/// The larger of two floats, ignoring a NaN argument; `a` on a tie.
pub open spec fn fmax_bits(a: u32, b: u32) -> u32 {
    if is_nan_bits(b) {
        a
    } else if is_nan_bits(a) {
        b
    } else if float_key(b) > float_key(a) {
        b
    } else {
        a
    }
}

/// The minimum of component `i` over `s`, starting from positive infinity.
pub open spec fn axis_min(s: Seq<[u32; 3]>, i: int) -> u32
    decreases s.len(),
{
    if s.len() == 0 {
        POS_INFINITY_BITS
    } else {
        fmin_bits(axis_min(s.drop_last(), i), s.last()@[i])
    }
}

/// The maximum of component `i` over `s`, starting from negative infinity.
pub open spec fn axis_max(s: Seq<[u32; 3]>, i: int) -> u32
    decreases s.len(),
{
    if s.len() == 0 {
        NEG_INFINITY_BITS
    } else {
        fmax_bits(axis_max(s.drop_last(), i), s.last()@[i])
    }
}

pub open spec fn bounds_of(s: Seq<[u32; 3]>) -> Bounds {
    Bounds {
        min: [axis_min(s, 0), axis_min(s, 1), axis_min(s, 2)],
        max: [axis_max(s, 0), axis_max(s, 1), axis_max(s, 2)],
    }
}

/// `b` followed by `pad` up to the next multiple of four bytes.
pub open spec fn padded(b: Seq<u8>, pad: u8) -> Seq<u8> {
    b + Seq::new(((4 - b.len() % 4) % 4) as nat, |i: int| pad)
}

/// The binary container around a JSON document and a binary chunk: the
/// header (magic, version, total length), then each chunk as its padded
/// length, its type tag and its padded bytes.
pub open spec fn glb_container(json: Seq<u8>, bin: Seq<u8>) -> Seq<u8> {
    let j = padded(json, 0x20);
    let b = padded(bin, 0);
    let total = (12 + 8 + j.len() + 8 + b.len()) as u32;
    le_bytes(GLB_MAGIC) + le_bytes(GLB_VERSION) + le_bytes(total) + le_bytes(j.len() as u32)
        + le_bytes(CHUNK_JSON) + j + le_bytes(b.len() as u32) + le_bytes(CHUNK_BIN) + b
}

/// Appends `pad` until the length is a multiple of four.
pub fn pad_to_four(buffer: &mut Vec<u8>, pad: u8)
    ensures
        final(buffer)@ == padded(old(buffer)@, pad),
{
    let ghost start = buffer@;
    while buffer.len() % 4 != 0
        invariant
            start.len() <= buffer@.len() <= start.len() + 3,
            buffer@.len() % 4 == 0 ==> buffer@.len() == start.len() + (4 - start.len() % 4) % 4,
            buffer@.len() <= start.len() + (4 - start.len() % 4) % 4,
            buffer@ == start + Seq::new((buffer@.len() - start.len()) as nat, |i: int| pad),
        decreases start.len() + 3 - buffer@.len(),
    {
        buffer.push(pad);
        proof {
            assert(buffer@ =~= start + Seq::new((buffer@.len() - start.len()) as nat, |i: int| pad));
        }
    }
    assert(buffer@ =~= padded(start, pad));
}

fn word_bytes(w: u32) -> (r: [u8; 4])
    ensures
        r@ == le_bytes(w),
{
    let r = [(w % 256) as u8, ((w / 256) % 256) as u8, ((w / 65536) % 256) as u8, (w / 16777216) as u8];
    assert(r@ =~= le_bytes(w));
    r
}

/// Appends the little-endian bytes of each word.
fn push_words(data: &mut Vec<u8>, words: &Vec<u32>)
    ensures
        final(data)@ == old(data)@ + le_words(words@),
{
    let mut i: usize = 0;
    while i < words.len()
        invariant
            i <= words@.len(),
            data@ == old(data)@ + le_words(words@.take(i as int)),
        decreases words@.len() - i,
    {
        let b = word_bytes(words[i]);
        data.push(b[0]);
        data.push(b[1]);
        data.push(b[2]);
        data.push(b[3]);
        proof {
            assert(words@.take(i + 1).drop_last() =~= words@.take(i as int));
            assert(data@ =~= old(data)@ + le_words(words@.take(i + 1)));
        }
        i = i + 1;
    }
    assert(words@.take(i as int) =~= words@);
}

fn flatten_vec2(values: &Vec<[u32; 2]>) -> (r: Vec<u32>)
    ensures
        r@ == flatten2(values@),
{
    let mut out: Vec<u32> = Vec::new();
    let mut i: usize = 0;
    while i < values.len()
        invariant
            i <= values@.len(),
            out@ == flatten2(values@.take(i as int)),
        decreases values@.len() - i,
    {
        let v = values[i];
        out.push(v[0]);
        out.push(v[1]);
        proof {
            assert(values@.take(i + 1).drop_last() =~= values@.take(i as int));
            assert(out@ =~= flatten2(values@.take(i + 1)));
        }
        i = i + 1;
    }
    assert(values@.take(i as int) =~= values@);
    out
}

fn flatten_vec3(values: &Vec<[u32; 3]>) -> (r: Vec<u32>)
    ensures
        r@ == flatten3(values@),
{
    let mut out: Vec<u32> = Vec::new();
    let mut i: usize = 0;
    while i < values.len()
        invariant
            i <= values@.len(),
            out@ == flatten3(values@.take(i as int)),
        decreases values@.len() - i,
    {
        let v = values[i];
        out.push(v[0]);
        out.push(v[1]);
        out.push(v[2]);
        proof {
            assert(values@.take(i + 1).drop_last() =~= values@.take(i as int));
            assert(out@ =~= flatten3(values@.take(i + 1)));
        }
        i = i + 1;
    }
    assert(values@.take(i as int) =~= values@);
    out
}

fn flatten_vec4(values: &Vec<[u32; 4]>) -> (r: Vec<u32>)
    ensures
        r@ == flatten4(values@),
{
    let mut out: Vec<u32> = Vec::new();
    let mut i: usize = 0;
    while i < values.len()
        invariant
            i <= values@.len(),
            out@ == flatten4(values@.take(i as int)),
        decreases values@.len() - i,
    {
        let v = values[i];
        out.push(v[0]);
        out.push(v[1]);
        out.push(v[2]);
        out.push(v[3]);
        proof {
            assert(values@.take(i + 1).drop_last() =~= values@.take(i as int));
            assert(out@ =~= flatten4(values@.take(i + 1)));
        }
        i = i + 1;
    }
    assert(values@.take(i as int) =~= values@);
    out
}

fn float_min(a: u32, b: u32) -> (r: u32)
    ensures
        r == fmin_bits(a, b),
{
    if b % 0x8000_0000 > 0x7f80_0000 {
        a
    } else if a % 0x8000_0000 > 0x7f80_0000 {
        b
    } else if key_of(b) < key_of(a) {
        b
    } else {
        a
    }
}

fn float_max(a: u32, b: u32) -> (r: u32)
    ensures
        r == fmax_bits(a, b),
{
    if b % 0x8000_0000 > 0x7f80_0000 {
        a
    } else if a % 0x8000_0000 > 0x7f80_0000 {
        b
    } else if key_of(b) > key_of(a) {
        b
    } else {
        a
    }
}

fn key_of(b: u32) -> (r: i64)
    ensures
        r as int == float_key(b),
{
    if b >= 0x8000_0000 {
        -((b - 0x8000_0000) as i64)
    } else {
        b as i64
    }
}

/// Per-axis float minimum and maximum of `values`.
fn bounds_vec3(values: &Vec<[u32; 3]>) -> (r: Bounds)
    ensures
        r.min@ == bounds_of(values@).min@,
        r.max@ == bounds_of(values@).max@,
{
    let mut min: [u32; 3] = [POS_INFINITY_BITS, POS_INFINITY_BITS, POS_INFINITY_BITS];
    let mut max: [u32; 3] = [NEG_INFINITY_BITS, NEG_INFINITY_BITS, NEG_INFINITY_BITS];
    let mut i: usize = 0;
    while i < values.len()
        invariant
            i <= values@.len(),
            forall|k: int|
                0 <= k < 3 ==> #[trigger] min@[k] == axis_min(values@.take(i as int), k) && max@[k]
                    == axis_max(values@.take(i as int), k),
        decreases values@.len() - i,
    {
        let v = values[i];
        let mut k: usize = 0;
        while k < 3
            invariant
                i < values@.len(),
                v == values@[i as int],
                k <= 3,
                forall|j: int|
                    0 <= j < k ==> #[trigger] min@[j] == axis_min(values@.take(i + 1), j) && max@[j]
                        == axis_max(values@.take(i + 1), j),
                forall|j: int|
                    k <= j < 3 ==> #[trigger] min@[j] == axis_min(values@.take(i as int), j) && max@[j]
                        == axis_max(values@.take(i as int), j),
            decreases 3 - k,
        {
            let ghost prev_min = min@;
            let ghost prev_max = max@;
            proof {
                assert(values@.take(i + 1).drop_last() =~= values@.take(i as int));
                assert(values@.take(i + 1).last() == v);
            }
            let lo = float_min(min[k], v[k]);
            let hi = float_max(max[k], v[k]);
            min[k] = lo;
            max[k] = hi;
            proof {
                assert(min@ == prev_min.update(k as int, lo));
                assert(max@ == prev_max.update(k as int, hi));
                assert(lo == axis_min(values@.take(i + 1), k as int));
                assert(hi == axis_max(values@.take(i + 1), k as int));
                assert forall|j: int| 0 <= j < k + 1 implies #[trigger] min@[j] == axis_min(
                    values@.take(i + 1),
                    j,
                ) && max@[j] == axis_max(values@.take(i + 1), j) by {
                    if j != k as int {
                        assert(min@[j] == prev_min[j]);
                        assert(max@[j] == prev_max[j]);
                    }
                }
                assert forall|j: int| k + 1 <= j < 3 implies #[trigger] min@[j] == axis_min(
                    values@.take(i as int),
                    j,
                ) && max@[j] == axis_max(values@.take(i as int), j) by {
                    assert(min@[j] == prev_min[j]);
                    assert(max@[j] == prev_max[j]);
                }
            }
            k = k + 1;
        }
        i = i + 1;
    }
    assert(values@.take(i as int) =~= values@);
    let r = Bounds { min, max };
    assert(r.min@ =~= bounds_of(values@).min@);
    assert(r.max@ =~= bounds_of(values@).max@);
    r
}

pub open spec fn is_vec2(a: Option<AttributeValues>) -> bool {
    a matches Some(AttributeValues::Float32x2(_))
}

pub open spec fn is_vec3(a: Option<AttributeValues>) -> bool {
    a matches Some(AttributeValues::Float32x3(_))
}

pub open spec fn is_vec4(a: Option<AttributeValues>) -> bool {
    a matches Some(AttributeValues::Float32x4(_))
}

pub open spec fn vec2_of(a: Option<AttributeValues>) -> Seq<[u32; 2]> {
    match a {
        Some(AttributeValues::Float32x2(v)) => v@,
        _ => seq![],
    }
}

pub open spec fn vec3_of(a: Option<AttributeValues>) -> Seq<[u32; 3]> {
    match a {
        Some(AttributeValues::Float32x3(v)) => v@,
        _ => seq![],
    }
}

pub open spec fn vec4_of(a: Option<AttributeValues>) -> Seq<[u32; 4]> {
    match a {
        Some(AttributeValues::Float32x4(v)) => v@,
        _ => seq![],
    }
}

/// The indices widened to 32 bits.
pub open spec fn indices32(i: Option<Indices>) -> Seq<u32> {
    match i {
        Some(Indices::U16(v)) => v@.map_values(|x: u16| x as u32),
        Some(Indices::U32(v)) => v@,
        None => seq![],
    }
}

/// The first reason, if any, why `m` cannot be exported: a required channel
/// that is absent or of the wrong layout, an optional channel of the wrong
/// layout, absent indices, a channel whose count differs from the position
/// count, no vertices, or no indices.
pub open spec fn glb_check(m: ExportMesh) -> Option<GlbError> {
    if m.position is None {
        Some(GlbError::MissingAttribute(MeshAttribute::Position))
    } else if !is_vec3(m.position) {
        Some(GlbError::UnsupportedFormat(MeshAttribute::Position))
    } else if m.normal is None {
        Some(GlbError::MissingAttribute(MeshAttribute::Normal))
    } else if !is_vec3(m.normal) {
        Some(GlbError::UnsupportedFormat(MeshAttribute::Normal))
    } else if m.texcoord0 is None {
        Some(GlbError::MissingAttribute(MeshAttribute::TexCoord0))
    } else if !is_vec2(m.texcoord0) {
        Some(GlbError::UnsupportedFormat(MeshAttribute::TexCoord0))
    } else if m.texcoord1 is Some && !is_vec2(m.texcoord1) {
        Some(GlbError::UnsupportedFormat(MeshAttribute::TexCoord1))
    } else if m.color is Some && !is_vec4(m.color) {
        Some(GlbError::UnsupportedFormat(MeshAttribute::Color))
    } else if m.indices is None {
        Some(GlbError::MissingIndices)
    } else if vec3_of(m.normal).len() != vec3_of(m.position).len() {
        Some(GlbError::CountMismatch(MeshAttribute::Normal))
    } else if vec2_of(m.texcoord0).len() != vec3_of(m.position).len() {
        Some(GlbError::CountMismatch(MeshAttribute::TexCoord0))
    } else if m.texcoord1 is Some && vec2_of(m.texcoord1).len() != vec3_of(m.position).len() {
        Some(GlbError::CountMismatch(MeshAttribute::TexCoord1))
    } else if m.color is Some && vec4_of(m.color).len() != vec3_of(m.position).len() {
        Some(GlbError::CountMismatch(MeshAttribute::Color))
    } else if vec3_of(m.position).len() == 0 {
        Some(GlbError::EmptyAttribute(MeshAttribute::Position))
    } else if indices32(m.indices).len() == 0 {
        Some(GlbError::EmptyIndices)
    } else {
        None
    }
}

pub open spec fn section2(v: Seq<[u32; 2]>) -> Section {
    Section {
        words: flatten2(v),
        count: v.len(),
        accessor_type: AccessorType::Vec2,
        component_type: FLOAT_COMPONENT,
        target: VERTEX_BUFFER_TARGET,
        bounds: None,
    }
}

pub open spec fn section3(v: Seq<[u32; 3]>, bounds: Option<Bounds>) -> Section {
    Section {
        words: flatten3(v),
        count: v.len(),
        accessor_type: AccessorType::Vec3,
        component_type: FLOAT_COMPONENT,
        target: VERTEX_BUFFER_TARGET,
        bounds,
    }
}

pub open spec fn section4(v: Seq<[u32; 4]>) -> Section {
    Section {
        words: flatten4(v),
        count: v.len(),
        accessor_type: AccessorType::Vec4,
        component_type: FLOAT_COMPONENT,
        target: VERTEX_BUFFER_TARGET,
        bounds: None,
    }
}

pub open spec fn index_section(v: Seq<u32>) -> Section {
    Section {
        words: v,
        count: v.len(),
        accessor_type: AccessorType::Scalar,
        component_type: UNSIGNED_INT_COMPONENT,
        target: INDEX_BUFFER_TARGET,
        bounds: None,
    }
}

/// The arrays of an exportable mesh in the order they are appended:
/// positions (with bounds), normals, primary texture coordinates, the
/// secondary ones and colors when present, and the indices.
pub open spec fn mesh_sections(m: ExportMesh) -> Seq<Section> {
    seq![
        section3(vec3_of(m.position), Some(bounds_of(vec3_of(m.position)))),
        section3(vec3_of(m.normal), None),
        section2(vec2_of(m.texcoord0)),
    ] + (if m.texcoord1 is Some {
        seq![section2(vec2_of(m.texcoord1))]
    } else {
        seq![]
    }) + (if m.color is Some {
        seq![section4(vec4_of(m.color))]
    } else {
        seq![]
    }) + seq![index_section(indices32(m.indices))]
}

/// The binary chunk and its descriptors, with the accessor index of each channel.
#[derive(Clone, Debug)]
pub struct GlbBuffers {
    pub bin: Vec<u8>,
    pub buffer_views: Vec<BufferView>,
    pub accessors: Vec<Accessor>,
    pub position: usize,
    pub normal: usize,
    pub texcoord0: usize,
    pub texcoord1: Option<usize>,
    pub color: Option<usize>,
    pub indices: usize,
}

/// Bounds whose arrays hold the same bit patterns.
pub open spec fn same_bounds(a: Option<Bounds>, b: Option<Bounds>) -> bool {
    match (a, b) {
        (Some(x), Some(y)) => x.min@ == y.min@ && x.max@ == y.max@,
        (None, None) => true,
        _ => false,
    }
}

/// Accessors that agree field by field, bounds by their bit patterns.
pub open spec fn same_accessors(a: Seq<Accessor>, b: Seq<Accessor>) -> bool {
    &&& a.len() == b.len()
    &&& forall|i: int|
        #![trigger a[i]]
        0 <= i < a.len() ==> {
            &&& a[i].buffer_view == b[i].buffer_view
            &&& a[i].component_type == b[i].component_type
            &&& a[i].count == b[i].count
            &&& a[i].accessor_type == b[i].accessor_type
            &&& same_bounds(a[i].bounds, b[i].bounds)
        }
}

/// `r` lays out `secs`: the arena bytes, one view and one accessor each.
pub open spec fn lays_out(r: GlbBuffers, secs: Seq<Section>) -> bool {
    &&& r.bin@ == arena(secs)
    &&& r.buffer_views@ == views_of(secs)
    &&& same_accessors(r.accessors@, accessors_of(secs))
}

proof fn lemma_le_words_len(ws: Seq<u32>)
    ensures
        le_words(ws).len() == 4 * ws.len(),
    decreases ws.len(),
{
    if ws.len() > 0 {
        lemma_le_words_len(ws.drop_last());
    }
}

proof fn lemma_arena_aligned(secs: Seq<Section>)
    ensures
        arena(secs).len() % 4 == 0,
    decreases secs.len(),
{
    if secs.len() > 0 {
        lemma_arena_aligned(secs.drop_last());
        lemma_le_words_len(secs.last().words);
    }
}

/// An append-only arena of 4-byte-aligned arrays with their buffer views and
/// accessors.
struct BufferWriter {
    data: Vec<u8>,
    buffer_views: Vec<BufferView>,
    accessors: Vec<Accessor>,
    sections: Ghost<Seq<Section>>,
}

impl BufferWriter {
    spec fn wf(&self) -> bool {
        &&& self.data@ == arena(self.sections@)
        &&& self.buffer_views@ == views_of(self.sections@)
        &&& same_accessors(self.accessors@, accessors_of(self.sections@))
    }

    fn new() -> (r: BufferWriter)
        ensures
            r.wf(),
            r.sections@ == Seq::<Section>::empty(),
    {
        BufferWriter { data: Vec::new(), buffer_views: Vec::new(), accessors: Vec::new(), sections: Ghost(Seq::empty()) }
    }

    fn align(&mut self)
        ensures
            final(self).data@ == padded(old(self).data@, 0),
            final(self).buffer_views == old(self).buffer_views,
            final(self).accessors == old(self).accessors,
            final(self).sections == old(self).sections,
    {
        pad_to_four(&mut self.data, 0);
    }

    /// Appends `words` as one array of `count` elements.
    fn push_section(
        &mut self,
        words: &Vec<u32>,
        count: usize,
        accessor_type: AccessorType,
        component_type: u32,
        target: u32,
        bounds: Option<Bounds>,
    ) -> (r: usize)
        requires
            old(self).wf(),
        ensures
            final(self).wf(),
            r == old(self).sections@.len(),
            final(self).sections@ == old(self).sections@.push(
                Section { words: words@, count: count as nat, accessor_type, component_type, target, bounds },
            ),
    {
        let ghost secs = self.sections@;
        let ghost sec = Section { words: words@, count: count as nat, accessor_type, component_type, target, bounds };
        proof {
            lemma_arena_aligned(secs);
            lemma_le_words_len(words@);
            assert(secs.push(sec).drop_last() =~= secs);
            lemma_views_len(secs);
        }
        self.align();
        assert(self.data@ =~= arena(secs));
        let byte_offset = self.data.len();
        push_words(&mut self.data, words);
        let byte_length = self.data.len() - byte_offset;
        let view_index = self.buffer_views.len();
        self.buffer_views.push(BufferView { byte_offset, byte_length, target });
        let accessor_index = self.accessors.len();
        self.accessors.push(
            Accessor { buffer_view: view_index, component_type, count, accessor_type, bounds },
        );
        self.sections = Ghost(secs.push(sec));
        proof {
            assert(self.data@ =~= arena(secs.push(sec)));
            assert(self.buffer_views@ =~= views_of(secs.push(sec)));
            let a = self.accessors@;
            let b = accessors_of(secs.push(sec));
            assert forall|i: int| #![trigger a[i]] 0 <= i < a.len() implies {
                &&& a[i].buffer_view == b[i].buffer_view
                &&& a[i].component_type == b[i].component_type
                &&& a[i].count == b[i].count
                &&& a[i].accessor_type == b[i].accessor_type
                &&& same_bounds(a[i].bounds, b[i].bounds)
            } by {
                if i < secs.len() {
                    assert(a[i] == old(self).accessors@[i]);
                    assert(b[i] == accessors_of(secs)[i]);
                } else {
                    match bounds {
                        Some(x) => {},
                        None => {},
                    }
                }
            }
        }
        accessor_index
    }

    fn finish(self) -> (r: (Vec<u8>, Vec<BufferView>, Vec<Accessor>))
        ensures
            r.0 == self.data,
            r.1 == self.buffer_views,
            r.2 == self.accessors,
    {
        (self.data, self.buffer_views, self.accessors)
    }
}

proof fn lemma_views_len(secs: Seq<Section>)
    ensures
        views_of(secs).len() == secs.len(),
        accessors_of(secs).len() == secs.len(),
    decreases secs.len(),
{
    if secs.len() > 0 {
        lemma_views_len(secs.drop_last());
    }
}

impl BufferWriter {
    fn push_vec2(&mut self, values: &Vec<[u32; 2]>, attribute: MeshAttribute) -> (r: Result<usize, GlbError>)
        requires
            old(self).wf(),
        ensures
            values@.len() == 0 ==> r == Err::<usize, GlbError>(GlbError::EmptyAttribute(attribute))
                && *final(self) == *old(self),
            values@.len() > 0 ==> final(self).wf() && r == Ok::<usize, GlbError>(
                old(self).sections@.len() as usize,
            ) && final(self).sections@ == old(self).sections@.push(section2(values@)),
    {
        if values.len() == 0 {
            return Err(GlbError::EmptyAttribute(attribute));
        }
        let words = flatten_vec2(values);
        Ok(self.push_section(&words, values.len(), AccessorType::Vec2, FLOAT_COMPONENT, VERTEX_BUFFER_TARGET, None))
    }

    fn push_vec3(&mut self, values: &Vec<[u32; 3]>, include_bounds: bool, attribute: MeshAttribute) -> (r: Result<
        usize,
        GlbError,
    >)
        requires
            old(self).wf(),
        ensures
            values@.len() == 0 ==> r == Err::<usize, GlbError>(GlbError::EmptyAttribute(attribute))
                && *final(self) == *old(self),
            values@.len() > 0 ==> final(self).wf() && r == Ok::<usize, GlbError>(
                old(self).sections@.len() as usize,
            ) && final(self).sections@.len() == old(self).sections@.len() + 1
                && final(self).sections@.drop_last() == old(self).sections@ && {
                let sec = final(self).sections@.last();
                &&& sec.words == section3(values@, None).words
                &&& sec.count == values@.len()
                &&& sec.accessor_type == AccessorType::Vec3
                &&& sec.component_type == FLOAT_COMPONENT
                &&& sec.target == VERTEX_BUFFER_TARGET
                &&& same_bounds(
                    sec.bounds,
                    if include_bounds {
                        Some(bounds_of(values@))
                    } else {
                        None
                    },
                )
            },
    {
        if values.len() == 0 {
            return Err(GlbError::EmptyAttribute(attribute));
        }
        let words = flatten_vec3(values);
        let bounds = if include_bounds {
            Some(bounds_vec3(values))
        } else {
            None
        };
        let r = self.push_section(&words, values.len(), AccessorType::Vec3, FLOAT_COMPONENT, VERTEX_BUFFER_TARGET, bounds);
        assert(self.sections@.drop_last() =~= old(self).sections@);
        Ok(r)
    }

    fn push_vec4(&mut self, values: &Vec<[u32; 4]>, attribute: MeshAttribute) -> (r: Result<usize, GlbError>)
        requires
            old(self).wf(),
        ensures
            values@.len() == 0 ==> r == Err::<usize, GlbError>(GlbError::EmptyAttribute(attribute))
                && *final(self) == *old(self),
            values@.len() > 0 ==> final(self).wf() && r == Ok::<usize, GlbError>(
                old(self).sections@.len() as usize,
            ) && final(self).sections@ == old(self).sections@.push(section4(values@)),
    {
        if values.len() == 0 {
            return Err(GlbError::EmptyAttribute(attribute));
        }
        let words = flatten_vec4(values);
        Ok(self.push_section(&words, values.len(), AccessorType::Vec4, FLOAT_COMPONENT, VERTEX_BUFFER_TARGET, None))
    }

    fn push_indices(&mut self, values: &Vec<u32>) -> (r: Result<usize, GlbError>)
        requires
            old(self).wf(),
        ensures
            values@.len() == 0 ==> r == Err::<usize, GlbError>(GlbError::EmptyIndices) && *final(self)
                == *old(self),
            values@.len() > 0 ==> final(self).wf() && r == Ok::<usize, GlbError>(
                old(self).sections@.len() as usize,
            ) && final(self).sections@ == old(self).sections@.push(index_section(values@)),
    {
        if values.len() == 0 {
            return Err(GlbError::EmptyIndices);
        }
        Ok(
            self.push_section(
                values,
                values.len(),
                AccessorType::Scalar,
                UNSIGNED_INT_COMPONENT,
                INDEX_BUFFER_TARGET,
                None,
            ),
        )
    }
}

fn extract_vec2(values: &Option<AttributeValues>, attribute: MeshAttribute) -> (r: Result<&Vec<[u32; 2]>, GlbError>)
    ensures
        values is None ==> r == Err::<&Vec<[u32; 2]>, GlbError>(GlbError::MissingAttribute(attribute)),
        values is Some && !is_vec2(*values) ==> r == Err::<&Vec<[u32; 2]>, GlbError>(
            GlbError::UnsupportedFormat(attribute),
        ),
        is_vec2(*values) ==> (r matches Ok(v) && v@ == vec2_of(*values)),
{
    match values {
        Some(AttributeValues::Float32x2(data)) => Ok(data),
        Some(_) => Err(GlbError::UnsupportedFormat(attribute)),
        None => Err(GlbError::MissingAttribute(attribute)),
    }
}

fn extract_vec3(values: &Option<AttributeValues>, attribute: MeshAttribute) -> (r: Result<&Vec<[u32; 3]>, GlbError>)
    ensures
        values is None ==> r == Err::<&Vec<[u32; 3]>, GlbError>(GlbError::MissingAttribute(attribute)),
        values is Some && !is_vec3(*values) ==> r == Err::<&Vec<[u32; 3]>, GlbError>(
            GlbError::UnsupportedFormat(attribute),
        ),
        is_vec3(*values) ==> (r matches Ok(v) && v@ == vec3_of(*values)),
{
    match values {
        Some(AttributeValues::Float32x3(data)) => Ok(data),
        Some(_) => Err(GlbError::UnsupportedFormat(attribute)),
        None => Err(GlbError::MissingAttribute(attribute)),
    }
}

fn extract_optional_vec2(values: &Option<AttributeValues>, attribute: MeshAttribute) -> (r: Result<
    Option<&Vec<[u32; 2]>>,
    GlbError,
>)
    ensures
        values is None ==> r == Ok::<Option<&Vec<[u32; 2]>>, GlbError>(None),
        values is Some && !is_vec2(*values) ==> r == Err::<Option<&Vec<[u32; 2]>>, GlbError>(
            GlbError::UnsupportedFormat(attribute),
        ),
        is_vec2(*values) ==> (r matches Ok(Some(v)) && v@ == vec2_of(*values)),
{
    match values {
        Some(AttributeValues::Float32x2(data)) => Ok(Some(data)),
        Some(_) => Err(GlbError::UnsupportedFormat(attribute)),
        None => Ok(None),
    }
}

fn extract_optional_vec4(values: &Option<AttributeValues>, attribute: MeshAttribute) -> (r: Result<
    Option<&Vec<[u32; 4]>>,
    GlbError,
>)
    ensures
        values is None ==> r == Ok::<Option<&Vec<[u32; 4]>>, GlbError>(None),
        values is Some && !is_vec4(*values) ==> r == Err::<Option<&Vec<[u32; 4]>>, GlbError>(
            GlbError::UnsupportedFormat(attribute),
        ),
        is_vec4(*values) ==> (r matches Ok(Some(v)) && v@ == vec4_of(*values)),
{
    match values {
        Some(AttributeValues::Float32x4(data)) => Ok(Some(data)),
        Some(_) => Err(GlbError::UnsupportedFormat(attribute)),
        None => Ok(None),
    }
}

/// The indices widened to 32 bits; fails when there are none.
fn extract_indices(indices: &Option<Indices>) -> (r: Result<Vec<u32>, GlbError>)
    ensures
        indices is None ==> r == Err::<Vec<u32>, GlbError>(GlbError::MissingIndices),
        indices is Some ==> (r matches Ok(v) && v@ == indices32(*indices)),
{
    match indices {
        Some(Indices::U16(data)) => {
            let mut out: Vec<u32> = Vec::new();
            let mut i: usize = 0;
            while i < data.len()
                invariant
                    i <= data@.len(),
                    out@ == data@.take(i as int).map_values(|x: u16| x as u32),
                decreases data@.len() - i,
            {
                out.push(data[i] as u32);
                i = i + 1;
                proof {
                    assert(out@ =~= data@.take(i as int).map_values(|x: u16| x as u32));
                }
            }
            assert(data@.take(i as int) =~= data@);
            Ok(out)
        },
        Some(Indices::U32(data)) => {
            let mut out: Vec<u32> = Vec::new();
            let mut i: usize = 0;
            while i < data.len()
                invariant
                    i <= data@.len(),
                    out@ == data@.take(i as int),
                decreases data@.len() - i,
            {
                out.push(data[i]);
                i = i + 1;
                proof {
                    assert(out@ =~= data@.take(i as int));
                }
            }
            assert(data@.take(i as int) =~= data@);
            Ok(out)
        },
        None => Err(GlbError::MissingIndices),
    }
}

/// Checks a mesh and lays out its arrays for the binary container: the
/// binary chunk, one buffer view and one accessor per array, and which
/// accessor holds each channel. Fails with the first problem `glb_check`
/// finds, and then produces nothing.
pub fn write_mesh_buffers(mesh: &ExportMesh) -> (r: Result<GlbBuffers, GlbError>)
    ensures
        match glb_check(*mesh) {
            Some(e) => r == Err::<GlbBuffers, GlbError>(e),
            None => r matches Ok(b) && lays_out(b, mesh_sections(*mesh)) && b.position == 0
                && b.normal == 1 && b.texcoord0 == 2 && b.texcoord1 == (if mesh.texcoord1 is Some {
                Some(3usize)
            } else {
                None
            }) && b.color == (if mesh.color is None {
                None
            } else if mesh.texcoord1 is Some {
                Some(4usize)
            } else {
                Some(3usize)
            }) && b.indices as int == mesh_sections(*mesh).len() - 1,
        },
{
    let positions = match extract_vec3(&mesh.position, MeshAttribute::Position) {
        Ok(v) => v,
        Err(e) => return Err(e),
    };
    let normals = match extract_vec3(&mesh.normal, MeshAttribute::Normal) {
        Ok(v) => v,
        Err(e) => return Err(e),
    };
    let texcoords = match extract_vec2(&mesh.texcoord0, MeshAttribute::TexCoord0) {
        Ok(v) => v,
        Err(e) => return Err(e),
    };
    let texcoords1 = match extract_optional_vec2(&mesh.texcoord1, MeshAttribute::TexCoord1) {
        Ok(v) => v,
        Err(e) => return Err(e),
    };
    let colors = match extract_optional_vec4(&mesh.color, MeshAttribute::Color) {
        Ok(v) => v,
        Err(e) => return Err(e),
    };
    let indices = match extract_indices(&mesh.indices) {
        Ok(v) => v,
        Err(e) => return Err(e),
    };
    if positions.len() != normals.len() {
        return Err(GlbError::CountMismatch(MeshAttribute::Normal));
    }
    if positions.len() != texcoords.len() {
        return Err(GlbError::CountMismatch(MeshAttribute::TexCoord0));
    }
    if let Some(uv1) = texcoords1 {
        if uv1.len() != positions.len() {
            return Err(GlbError::CountMismatch(MeshAttribute::TexCoord1));
        }
    }
    if let Some(cols) = colors {
        if cols.len() != positions.len() {
            return Err(GlbError::CountMismatch(MeshAttribute::Color));
        }
    }
    let mut writer = BufferWriter::new();
    let position = match writer.push_vec3(positions, true, MeshAttribute::Position) {
        Ok(i) => i,
        Err(e) => return Err(e),
    };
    let ghost after_position = writer.sections@;
    let normal = match writer.push_vec3(normals, false, MeshAttribute::Normal) {
        Ok(i) => i,
        Err(e) => return Err(e),
    };
    let ghost after_normal = writer.sections@;
    let texcoord0 = match writer.push_vec2(texcoords, MeshAttribute::TexCoord0) {
        Ok(i) => i,
        Err(e) => return Err(e),
    };
    let texcoord1 = match texcoords1 {
        Some(uvs) => match writer.push_vec2(uvs, MeshAttribute::TexCoord1) {
            Ok(i) => Some(i),
            Err(e) => return Err(e),
        },
        None => None,
    };
    let color = match colors {
        Some(cols) => match writer.push_vec4(cols, MeshAttribute::Color) {
            Ok(i) => Some(i),
            Err(e) => return Err(e),
        },
        None => None,
    };
    let index = match writer.push_indices(&indices) {
        Ok(i) => i,
        Err(e) => return Err(e),
    };
    let ghost secs = writer.sections@;
    let (bin, buffer_views, accessors) = writer.finish();
    let r = GlbBuffers { bin, buffer_views, accessors, position, normal, texcoord0, texcoord1, color, indices: index };
    proof {
        let expected = mesh_sections(*mesh);
        assert(secs.len() == expected.len());
        assert forall|i: int| 0 <= i < secs.len() implies #[trigger] secs[i] == expected[i] || (i == 0
            && secs[i].words == expected[i].words && secs[i].count == expected[i].count
            && secs[i].accessor_type == expected[i].accessor_type && secs[i].component_type
            == expected[i].component_type && secs[i].target == expected[i].target && same_bounds(
            secs[i].bounds,
            expected[i].bounds,
        )) by {
            if i == 0 {
                assert(secs[0] == after_position[0]);
            } else if i == 1 {
                assert(secs[1] == after_normal[1]);
                assert(after_normal[1] == after_normal.last());
                assert(after_normal[1].bounds is None);
            }
        }
        lemma_layout_congruent(secs, expected);
    }
    Ok(r)
}

/// Two section lists that differ only in how equal bounds are held give the
/// same arena, views and accessors.
proof fn lemma_layout_congruent(a: Seq<Section>, b: Seq<Section>)
    requires
        a.len() == b.len(),
        forall|i: int|
            0 <= i < a.len() ==> #[trigger] a[i] == b[i] || (a[i].words == b[i].words && a[i].count
                == b[i].count && a[i].accessor_type == b[i].accessor_type && a[i].component_type
                == b[i].component_type && a[i].target == b[i].target && same_bounds(
                a[i].bounds,
                b[i].bounds,
            )),
    ensures
        arena(a) == arena(b),
        views_of(a) == views_of(b),
        same_accessors(accessors_of(a), accessors_of(b)),
    decreases a.len(),
{
    lemma_views_len(a);
    lemma_views_len(b);
    if a.len() > 0 {
        assert forall|i: int| 0 <= i < a.len() - 1 implies #[trigger] a.drop_last()[i] == b.drop_last()[i] || (
        a.drop_last()[i].words == b.drop_last()[i].words && a.drop_last()[i].count == b.drop_last()[i].count
            && a.drop_last()[i].accessor_type == b.drop_last()[i].accessor_type
            && a.drop_last()[i].component_type == b.drop_last()[i].component_type
            && a.drop_last()[i].target == b.drop_last()[i].target && same_bounds(
            a.drop_last()[i].bounds,
            b.drop_last()[i].bounds,
        )) by {
            assert(a.drop_last()[i] == a[i]);
            assert(b.drop_last()[i] == b[i]);
        }
        lemma_layout_congruent(a.drop_last(), b.drop_last());
        assert(a.last() == a[a.len() - 1]);
        assert(b.last() == b[b.len() - 1]);
        let x = accessors_of(a);
        let y = accessors_of(b);
        assert forall|i: int| #![trigger x[i]] 0 <= i < x.len() implies {
            &&& x[i].buffer_view == y[i].buffer_view
            &&& x[i].component_type == y[i].component_type
            &&& x[i].count == y[i].count
            &&& x[i].accessor_type == y[i].accessor_type
            &&& same_bounds(x[i].bounds, y[i].bounds)
        } by {
            if i < a.len() - 1 {
                assert(x[i] == accessors_of(a.drop_last())[i]);
                assert(y[i] == accessors_of(b.drop_last())[i]);
            } else {
                match (a.last().bounds, b.last().bounds) {
                    (Some(p), Some(q)) => {},
                    _ => {},
                }
            }
        }
    }
}

fn push_u32(out: &mut Vec<u8>, w: u32)
    ensures
        final(out)@ == old(out)@ + le_bytes(w),
{
    let b = word_bytes(w);
    out.push(b[0]);
    out.push(b[1]);
    out.push(b[2]);
    out.push(b[3]);
    assert(out@ =~= old(out)@ + le_bytes(w));
}

proof fn lemma_padded_len(b: Seq<u8>, pad: u8)
    ensures
        padded(b, pad).len() <= b.len() + 3,
        padded(b, pad).len() % 4 == 0,
{
}

/// Wraps a JSON document and a binary chunk in the binary container: the
/// document is padded with spaces and the chunk with zero bytes to a multiple
/// of four, behind a 12-byte header and an 8-byte header per chunk.
pub fn assemble_glb(json: Vec<u8>, bin: Vec<u8>) -> (r: Vec<u8>)
    requires
        json@.len() + bin@.len() + 34 <= u32::MAX,
    ensures
        r@ == glb_container(json@, bin@),
{
    let ghost j0 = json@;
    let ghost b0 = bin@;
    let mut json_bytes = json;
    let mut bin_bytes = bin;
    pad_to_four(&mut json_bytes, 0x20);
    pad_to_four(&mut bin_bytes, 0);
    proof {
        lemma_padded_len(j0, 0x20);
        lemma_padded_len(b0, 0);
    }
    let total_length = 12 + 8 + json_bytes.len() + 8 + bin_bytes.len();
    let mut glb: Vec<u8> = Vec::new();
    push_u32(&mut glb, GLB_MAGIC);
    push_u32(&mut glb, GLB_VERSION);
    push_u32(&mut glb, total_length as u32);
    push_u32(&mut glb, json_bytes.len() as u32);
    push_u32(&mut glb, CHUNK_JSON);
    glb.append(&mut json_bytes);
    push_u32(&mut glb, bin_bytes.len() as u32);
    push_u32(&mut glb, CHUNK_BIN);
    glb.append(&mut bin_bytes);
    assert(glb@ =~= glb_container(j0, b0));
    glb
}

/// The value of the four little-endian bytes of `s` at `off`.
pub open spec fn read_le32(s: Seq<u8>, off: int) -> int {
    s[off] + 256 * s[off + 1] + 65536 * s[off + 2] + 16777216 * s[off + 3]
}

/// Reading back the little-endian bytes of a word gives the word.
pub proof fn lemma_le_bytes_round_trip(w: u32)
    ensures
        read_le32(le_bytes(w), 0) == w,
{
    let x = w as int;
    lemma_fundamental_div_mod(x, 256);
    lemma_fundamental_div_mod(x / 256, 256);
    lemma_fundamental_div_mod(x / 65536, 256);
    lemma_div_denominator(x, 256, 256);
    lemma_div_denominator(x, 65536, 256);
    assert(x / 16777216 < 256);
}

/// The container starts with the magic word, version 2 and a total length of
/// 12 + 8 + the padded document's length + 8 + the padded chunk's length; then
/// come the document's length, its tag and the document, the chunk's length,
/// its tag and the chunk.
pub proof fn lemma_container_layout(json: Seq<u8>, bin: Seq<u8>)
    requires
        json.len() + bin.len() + 34 <= u32::MAX,
    ensures
        ({
            let c = glb_container(json, bin);
            let j = padded(json, 0x20);
            let b = padded(bin, 0);
            &&& c.len() == 12 + 8 + j.len() + 8 + b.len()
            &&& read_le32(c, 0) == GLB_MAGIC
            &&& read_le32(c, 4) == GLB_VERSION
            &&& read_le32(c, 8) == 12 + 8 + j.len() + 8 + b.len()
            &&& read_le32(c, 12) == j.len()
            &&& read_le32(c, 16) == CHUNK_JSON
            &&& c.subrange(20, 20 + j.len() as int) == j
            &&& read_le32(c, 20 + j.len() as int) == b.len()
            &&& read_le32(c, 24 + j.len() as int) == CHUNK_BIN
            &&& c.subrange(28 + j.len() as int, c.len() as int) == b
        }),
{
    let c = glb_container(json, bin);
    let j = padded(json, 0x20);
    let b = padded(bin, 0);
    lemma_padded_len(json, 0x20);
    lemma_padded_len(bin, 0);
    let total = (12 + 8 + j.len() + 8 + b.len()) as u32;
    let h = le_bytes(GLB_MAGIC) + le_bytes(GLB_VERSION) + le_bytes(total) + le_bytes(j.len() as u32)
        + le_bytes(CHUNK_JSON);
    let m = le_bytes(b.len() as u32) + le_bytes(CHUNK_BIN);
    assert(c =~= h + j + m + b);
    lemma_le_bytes_round_trip(GLB_MAGIC);
    lemma_le_bytes_round_trip(GLB_VERSION);
    lemma_le_bytes_round_trip(total);
    lemma_le_bytes_round_trip(j.len() as u32);
    lemma_le_bytes_round_trip(CHUNK_JSON);
    lemma_le_bytes_round_trip(b.len() as u32);
    lemma_le_bytes_round_trip(CHUNK_BIN);
    assert(c.subrange(20, 20 + j.len() as int) =~= j);
    assert(c.subrange(28 + j.len() as int, c.len() as int) =~= b);
    assert(read_le32(c, 0) == read_le32(le_bytes(GLB_MAGIC), 0));
    assert(read_le32(c, 4) == read_le32(le_bytes(GLB_VERSION), 0));
    assert(read_le32(c, 8) == read_le32(le_bytes(total), 0));
    assert(read_le32(c, 12) == read_le32(le_bytes(j.len() as u32), 0));
    assert(read_le32(c, 16) == read_le32(le_bytes(CHUNK_JSON), 0));
    assert(read_le32(c, 20 + j.len() as int) == read_le32(le_bytes(b.len() as u32), 0));
    assert(read_le32(c, 24 + j.len() as int) == read_le32(le_bytes(CHUNK_BIN), 0));
}

/// A mesh without a normal channel cannot be exported: the check fails, with
/// `MissingAttribute(Normal)` once the positions are in order.
pub proof fn lemma_missing_normal_is_rejected(m: ExportMesh)
    requires
        m.normal is None,
    ensures
        glb_check(m) is Some,
        is_vec3(m.position) ==> glb_check(m) == Some(GlbError::MissingAttribute(MeshAttribute::Normal)),
{
}

proof fn lemma_arena_grows(secs: Seq<Section>)
    ensures
        secs.len() > 0 ==> arena(secs) == arena(secs.drop_last()) + le_words(secs.last().words),
        secs.len() > 0 ==> arena(secs.drop_last()).len() <= arena(secs).len(),
{
}

/// Each buffer view lies inside the arena and covers exactly the
/// little-endian bytes of its array.
pub proof fn lemma_views_cover_sections(secs: Seq<Section>)
    requires
        arena(secs).len() <= usize::MAX,
    ensures
        views_of(secs).len() == secs.len(),
        forall|k: int|
            #![trigger views_of(secs)[k]]
            0 <= k < secs.len() ==> {
                let v = views_of(secs)[k];
                &&& v.byte_offset + v.byte_length <= arena(secs).len()
                &&& arena(secs).subrange(v.byte_offset as int, v.byte_offset + v.byte_length) == le_words(
                    secs[k].words,
                )
            },
    decreases secs.len(),
{
    lemma_views_len(secs);
    if secs.len() > 0 {
        let prev = secs.drop_last();
        lemma_arena_grows(secs);
        lemma_views_cover_sections(prev);
        lemma_le_words_len(secs.last().words);
        let a = arena(secs);
        assert forall|k: int| #![trigger views_of(secs)[k]] 0 <= k < secs.len() implies {
            let v = views_of(secs)[k];
            &&& v.byte_offset + v.byte_length <= a.len()
            &&& a.subrange(v.byte_offset as int, v.byte_offset + v.byte_length) == le_words(secs[k].words)
        } by {
            let v = views_of(secs)[k];
            if k < secs.len() - 1 {
                assert(v == views_of(prev)[k]);
                assert(secs[k] == prev[k]);
                assert(a.subrange(v.byte_offset as int, v.byte_offset + v.byte_length) =~= arena(prev).subrange(
                    v.byte_offset as int,
                    v.byte_offset + v.byte_length,
                ));
            } else {
                assert(a.subrange(v.byte_offset as int, v.byte_offset + v.byte_length) =~= le_words(
                    secs.last().words,
                ));
            }
        }
    }
}

/// The words of a little-endian byte string read back one by one.
pub proof fn lemma_le_words_read_back(ws: Seq<u32>)
    ensures
        le_words(ws).len() == 4 * ws.len(),
        forall|i: int| 0 <= i < ws.len() ==> #[trigger] read_le32(le_words(ws), 4 * i) == ws[i],
    decreases ws.len(),
{
    lemma_le_words_len(ws);
    if ws.len() > 0 {
        let prev = ws.drop_last();
        lemma_le_words_read_back(prev);
        lemma_le_words_len(prev);
        lemma_le_bytes_round_trip(ws.last());
        assert forall|i: int| 0 <= i < ws.len() implies #[trigger] read_le32(le_words(ws), 4 * i) == ws[i] by {
            if i < ws.len() - 1 {
                assert(read_le32(le_words(ws), 4 * i) == read_le32(le_words(prev), 4 * i));
                assert(ws[i] == prev[i]);
            } else {
                assert(read_le32(le_words(ws), 4 * i) == read_le32(le_bytes(ws.last()), 0));
            }
        }
    }
}

/// An exported mesh can be read back: the first buffer view holds the
/// position components and the last one the widened indices, each as
/// little-endian words, and the position accessor carries the positions'
/// bounding box.
pub proof fn lemma_export_reads_back(m: ExportMesh, b: GlbBuffers)
    requires
        glb_check(m) is None,
        lays_out(b, mesh_sections(m)),
        b.indices as int == mesh_sections(m).len() - 1,
        b.bin@.len() <= usize::MAX,
    ensures
        ({
            let pv = b.buffer_views@[0];
            let iv = b.buffer_views@[b.indices as int];
            &&& b.bin@.subrange(pv.byte_offset as int, pv.byte_offset + pv.byte_length) == le_words(
                flatten3(vec3_of(m.position)),
            )
            &&& b.bin@.subrange(iv.byte_offset as int, iv.byte_offset + iv.byte_length) == le_words(
                indices32(m.indices),
            )
            &&& pv.byte_offset == 0
            &&& iv.target == INDEX_BUFFER_TARGET
            &&& b.accessors@[0].bounds matches Some(bb) && bb.min@ == bounds_of(vec3_of(m.position)).min@
                && bb.max@ == bounds_of(vec3_of(m.position)).max@
        }),
{
    let secs = mesh_sections(m);
    lemma_views_cover_sections(secs);
    lemma_views_len(secs);
    assert(secs[0] == section3(vec3_of(m.position), Some(bounds_of(vec3_of(m.position)))));
    assert(secs[secs.len() - 1] == index_section(indices32(m.indices)));
    lemma_first_view_at_start(secs);
}

proof fn lemma_first_view_at_start(secs: Seq<Section>)
    requires
        secs.len() > 0,
    ensures
        views_of(secs)[0].byte_offset == 0,
        views_of(secs)[0].target == secs[0].target,
        accessors_of(secs)[0].bounds == secs[0].bounds,
    decreases secs.len(),
{
    lemma_views_len(secs);
    if secs.len() > 1 {
        lemma_first_view_at_start(secs.drop_last());
        lemma_views_len(secs.drop_last());
        assert(views_of(secs)[0] == views_of(secs.drop_last())[0]);
        assert(accessors_of(secs)[0] == accessors_of(secs.drop_last())[0]);
    } else {
        assert(secs.drop_last().len() == 0);
    }
}

} // verus!
