use vstd::prelude::*;
use image::ImageEncoder;
use crate::types::{type_index, TileMap, TileType};

verus! {

/// Bytes per weight-map pixel: one 8-bit channel per surface type.
pub const CHANNELS: usize = 4;

/// The pixel layout of a raster.
#[derive(Clone, Copy, Debug, PartialEq, Eq, Structural)]
pub enum PixelFormat {
    /// Four 8-bit channels per pixel.
    Rgba8Unorm,
    /// Any other layout.
    Other,
}

/// A raster of `width * height` pixels stored row by row in `data`.
#[derive(Clone, Debug)]
pub struct SplatImage {
    pub width: u32,
    pub height: u32,
    pub format: PixelFormat,
    pub data: Vec<u8>,
}

/// Why a weight map could not be encoded.
#[derive(Clone, Copy, Debug, PartialEq, Eq, Structural)]
pub enum SplatmapError {
    /// The raster is not four 8-bit channels per pixel.
    UnsupportedFormat,
    /// The image codec reported a failure.
    Encoding,
}

#[verifier::external_type_specification]
#[verifier::external_body]
pub struct ExImageError(image::ImageError);

pub open spec fn extent_of(m: TileMap) -> (u32, u32) {
    (if m.width == 0 { 1 } else { m.width }, if m.height == 0 { 1 } else { m.height })
}

/// The number of pixels of the weight map of `m`.
pub open spec fn pixel_count(m: TileMap) -> int {
    extent_of(m).0 as int * extent_of(m).1 as int
}

/// The weight-map bytes of a grid: for each tile, in row-major order, the
/// channel of its surface type at 255 and the other three at 0. A grid with
/// no rows or no columns gives black pixels over its extent.
pub open spec fn splat_bytes(m: TileMap) -> Seq<u8> {
    if m.width == 0 || m.height == 0 {
        Seq::new((pixel_count(m) * 4) as nat, |k: int| 0u8)
    } else {
        Seq::new(
            (m.cells() * 4) as nat,
            |k: int|
                if type_index(m.tiles@[k / 4].tile_type) == k % 4 {
                    255u8
                } else {
                    0u8
                },
        )
    }
}

/// The weight map of `m`: its extent, layout and bytes.
pub open spec fn is_splat_of(img: SplatImage, m: TileMap) -> bool {
    &&& (img.width, img.height) == extent_of(m)
    &&& img.format == PixelFormat::Rgba8Unorm
    &&& img.data@ == splat_bytes(m)
}

/// Builds the weight map of a grid.
pub fn create(map: &TileMap) -> (r: SplatImage)
    requires
        map.wf(),
        pixel_count(*map) * 4 <= usize::MAX,
    ensures
        is_splat_of(r, *map),
{
    let (width, height) = extent_from_map(map);
    let mut image = SplatImage {
        width,
        height,
        format: PixelFormat::Rgba8Unorm,
        data: vec![0u8; CHANNELS],
    };
    write(map, &mut image);
    image
}

/// Writes the weight map of a grid into `image`, reusing its storage when its
/// extent and layout already match and rebuilding it otherwise.
pub fn write(map: &TileMap, image: &mut SplatImage)
    requires
        map.wf(),
        pixel_count(*map) * 4 <= usize::MAX,
    ensures
        is_splat_of(*final(image), *map),
{
    let (width, height) = extent_from_map(map);
    if image.width != width || image.height != height || image.format != PixelFormat::Rgba8Unorm {
        image.width = width;
        image.height = height;
        image.format = PixelFormat::Rgba8Unorm;
    }
    if map.width == 0 || map.height == 0 {
        assert(0 <= width as int * height as int) by (nonlinear_arith);
        let len: usize = width as usize * height as usize * CHANNELS;
        image.data.clear();
        image.data.resize(len, 0u8);
        proof {
            assert(image.data@ =~= splat_bytes(*map));
        }
        return;
    }
    assert(pixel_count(*map) == map.cells());
    let n: usize = map.tiles.len() * CHANNELS;
    image.data.clear();
    image.data.resize(n, 0u8);
    let mut i: usize = 0;
    while i < map.tiles.len()
        invariant
            map.wf(),
            map.width > 0 && map.height > 0,
            n == map.tiles@.len() * 4,
            i <= map.tiles@.len(),
            image.data@.len() == n,
            (image.width, image.height) == extent_of(*map),
            image.format == PixelFormat::Rgba8Unorm,
            forall|k: int| 0 <= k < 4 * i ==> #[trigger] image.data@[k] == splat_bytes(*map)[k],
        decreases map.tiles@.len() - i,
    {
        let layer = map.tiles[i].tile_type.as_index();
        let mut c: usize = 0;
        while c < CHANNELS
            invariant
                map.wf(),
                map.width > 0 && map.height > 0,
                n == map.tiles@.len() * 4,
                i < map.tiles@.len(),
                c <= 4,
                layer == type_index(map.tiles@[i as int].tile_type),
                image.data@.len() == n,
                (image.width, image.height) == extent_of(*map),
                image.format == PixelFormat::Rgba8Unorm,
                forall|k: int| 0 <= k < 4 * i + c ==> #[trigger] image.data@[k] == splat_bytes(*map)[k],
            decreases 4 - c,
        {
            let value: u8 = if c == layer { 255 } else { 0 };
            image.data.set(CHANNELS * i + c, value);
            proof {
                let k = 4 * i + c;
                assert(k / 4 == i && k % 4 == c);
            }
            c = c + 1;
        }
        i = i + 1;
    }
    proof {
        assert(image.data@ =~= splat_bytes(*map));
    }
}

fn extent_from_map(map: &TileMap) -> (r: (u32, u32))
    ensures
        r == extent_of(*map),
{
    (if map.width == 0 { 1 } else { map.width }, if map.height == 0 { 1 } else { map.height })
}

/// A grid whose tiles all have surface type `t` gives a weight map in which
/// every pixel has channel `t` at 255 and the other channels at 0.
pub proof fn lemma_uniform_grid_weight_map(m: TileMap, t: TileType)
    requires
        m.wf(),
        m.width > 0,
        m.height > 0,
        forall|i: int| 0 <= i < m.tiles@.len() ==> (#[trigger] m.tiles@[i]).tile_type == t,
    ensures
        splat_bytes(m).len() == 4 * m.cells(),
        forall|p: int, c: int|
            0 <= p < m.cells() && 0 <= c < 4 ==> #[trigger] splat_bytes(m)[4 * p + c] == if c
                == type_index(t) {
                255u8
            } else {
                0u8
            },
{
    assert forall|p: int, c: int| 0 <= p < m.cells() && 0 <= c < 4 implies #[trigger] splat_bytes(
        m,
    )[4 * p + c] == if c == type_index(t) {
        255u8
    } else {
        0u8
    } by {
        assert((4 * p + c) / 4 == p && (4 * p + c) % 4 == c);
    }
}

/// The PNG file that the image codec writes for an RGBA8 pixel buffer.
pub uninterp spec fn png_rgba8(data: Seq<u8>, width: u32, height: u32) -> Seq<u8>;

/// Relies on image's `PngEncoder::write_image` with `ExtendedColorType::Rgba8`:
/// it encodes `width * height` RGBA8 pixels as PNG (it panics on any other
/// buffer length, which `requires` rules out), its output depends on its
/// arguments alone, and writing into a `Vec` fails only on a zero width or
/// height (png's `Writer::init`).
#[verifier::external_body]
fn encode_png_rgba8(data: &Vec<u8>, width: u32, height: u32) -> (r: Result<Vec<u8>, image::ImageError>)
    requires
        data@.len() == width as int * height as int * 4,
    ensures
        r matches Ok(bytes) ==> bytes@ == png_rgba8(data@, width, height),
        width > 0 && height > 0 ==> r is Ok,
{
    let mut buffer = Vec::new();
    let encoder = image::codecs::png::PngEncoder::new(&mut buffer);
    match encoder.write_image(data, width, height, image::ExtendedColorType::Rgba8) {
        Ok(()) => Ok(buffer),
        Err(e) => Err(e),
    }
}

/// Encodes a weight map as PNG. Fails with `UnsupportedFormat` unless it is
/// four 8-bit channels per pixel with one pixel per cell of its extent, and
/// succeeds on every such raster with at least one pixel.
pub fn encode_splatmap_png(image: &SplatImage) -> (r: Result<Vec<u8>, SplatmapError>)
    ensures
        (image.format != PixelFormat::Rgba8Unorm || image.data@.len() != image.width as int
            * image.height as int * 4) <==> r == Err::<Vec<u8>, SplatmapError>(
            SplatmapError::UnsupportedFormat,
        ),
        r matches Ok(bytes) ==> bytes@ == png_rgba8(image.data@, image.width, image.height),
        image.format == PixelFormat::Rgba8Unorm && image.data@.len() == image.width as int
            * image.height as int * 4 && image.width > 0 && image.height > 0 ==> r is Ok,
{
    if image.format != PixelFormat::Rgba8Unorm {
        return Err(SplatmapError::UnsupportedFormat);
    }
    assert(image.width as int * image.height as int <= 0xffff_ffff_ffff_ffff) by (nonlinear_arith)
        requires
            image.width <= 0xffff_ffff,
            image.height <= 0xffff_ffff,
    ;
    let expected: u128 = image.width as u128 * image.height as u128 * 4;
    if image.data.len() as u128 != expected {
        return Err(SplatmapError::UnsupportedFormat);
    }
    match encode_png_rgba8(&image.data, image.width, image.height) {
        Ok(bytes) => Ok(bytes),
        Err(_) => Err(SplatmapError::Encoding),
    }
}

/// The PNG weight map of a grid.
pub fn build_map_splatmap_png(map: &TileMap) -> (r: Result<Vec<u8>, SplatmapError>)
    requires
        map.wf(),
        pixel_count(*map) * 4 <= usize::MAX,
    ensures
        r matches Ok(bytes) && bytes@ == png_rgba8(splat_bytes(*map), extent_of(*map).0, extent_of(*map).1),
{
    let image = create(map);
    proof {
        if map.width == 0 || map.height == 0 {
        } else {
            assert(image.data@.len() == image.width as int * image.height as int * 4) by (nonlinear_arith)
                requires
                    image.data@.len() == map.cells() * 4,
                    image.width == map.width,
                    image.height == map.height,
                    map.cells() == map.width as int * map.height as int,
            ;
        }
    }
    encode_splatmap_png(&image)
}

} // verus!
