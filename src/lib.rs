//! Procedural terrain geometry for a tile-based terrain editor: the tile grid,
//! corner-height resolution for ramps, mesh emission with seams and cliff
//! faces, blend masks, the splat weight map, the binary mesh container, the
//! naming of package members, the masking of stored grids, and the editing
//! decisions for painting tiles and turning ramps.
//!
//! Heights are kept in whole elevation steps and positions on the integer
//! lattice of tile corners, so every rule here is exact; conversion to world
//! units happens where meshes are handed to a renderer or serialized.

pub mod types;
pub mod terrain;
pub mod mesh;
pub mod splatmap;
pub mod glb;
pub mod io;
pub mod export;
pub mod editor;
