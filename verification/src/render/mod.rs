//! What the map draws: field layers and their paint order, tile fallbacks, and the plan of a frame.

pub mod fallback;
pub mod field_layer;
pub mod field_ramps;
pub mod frame;
pub mod layouts;
pub mod paint;

pub use fallback::{ancestor_uv, tile_quads, tile_verts, vector_draw_tiles};
pub use field_layer::FieldLayer;
pub use frame::{build_radar, flag_bytes, flag_dims, MapCallback, RadarUpload, RenderResources};
pub use paint::DrawOp;

use vstd::prelude::*;

verus! {

/// XYZ tile id.
pub type TileId = (u8, u32, u32);

/// A tile plus which basemap style it came from. Panes can show different basemaps at once, so
/// the same `(z, x, y)` may be resident twice with different imagery; the style key keeps them
/// apart in the cache.
pub type TileKey = (u8, TileId);

} // verus!
