//! Map tiles: the basemap styles, where their tiles come from, which are needed, and which stay.

pub mod agreement;
pub mod bbox;
pub mod cover;
pub mod cycle;
pub mod disk;
pub mod manager;
pub mod requests;
pub mod residency;
pub mod style;
pub mod times;
pub mod url;

pub use bbox::tile_bbox_3857;
pub use cover::{pack_tile_count, pack_tile_ids, tile_cover};
pub use disk::{set_cache_caps, tile_cache_bytes, volume_cache_bytes, CacheCaps, DISK_CACHE_BYTES, VOLUME_CACHE_BYTES};
pub use manager::{PendingTile, TileManager};
pub use style::{BasemapStyle, Category, Palette, Provider};
pub use times::{goes_window, parse_goes_domain, wms_frames};
pub use url::{fill_template, template_hash, valid_xyz_template, wms_url};
