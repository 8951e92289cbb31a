//! The local server: who may ask what, what is answered, and for how long an answer is good.

pub mod frame;
pub mod handle;
pub mod json;
pub mod metrics;
pub mod page;
pub mod pictures;
pub mod proxy;
pub mod renders;
pub mod reply;
pub mod report;
pub mod request;
pub mod route;
pub mod status;

pub use frame::Frame;
pub use metrics::{escape_label, metrics};
pub use page::index;
pub use proxy::{cache_seconds, etag_of, proxy_content_type, proxy_reply, valid_byte_range};
pub use renders::{fresh_on_disk, try_render};
pub use reply::{image_reply, not_found, Reply};
pub use request::{is_preset, query_token};
pub use route::{content_type, count, route, static_file};
