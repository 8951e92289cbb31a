//! The logic of a weather-radar map: what is drawn and in which order, which tiles are kept,
//! what the local server answers, what is said aloud, and how settings decide all of it.

pub mod answers;
pub mod clock;
pub mod cloud;
pub mod render;
pub mod render3d;
pub mod secret;
pub mod serve;
pub mod settings;
pub mod source_health;
pub mod spaghetti;
pub mod speech;
pub mod storage;
pub mod text;
pub mod tgftp_provider;
pub mod theme;
pub mod tiles;
pub mod voice;

use vstd::prelude::*;

verus! {

} // verus!
