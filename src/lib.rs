//! Item sets for a game client: champions and maps they apply to, blocks of
//! recommended items, and their rendering as a pretty-printed JSON document.

mod outside;
pub mod text;
pub mod model;
pub mod document;
pub mod laws;

pub use model::{BlockItem, ItemBlock, ItemSet};
