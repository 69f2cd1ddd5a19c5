//! A retained-state core for an immediate-mode UI toolkit: entity storage with
//! generation-checked handles, change observation, keyboard shortcuts, focus and
//! element registries, menu models and debug bookkeeping.

pub mod clock;
pub mod color;
pub mod entity;
pub mod layer;
pub mod text;
pub mod seqs;
pub mod interaction;
pub mod layout_id;
pub mod layout_cache;
pub mod render;
pub mod debug;
pub mod menu;
pub mod element;
