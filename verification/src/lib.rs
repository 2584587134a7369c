//! Verified state machines and value types for retained UI surfaces:
//! packed colors, timer queues, list/tree navigation controllers, a flat
//! spatial index backend, and small imaging helpers.

pub mod color;
pub mod ids;
pub mod timer;
pub mod keys;
pub mod edits;
pub mod list;
pub mod tree;
pub mod glob;
pub mod index;
pub mod runtime;
pub mod text_block;
pub mod imaging;
pub mod property_grid;
pub mod inspector;
pub mod autocomplete;
pub mod ref_backend;
pub mod display_lowering;
pub mod svg_layers;
pub mod drag;
