//! A small game-engine core: an entity-component store with bitset indexes,
//! tilemaps, asset bookkeeping, input state, a Wavefront OBJ reader and
//! assorted rendering bookkeeping.
use vstd::prelude::*;

pub mod animation;
pub mod assoc;
pub mod asset;
pub mod input;
pub mod bitmap_font;
pub mod bitset;
pub mod draw_command;
pub mod ecs;
pub mod gpu_buffer;
pub mod graphics;
pub mod immediate_gui;
pub mod quad_renderer;
pub mod query;
pub mod render_graph;
pub mod renderer;
pub mod render_resource;
pub mod state;
pub mod system;
pub mod text;
pub mod texture_store;
pub mod tilemap;
pub mod number;
pub mod obj_parser;

verus! {

/// The index of an entity.
pub type EntityIndex = usize;

/// The parent of an entity.
#[derive(Clone, Copy, Debug, PartialEq, Eq, PartialOrd, Structural)]
pub struct Parent(pub EntityIndex);

} // verus!
