//! A thin 2D sprite-rendering core.
//!
//! The library owns the render submission pipeline: texture atlas allocation,
//! texture / pipeline / bind-group caching, render-list batching, and the
//! per-frame command planning that a GPU backend executes. Everything that
//! touches the GPU itself (device, queue, surface, shader compilation) lives
//! outside the library and is driven by the plans this crate produces.

use vstd::prelude::*;

pub mod atlas;
pub mod kelp;
pub mod key_cache;
pub mod pipeline_cache;
pub mod render_list;
pub mod texture_bind_group_cache;
pub mod texture_cache;
pub mod types;

verus! {

/// Width and height, in pixels, of one atlas layer.
pub const ATLAS_SIZE: u32 = 2048;

/// Size in bytes of one GPU-ready instance record.
pub const INSTANCE_BYTES: u64 = 80;

/// How many instance records the 8 MiB instance buffer can hold per frame.
pub const INSTANCE_CAPACITY: u32 = (8 * 1024 * 1024) / 80;

} // verus!
