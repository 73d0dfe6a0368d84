//! Storage core of a columnar data-processing engine.
//!
//! The crate is organised bottom-up: an [`allocator`] hands out owned,
//! aligned byte buffers (`OwnedChunk`) and chunked bump arenas
//! (`ChainedArena`); [`block`] builds typed, nullable columns,
//! schema-conforming blocks and zero-copy views on top of them;
//! [`table`] offers a convenient row-by-row building layer;
//! [`copy_value`] and [`col_map`] write and map typed row values;
//! [`projector`] selects and renames columns of a view; [`schema`] and
//! [`types`] describe the shape of the stored data.

pub mod allocator;
pub mod block;
pub mod col_map;
pub mod copy_value;
pub mod error;
pub mod math;
pub mod projector;
pub mod row;
pub mod schema;
pub mod table;
pub mod types;
