//! Runtime-requirement propagation and chunk assembly for a module bundler.
//!
//! For every chunk of an already-built chunk graph this crate decides which
//! runtime capabilities the emitted artifact needs, registers the runtime
//! modules that provide them, feeds a deterministic byte stream into the
//! chunk's content hash and assembles the chunk's source text.
//!
//! The flags of a chunk are seeded while the code of its modules is generated
//! (`dependency`) and by the chunk format (`plugin`); the rules of all plugins
//! then run until nothing changes (`plugin_driver`). Hashing feeds the ids of
//! the chunks that the entry points of a chunk reach, in an order that does
//! not depend on how a set happens to be walked (`helpers`, `canonical`,
//! `hasher`). Rendering puts together what others rendered of the chunk
//! (`common_js_chunk_format`).

pub mod builtin;
pub mod canonical;
pub mod chunk_set;
pub mod common_js_chunk_format;
pub mod compilation;
pub mod dependency;
pub mod error;
pub mod filename;
pub mod hasher;
pub mod helpers;
pub mod module_chunk_loading;
pub mod plugin;
pub mod plugin_driver;
pub mod runtime_globals;
pub mod runtime_module;
