//! A verified codec for the KTX2 GPU-texture container format, together with
//! the small texture-loading and input-event utilities built on top of it.
//!
//! The codec is purely functional: every operation is a function over an
//! in-memory byte buffer.  Reading a file, fetching over the network and
//! displaying pixels are the caller's business; the codec turns bytes into a
//! structured texture description (or a typed error) and back.

pub mod align;
pub mod dfd;
pub mod error;
pub mod events;
pub mod header;
pub mod level_index;
pub mod properties;
pub mod reader;
pub mod texture;
pub mod wire;
pub mod writer;
