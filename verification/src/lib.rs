//! Zero-copy bridge from IPC-encoded columnar byte regions to a tree of
//! array handles whose buffers are offset ranges into the shared source bytes.
//!
//! Given the source bytes, a block offset, a physical type tree, per-node
//! field metadata, a dictionary lookup and two queues (field nodes and buffer
//! descriptors), the builders validate every descriptor against the source
//! extent and assemble one handle per schema node, consuming nodes and
//! descriptors in exact pre-order. Nothing is copied: a handle records where
//! each buffer lives, and the foreign-ABI materialization of those ranges as
//! raw pointers stays outside this library.

pub mod bounds;
pub mod builders;
pub mod cast;
pub mod decode;
pub mod dict;
pub mod error;
pub mod handle;
pub mod laws;
pub mod schema;
