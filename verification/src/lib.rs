//! A verified model of the columnar interchange boundary: native
//! columnar arrays, the fixed-layout interchange struct that carries
//! them across a process or language boundary, the export path that
//! builds such a struct (with an at-most-once release protocol), the
//! import path that reconstructs native arrays from one, and the
//! dictionary-encoded array type whose bounds invariant that bridge
//! must preserve end to end.

pub mod abi;
pub mod array;
pub mod binview;
pub mod bitmap;
pub mod dictionary;
pub mod export;
pub mod fixed;
pub mod handle;
pub mod import;
pub mod list;
pub mod buffer;
pub mod native;
pub mod primitive;
pub mod varbin;
pub mod dtype;
pub mod error;
pub mod vecs;
