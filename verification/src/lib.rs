//! A dynamic foreign-function bridge: a registry of scalar and struct type
//! descriptors, recursive flattening of nested struct layouts into depth-first
//! leaf offset schedules, and a sequential write/read marshalling session that
//! packs primitive values into argument buffers and unpacks results from
//! return buffers. The native layout and call primitives themselves are
//! external collaborators; this crate holds and verifies every decision made
//! around them.

pub mod buffer;
pub mod flatten;
pub mod laws;
pub mod registry;
pub mod target;
pub mod types;

pub use registry::Registry;
pub use types::FfiError;
pub use types::ScalarKind;
pub use types::TypeDesc;
