//! Keiros: a capability-based agent build pipeline.
//!
//! The library covers the feature registration and code-generation core:
//! the feature-map data model, the feature scanner's structural part,
//! profile reconciliation, loader-source generation, idempotent
//! entry-point patching, and the build orchestrator's decisions. File and
//! process I/O live outside the library and hand it plain values.

pub mod compiler;
pub mod feature_map;
pub mod features;
pub mod loader;
pub mod patcher;
pub mod profile;
pub mod scanner;
pub mod text;
