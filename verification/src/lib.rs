//! Address-space bookkeeping on top of a CPU-emulation engine.
//!
//! The crate tracks which byte ranges of an emulated machine's memory
//! are mapped, under what access permissions and under what
//! human-readable label, and mediates every mapping or write request
//! through that bookkeeping before delegating to the engine itself.

pub mod engine;
pub mod memory;
pub mod region;
pub mod registry;
