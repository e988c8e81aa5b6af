//! Packs independently produced byte buffers into one deterministic
//! compressed archive and moves objects through a classified key-value
//! storage boundary.
//!
//! The storage boundary ([`storage`]) separates a definitive "no such
//! object" answer from every other backend failure. The archive stage
//! ([`archive`], [`names`]) serializes named buffers into one container
//! whose bytes depend on the entries alone. The pipeline ([`pipeline`])
//! fetches a source object, has it decoded and encoded outside, restores
//! decode order over the tagged results, and stores the finished archive,
//! failing whole on the first error of any stage.

pub mod archive;
pub mod names;
pub mod pipeline;
pub mod storage;
