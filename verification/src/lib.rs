//! Backend-agnostic GPU rendering abstractions: pooled descriptor allocation
//! with deterministic reuse and per-signature partitioning, and swapchain
//! negotiation with a Live / Invalidated / Destroyed presentation lifecycle.

pub mod backend;
pub mod context;
pub mod descriptor;
pub mod handle;
pub mod pipeline;
pub mod swapchain;
