//! Typed, copyable tokens identifying live GPU-side resources. A handle
//! carries no ownership: the backend owns the underlying object, and a handle
//! is meaningful only between its creation and the reset or destruction of the
//! pool generation that minted it.

use vstd::prelude::*;

verus! {

/// Identifies one descriptor (a GPU-visible binding slot) inside a
/// backend-owned store.
#[derive(Clone, Copy, Debug, Hash, PartialEq, Eq, Structural)]
pub struct DescriptorHandle {
    pub id: u64,
}

/// Identifies one buffer inside a backend-owned store.
#[derive(Clone, Copy, Debug, Hash, PartialEq, Eq, Structural)]
pub struct BufferHandle {
    pub id: u64,
}

} // verus!
