//! The rendering context: a cloneable handle to whatever backend implements
//! the capability traits the descriptor subsystem needs.

use vstd::prelude::*;

use crate::descriptor::{CreatePool, DescriptorApi};

verus! {

/// The capability set a rendering context offers to the descriptor subsystem:
/// creating native pools, writing descriptor contents, and being cheaply
/// cloned into every allocator that must call back into it. A backend
/// implements this once; the pool router and allocators stay generic over it.
pub trait ContextApi: CreatePool + DescriptorApi + Clone + Sized {

}

/// A cloneable handle to the backend context.
#[derive(Clone)]
pub struct Context<C: ContextApi> {
    pub context: C,
}

} // verus!
