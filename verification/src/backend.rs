//! The contract a rendering backend satisfies to plug into the descriptor
//! and swapchain subsystems: its resource types, named abstractly, so the
//! pool router and swapchain manager never depend on one backend.

use vstd::prelude::*;

verus! {

/// The associated resource types of one backend.
pub trait BackendApi: Copy + Clone + Sized + 'static {
    type Context: Clone;

    type Shader;

    type Buffer;

    type Image;

    type Swapchain;

    type Descriptor;
}

} // verus!
