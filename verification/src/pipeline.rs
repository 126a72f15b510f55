//! A minimal pipeline-state builder: which shader stages a pipeline uses.

use vstd::prelude::*;

verus! {

/// A handle to a compiled shader module owned by the backend.
#[derive(Copy, Clone, Debug, Hash, Eq, PartialEq, Structural)]
pub struct ShaderModule {
    pub id: u64,
}

/// The shader stages a pipeline will be built from.
#[derive(Clone)]
pub struct PipelineState {
    pub vertex_shader: Option<ShaderModule>,
    pub fragment_shader: Option<ShaderModule>,
}

impl PipelineState {
    pub fn new() -> (r: Self)
        ensures
            r.vertex_shader is None,
            r.fragment_shader is None,
    {
        PipelineState { vertex_shader: None, fragment_shader: None }
    }

    pub fn with_vertex_shader(self, shader: ShaderModule) -> (r: Self)
        ensures
            r.vertex_shader == Some(shader),
            r.fragment_shader == self.fragment_shader,
    {
        PipelineState { vertex_shader: Some(shader), ..self }
    }

    pub fn with_fragment_shader(self, shader: ShaderModule) -> (r: Self)
        ensures
            r.fragment_shader == Some(shader),
            r.vertex_shader == self.vertex_shader,
    {
        PipelineState { fragment_shader: Some(shader), ..self }
    }
}

} // verus!
