use tephra::pipeline::{PipelineState, ShaderModule};

#[test]
fn builder_starts_empty_and_sets_each_stage() {
    let state = PipelineState::new();
    assert!(state.vertex_shader.is_none());
    assert!(state.fragment_shader.is_none());

    let vs = ShaderModule { id: 1 };
    let fs = ShaderModule { id: 2 };
    let state = state.with_vertex_shader(vs).with_fragment_shader(fs);
    assert_eq!(state.vertex_shader, Some(vs));
    assert_eq!(state.fragment_shader, Some(fs));

    // setting one stage leaves the other alone
    let state = state.with_vertex_shader(ShaderModule { id: 3 });
    assert_eq!(state.vertex_shader, Some(ShaderModule { id: 3 }));
    assert_eq!(state.fragment_shader, Some(fs));
}
