//! The fixed-function settings a graphics pipeline is created with.

use vstd::prelude::*;

verus! {

/// How triangles are rasterized.
#[derive(Debug, Clone, Copy, PartialEq, Eq, Structural)]
pub enum PolygonMode {
    Fill,
    Line,
}

/// Depth testing: fragments pass when not farther than what is stored, and
/// they write their depth.
#[derive(Debug, Clone, Copy, PartialEq, Eq, Structural)]
pub struct DepthSettings {
    pub test_enable: bool,
    pub write_enable: bool,
    pub compare_less_or_equal: bool,
    pub bounds_test_enable: bool,
    pub stencil_test_enable: bool,
}

/// A state the pipeline leaves to be set per frame.
#[derive(Debug, Clone, Copy, PartialEq, Eq, Structural)]
pub enum DynamicState {
    Viewport,
    Scissor,
}

/// A push-constant range of the pipeline layout.
#[derive(Debug, Clone, Copy, PartialEq, Eq, Structural)]
pub struct PushConstantRange {
    pub offset: u32,
    pub size: u32,
    pub vertex_stage: bool,
    pub fragment_stage: bool,
}

/// `size_of::<glam::Mat4>()`: the bytes of the mesh push constants, which are
/// one `glam::Mat4`. glam asserts at compile time that this size is 64.
#[verifier::external_body]
fn mesh_push_constants_size() -> (r: u32)
    ensures
        r == 64,
{
    std::mem::size_of::<glam::Mat4>() as u32
}

/// The choices of a pipeline that depend on its shader's flags, its layout
/// (the descriptor-set layouts it binds, in order, and its push constants),
/// and the fixed ones: triangle lists, back faces culled, counter-clockwise
/// front faces, alpha blending.
#[derive(Debug)]
pub struct PipelineSettings {
    pub polygon_mode: PolygonMode,
    pub cull_back_faces: bool,
    pub front_face_counter_clockwise: bool,
    pub blend_enable: bool,
    /// The states set per frame.
    pub dynamic_states: Vec<DynamicState>,
    /// Present only when the shader tests depth.
    pub depth: Option<DepthSettings>,
    /// The descriptor-set layouts of the pipeline layout, in binding order.
    pub set_layouts: Vec<u64>,
    /// The push-constant ranges of the pipeline layout.
    pub push_constants: Vec<PushConstantRange>,
}

/// The pipeline settings of a shader that tests depth if `depth_test_enabled`
/// and draws outlines if `is_wireframe`, whose layout binds
/// `descriptor_set_layouts` in order and gives the vertex stage the mesh push
/// constants at offset 0.
pub fn pipeline_settings(descriptor_set_layouts: &[u64], depth_test_enabled: bool, is_wireframe: bool) -> (r:
    PipelineSettings)
    ensures
        r.polygon_mode == (if is_wireframe {
            PolygonMode::Line
        } else {
            PolygonMode::Fill
        }),
        r.depth == (if depth_test_enabled {
            Some(
                DepthSettings {
                    test_enable: true,
                    write_enable: true,
                    compare_less_or_equal: true,
                    bounds_test_enable: false,
                    stencil_test_enable: false,
                },
            )
        } else {
            None
        }),
        r.cull_back_faces && r.front_face_counter_clockwise && r.blend_enable,
        r.dynamic_states@ == seq![DynamicState::Viewport, DynamicState::Scissor],
        r.set_layouts@ == descriptor_set_layouts@,
        r.push_constants@ == seq![PushConstantRange { offset: 0, size: 64, vertex_stage: true, fragment_stage: false }],
{
    let polygon_mode = if is_wireframe {
        PolygonMode::Line
    } else {
        PolygonMode::Fill
    };
    let depth = if depth_test_enabled {
        Some(
            DepthSettings {
                test_enable: true,
                write_enable: true,
                compare_less_or_equal: true,
                bounds_test_enable: false,
                stencil_test_enable: false,
            },
        )
    } else {
        None
    };
    let mut push_constants: Vec<PushConstantRange> = Vec::new();
    push_constants.push(
        PushConstantRange { offset: 0, size: mesh_push_constants_size(), vertex_stage: true, fragment_stage: false },
    );
    let mut dynamic_states: Vec<DynamicState> = Vec::new();
    dynamic_states.push(DynamicState::Viewport);
    dynamic_states.push(DynamicState::Scissor);
    let mut set_layouts: Vec<u64> = Vec::new();
    let mut i: usize = 0;
    while i < descriptor_set_layouts.len()
        invariant
            i <= descriptor_set_layouts@.len(),
            set_layouts@ == descriptor_set_layouts@.subrange(0, i as int),
        decreases descriptor_set_layouts@.len() - i,
    {
        set_layouts.push(descriptor_set_layouts[i]);
        i = i + 1;
        assert(set_layouts@ =~= descriptor_set_layouts@.subrange(0, i as int));
    }
    assert(set_layouts@ =~= descriptor_set_layouts@);
    assert(push_constants@ =~= seq![PushConstantRange { offset: 0, size: 64, vertex_stage: true, fragment_stage: false }]);
    assert(dynamic_states@ =~= seq![DynamicState::Viewport, DynamicState::Scissor]);
    PipelineSettings {
        polygon_mode,
        cull_back_faces: true,
        front_face_counter_clockwise: true,
        blend_enable: true,
        dynamic_states,
        depth,
        set_layouts,
        push_constants,
    }
}

} // verus!
