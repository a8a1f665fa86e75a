//! Decisions of the frame loop: which bindings the world pass records, and
//! how a present result is read.

use vstd::prelude::*;
use crate::error::{HellError, HellErrorKind, HellResult};
use crate::resources::ResourceHandle;

verus! {

/// `ash::vk::Result::ERROR_OUT_OF_DATE_KHR`, raw value -1000001004 in the crate.
#[verifier::external_body]
fn result_error_out_of_date() -> (r: i32)
    ensures
        r == -1000001004,
{
    ash::vk::Result::ERROR_OUT_OF_DATE_KHR.as_raw()
}

/// `ash::vk::Result::SUBOPTIMAL_KHR`, raw value 1000001003 in the crate.
#[verifier::external_body]
fn result_suboptimal() -> (r: i32)
    ensures
        r == 1000001003,
{
    ash::vk::Result::SUBOPTIMAL_KHR.as_raw()
}

/// Whether the swapchain must be recreated after presenting: a success
/// reports it as suboptimal or not; an out-of-date or suboptimal error asks
/// for it; any other error fails.
pub fn present_outcome(result: Result<bool, i32>) -> (r: HellResult<bool>)
    ensures
        match result {
            Ok(suboptimal) => r == Ok::<bool, HellError>(suboptimal),
            Err(code) => if code == -1000001004 || code == 1000001003 {
                r == Ok::<bool, HellError>(true)
            } else {
                r matches Err(e) && e.kind == HellErrorKind::RenderError && e.msg@ == "failed to aquire next image"@
            },
        },
{
    match result {
        Ok(is_suboptimal) => Ok(is_suboptimal),
        Err(code) => {
            if code == result_error_out_of_date() || code == result_suboptimal() {
                Ok(true)
            } else {
                Err(HellError::from_msg(HellErrorKind::RenderError, "failed to aquire next image".to_owned()))
            }
        },
    }
}

/// What the world pass records for one object: the material set to bind if
/// it changed, the mesh to bind if it changed, and the draw, whose first
/// instance is the object's index.
#[derive(Debug, Clone, Copy, PartialEq, Eq, Structural)]
pub struct DrawStep {
    pub bind_material: Option<ResourceHandle>,
    pub bind_mesh: Option<usize>,
    pub first_instance: usize,
}

/// The material bound before object `i` (none bound before the first: the
/// largest handle).
pub open spec fn material_before(materials: Seq<ResourceHandle>, i: int) -> ResourceHandle {
    if i <= 0 {
        ResourceHandle { id: usize::MAX }
    } else {
        materials[i - 1]
    }
}

/// The mesh bound before object `i` (`usize::MAX` before the first).
pub open spec fn mesh_before(meshes: Seq<usize>, i: int) -> usize {
    if i <= 0 {
        usize::MAX
    } else {
        meshes[i - 1]
    }
}

/// The step recorded for object `i`.
pub open spec fn draw_step(materials: Seq<ResourceHandle>, meshes: Seq<usize>, i: int) -> DrawStep {
    DrawStep {
        bind_material: if materials[i] != material_before(materials, i) {
            Some(materials[i])
        } else {
            None
        },
        bind_mesh: if meshes[i] != mesh_before(meshes, i) {
            Some(meshes[i])
        } else {
            None
        },
        first_instance: i as usize,
    }
}

/// A step binds a material exactly when the object's material differs from
/// the one before it (for the first object: from the unset handle, whose id
/// is `usize::MAX`), and then binds the object's own material; the same holds
/// of meshes. Each object is drawn as the instance of its index.
pub proof fn lemma_draw_step_binds_on_change(materials: Seq<ResourceHandle>, meshes: Seq<usize>, i: int)
    requires
        0 <= i < materials.len() <= usize::MAX,
        materials.len() == meshes.len(),
    ensures
        i > 0 ==> (draw_step(materials, meshes, i).bind_material is Some <==> materials[i] != materials[i - 1]),
        i == 0 ==> (draw_step(materials, meshes, i).bind_material is Some <==> materials[0].id != usize::MAX),
        draw_step(materials, meshes, i).bind_material is Some ==> draw_step(materials, meshes, i).bind_material
            == Some(materials[i]),
        i > 0 ==> (draw_step(materials, meshes, i).bind_mesh is Some <==> meshes[i] != meshes[i - 1]),
        i == 0 ==> (draw_step(materials, meshes, i).bind_mesh is Some <==> meshes[0] != usize::MAX),
        draw_step(materials, meshes, i).bind_mesh is Some ==> draw_step(materials, meshes, i).bind_mesh == Some(
            meshes[i],
        ),
        draw_step(materials, meshes, i).first_instance == i,
{
}

/// Every object is drawn with its own material and mesh bound: some step at
/// or before it bound them, and no step in between bound another (for
/// handles other than the unset one).
pub proof fn lemma_world_steps_draw_with_own_bindings(materials: Seq<ResourceHandle>, meshes: Seq<usize>, i: int)
    requires
        0 <= i < materials.len(),
        materials.len() == meshes.len(),
        forall|k: int| 0 <= k < materials.len() ==> (#[trigger] materials[k]).id != usize::MAX,
        forall|k: int| 0 <= k < meshes.len() ==> #[trigger] meshes[k] != usize::MAX,
    ensures
        exists|j: int|
            0 <= j <= i && #[trigger] draw_step(materials, meshes, j).bind_material == Some(materials[i]) && forall|
                k: int,
            |
                j < k <= i ==> (#[trigger] draw_step(materials, meshes, k)).bind_material is None,
        exists|j: int|
            0 <= j <= i && #[trigger] draw_step(materials, meshes, j).bind_mesh == Some(meshes[i]) && forall|k: int|
                j < k <= i ==> (#[trigger] draw_step(materials, meshes, k)).bind_mesh is None,
    decreases i,
{
    let _m = materials[i];
    let _n = meshes[i];
    if i > 0 {
        lemma_world_steps_draw_with_own_bindings(materials, meshes, i - 1);
        if materials[i] == materials[i - 1] {
            let j = choose|j: int|
                0 <= j <= i - 1 && #[trigger] draw_step(materials, meshes, j).bind_material == Some(materials[i - 1])
                    && forall|k: int| j < k <= i - 1 ==> (#[trigger] draw_step(materials, meshes, k)).bind_material is None;
            assert(forall|k: int| j < k <= i ==> (#[trigger] draw_step(materials, meshes, k)).bind_material is None);
        } else {
            assert(draw_step(materials, meshes, i).bind_material == Some(materials[i]));
        }
        if meshes[i] == meshes[i - 1] {
            let j = choose|j: int|
                0 <= j <= i - 1 && #[trigger] draw_step(materials, meshes, j).bind_mesh == Some(meshes[i - 1])
                    && forall|k: int| j < k <= i - 1 ==> (#[trigger] draw_step(materials, meshes, k)).bind_mesh is None;
            assert(forall|k: int| j < k <= i ==> (#[trigger] draw_step(materials, meshes, k)).bind_mesh is None);
        } else {
            assert(draw_step(materials, meshes, i).bind_mesh == Some(meshes[i]));
        }
    } else {
        assert(draw_step(materials, meshes, 0).bind_material == Some(materials[0]));
        assert(draw_step(materials, meshes, 0).bind_mesh == Some(meshes[0]));
    }
}

/// The steps of the world pass over objects with these materials and meshes:
/// a material or mesh is bound only when it differs from the one bound.
pub fn record_world_steps(materials: &[ResourceHandle], meshes: &[usize]) -> (r: Vec<DrawStep>)
    requires
        materials@.len() == meshes@.len(),
    ensures
        r@.len() == meshes@.len(),
        forall|i: int| 0 <= i < r@.len() ==> #[trigger] r@[i] == draw_step(materials@, meshes@, i),
{
    let mut steps: Vec<DrawStep> = Vec::new();
    let mut curr_mat_handle = ResourceHandle { id: usize::MAX };
    let mut curr_mesh_idx: usize = usize::MAX;
    let mut idx: usize = 0;
    while idx < meshes.len()
        invariant
            materials@.len() == meshes@.len(),
            idx <= meshes@.len(),
            steps@.len() == idx,
            curr_mat_handle == material_before(materials@, idx as int),
            curr_mesh_idx == mesh_before(meshes@, idx as int),
            forall|i: int| 0 <= i < idx ==> #[trigger] steps@[i] == draw_step(materials@, meshes@, i),
        decreases meshes@.len() - idx,
    {
        let material = materials[idx];
        let mesh = meshes[idx];
        let bind_material = if curr_mat_handle.id != material.id {
            curr_mat_handle = material;
            Some(material)
        } else {
            None
        };
        let bind_mesh = if curr_mesh_idx != mesh {
            curr_mesh_idx = mesh;
            Some(mesh)
        } else {
            None
        };
        steps.push(DrawStep { bind_material, bind_mesh, first_instance: idx });
        proof {
            assert(curr_mat_handle == material);
        }
        idx = idx + 1;
    }
    steps
}

} // verus!

verus! {

/// A clear value a render pass begins with; the clear color and the depth
/// it clears to are fixed by the renderer.
#[derive(Debug, Clone, Copy, PartialEq, Eq, Structural)]
pub enum ClearValueKind {
    Color,
    DepthStencil { stencil: u32 },
}

/// The clear values of a render pass whose flags clear the color buffer if
/// `clears_color` and the stencil buffer if `clears_stencil`: the color, then
/// depth and stencil. The depth-stencil value is keyed on the color flag as
/// well; its stencil is the pass's `stencil` only when the stencil is cleared.
pub fn clear_values(clears_color: bool, clears_stencil: bool, stencil: u32) -> (r: Vec<ClearValueKind>)
    ensures
        r@ == (if clears_color {
            seq![
                ClearValueKind::Color,
                ClearValueKind::DepthStencil { stencil: if clears_stencil { stencil } else { 0 } },
            ]
        } else {
            Seq::empty()
        }),
{
    let mut values: Vec<ClearValueKind> = Vec::new();
    if clears_color {
        values.push(ClearValueKind::Color);
    }
    let clears_depth = clears_color;
    if clears_depth {
        let s = if clears_stencil {
            stencil
        } else {
            0
        };
        values.push(ClearValueKind::DepthStencil { stencil: s });
    }
    assert(values@ =~= (if clears_color {
        seq![
            ClearValueKind::Color,
            ClearValueKind::DepthStencil { stencil: if clears_stencil { stencil } else { 0 } },
        ]
    } else {
        Seq::empty()
    }));
    values
}

} // verus!
