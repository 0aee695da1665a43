use vstd::prelude::*;
use crate::generation_vec::{ArenaModel, GenerationVec, Handle};
use crate::material::Material;
use crate::mesh::Mesh;

verus! {

/// One per-draw uniform override: the index of the uniform it sets in the program's uniform
/// table (fixed for the program's lifetime) and the bytes uploaded to it.
#[derive(Clone, Debug)]
pub struct InstanceValue {
    pub uniform: usize,
    pub data: Vec<u8>,
}

/// A queued draw: a mesh, the material it is drawn with, and per-draw uniform overrides that
/// take effect for this draw only.
#[derive(Clone, Debug)]
pub struct DrawCommand {
    pub mesh: Mesh,
    pub material: Handle<Material>,
    pub instance: Vec<InstanceValue>,
}

/// What `update` does for one queued draw that can run.
#[derive(Clone, Copy, Debug, PartialEq, Eq)]
pub struct DrawStep {
    /// Index of the draw in the draw list.
    pub command: usize,
    /// Bind the draw's vertex layout first.
    pub bind_layout: bool,
    /// Upload the material's data blob first.
    pub upload_material: bool,
    /// Draw indexed (the layout has an index buffer) rather than straight vertices.
    pub indexed: bool,
}

/// Facts the frame planner needs about a vertex layout.
pub trait LayoutInfo {
    spec fn spec_has_indices(&self) -> bool;

    fn has_indices(&self) -> (r: bool)
        ensures
            r == self.spec_has_indices(),
    ;
}

/// Whether draw `c` can run: its layout, its material and the material's program all exist.
pub open spec fn runnable<L, P>(
    c: DrawCommand,
    layouts: ArenaModel<L>,
    materials: ArenaModel<Material>,
    programs: ArenaModel<P>,
) -> bool {
    &&& layouts.lookup(c.mesh.vertex_layout.index, c.mesh.vertex_layout.generation) is Some
    &&& materials.lookup(c.material.index, c.material.generation) matches Some(m)
        && programs.lookup(m.program.index, m.program.generation) is Some
}

/// Indices of the draws that can run, in submission order.
pub open spec fn runnable_draws<L, P>(
    draws: Seq<DrawCommand>,
    layouts: ArenaModel<L>,
    materials: ArenaModel<Material>,
    programs: ArenaModel<P>,
) -> Seq<int>
    decreases draws.len(),
{
    if draws.len() == 0 {
        Seq::empty()
    } else {
        let before = runnable_draws(draws.drop_last(), layouts, materials, programs);
        if runnable(draws.last(), layouts, materials, programs) {
            before.push(draws.len() - 1)
        } else {
            before
        }
    }
}

/// The step for the `j`-th runnable draw, whose index is `ks[j]`: the layout is bound unless the
/// runnable draw before used the same one, and the material is uploaded unless the runnable draw
/// before used the same one.
pub open spec fn step_for<L: LayoutInfo, P>(
    draws: Seq<DrawCommand>,
    ks: Seq<int>,
    j: int,
    layouts: ArenaModel<L>,
) -> DrawStep {
    let c = draws[ks[j]];
    DrawStep {
        command: ks[j] as usize,
        bind_layout: j == 0 || draws[ks[j - 1]].mesh.vertex_layout != c.mesh.vertex_layout,
        upload_material: j == 0 || draws[ks[j - 1]].material != c.material,
        indexed: layouts.lookup(c.mesh.vertex_layout.index, c.mesh.vertex_layout.generation)->0.spec_has_indices(),
    }
}

proof fn lemma_runnable_step<L, P>(
    draws: Seq<DrawCommand>,
    i: int,
    layouts: ArenaModel<L>,
    materials: ArenaModel<Material>,
    programs: ArenaModel<P>,
)
    requires
        0 <= i < draws.len(),
    ensures
        runnable_draws(draws.subrange(0, i + 1), layouts, materials, programs) == if runnable(
            draws[i],
            layouts,
            materials,
            programs,
        ) {
            runnable_draws(draws.subrange(0, i), layouts, materials, programs).push(i)
        } else {
            runnable_draws(draws.subrange(0, i), layouts, materials, programs)
        },
{
    assert(draws.subrange(0, i + 1).drop_last() =~= draws.subrange(0, i));
}

pub(crate) proof fn lemma_runnable_bounds<L, P>(
    draws: Seq<DrawCommand>,
    layouts: ArenaModel<L>,
    materials: ArenaModel<Material>,
    programs: ArenaModel<P>,
)
    ensures
        forall|j: int|
            0 <= j < runnable_draws(draws, layouts, materials, programs).len() ==> 0
                <= #[trigger] runnable_draws(draws, layouts, materials, programs)[j] < draws.len()
                && runnable(
                draws[runnable_draws(draws, layouts, materials, programs)[j]],
                layouts,
                materials,
                programs,
            ),
    decreases draws.len(),
{
    if draws.len() > 0 {
        lemma_runnable_bounds(draws.drop_last(), layouts, materials, programs);
        let before = runnable_draws(draws.drop_last(), layouts, materials, programs);
        assert forall|j: int| 0 <= j < before.len() implies draws.drop_last()[before[j]]
            == draws[before[j]] by {}
    }
}

/// Two runnable draws in a row that use the same vertex layout bind it at most once: the second
/// binds nothing, and the first binds it exactly when the runnable draw before it (if any) used
/// another layout.
pub proof fn lemma_same_layout_binds_once<L: LayoutInfo, P>(
    draws: Seq<DrawCommand>,
    ks: Seq<int>,
    j: int,
    layouts: ArenaModel<L>,
)
    requires
        0 < j < ks.len(),
        draws[ks[j - 1]].mesh.vertex_layout == draws[ks[j]].mesh.vertex_layout,
    ensures
        !step_for::<L, P>(draws, ks, j, layouts).bind_layout,
        step_for::<L, P>(draws, ks, j - 1, layouts).bind_layout == (j == 1 || draws[ks[j
            - 2]].mesh.vertex_layout != draws[ks[j - 1]].mesh.vertex_layout),
{
}

/// Plans a frame: one step per draw that can run, in submission order, binding a layout or
/// uploading a material only where it differs from what the step before left bound. Draws that
/// cannot run are skipped.
pub fn plan_frame<L: LayoutInfo, P>(
    draws: &Vec<DrawCommand>,
    layouts: &GenerationVec<crate::vertex_layout::VertexLayout, L>,
    materials: &GenerationVec<Material, Material>,
    programs: &GenerationVec<crate::shader::ShaderProgram, P>,
) -> (r: Vec<DrawStep>)
    ensures
        ({
            let ks = runnable_draws(draws@, layouts@, materials@, programs@);
            &&& r@.len() == ks.len()
            &&& forall|j: int| 0 <= j < ks.len() ==> #[trigger] r@[j] == step_for::<L, P>(draws@, ks, j, layouts@)
        }),
{
    let mut steps: Vec<DrawStep> = Vec::new();
    let mut last: Option<usize> = None;
    let mut i: usize = 0;
    while i < draws.len()
        invariant
            0 <= i <= draws@.len(),
            ({
                let ks = runnable_draws(draws@.subrange(0, i as int), layouts@, materials@, programs@);
                &&& steps@.len() == ks.len()
                &&& forall|j: int| 0 <= j < ks.len() ==> #[trigger] steps@[j] == step_for::<L, P>(draws@, ks, j, layouts@)
                &&& match last {
                    None => ks.len() == 0,
                    Some(l) => ks.len() > 0 && l == ks.last() && l < i,
                }
                &&& forall|j: int| 0 <= j < ks.len() ==> 0 <= #[trigger] ks[j] < i
            }),
        decreases draws@.len() - i,
    {
        let ghost ks = runnable_draws(draws@.subrange(0, i as int), layouts@, materials@, programs@);
        proof {
            lemma_runnable_step(draws@, i as int, layouts@, materials@, programs@);
        }
        let c = &draws[i];
        let layout = layouts.get(c.mesh.vertex_layout);
        let material = materials.get(c.material);
        if let Some(layout) = layout {
            if let Some(material) = material {
                if programs.get(material.program).is_some() {
                    let (bind_layout, upload_material) = match last {
                        None => (true, true),
                        Some(l) => (
                            draws[l].mesh.vertex_layout != c.mesh.vertex_layout,
                            draws[l].material != c.material,
                        ),
                    };
                    steps.push(
                        DrawStep { command: i, bind_layout, upload_material, indexed: layout.has_indices() },
                    );
                    last = Some(i);
                    proof {
                        let ks2 = ks.push(i as int);
                        assert forall|j: int| 0 <= j < ks2.len() implies #[trigger] steps@[j] == step_for::<
                            L,
                            P,
                        >(draws@, ks2, j, layouts@) by {
                            if j < ks.len() {
                                assert(ks2[j] == ks[j]);
                                if j > 0 {
                                    assert(ks2[j - 1] == ks[j - 1]);
                                }
                            }
                        }
                    }
                }
            }
        }
        i = i + 1;
    }
    proof {
        assert(draws@.subrange(0, i as int) =~= draws@);
    }
    steps
}

} // verus!
