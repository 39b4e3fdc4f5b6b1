//! Routing of draw calls into the per-material secondary command buffers.
//!
//! Each frame records three secondary command buffers: basic, lambert and
//! text. Dynamic meshes are recorded first, in scene order, then the static
//! meshes from the static render-info table; each goes to the buffer of its
//! material. Text runs all go to the text buffer.
use vstd::prelude::*;
use crate::layout::{GeometrySize, MeshOffsets, TextOffsets};
use crate::mesh::{Material, MeshEntry};
use crate::static_meshes::StaticRenderInfo;

verus! {

/// The secondary command buffers of a frame.
#[derive(Clone, Copy, Debug, PartialEq, Eq, Structural)]
pub enum CommandSlot {
    Basic,
    Lambert,
    Text,
}

/// The secondary command buffer that draws of material `m` go to. The
/// normal material shares the basic pipeline.
pub open spec fn slot_of(m: Material) -> CommandSlot {
    match m {
        Material::Basic => CommandSlot::Basic,
        Material::Normal => CommandSlot::Basic,
        Material::Lambert => CommandSlot::Lambert,
    }
}

pub fn material_slot(m: Material) -> (r: CommandSlot)
    ensures
        r == slot_of(m),
{
    match m {
        Material::Basic => CommandSlot::Basic,
        Material::Normal => CommandSlot::Basic,
        Material::Lambert => CommandSlot::Lambert,
    }
}

/// The buffer a draw reads its data from.
#[derive(Clone, Copy, Debug, PartialEq, Eq, Structural)]
pub enum BufferSource {
    /// The current in-flight frame's dynamic buffer.
    Dynamic,
    /// The static buffer.
    Static,
}

/// One indexed draw: the index and vertex buffer ranges it binds, the
/// dynamic offsets of its uniforms (the atlas index only for text), and
/// how many indices it draws.
#[derive(Clone, Copy, Debug, PartialEq, Eq)]
pub struct DrawCall {
    pub source: BufferSource,
    pub index_offset: usize,
    pub attribute_offset: usize,
    pub uniform_offset: usize,
    pub atlas_index_offset: Option<usize>,
    pub index_count: usize,
}

/// The draws of one frame, per secondary command buffer.
#[derive(Debug)]
pub struct CommandPlan {
    pub basic: Vec<DrawCall>,
    pub lambert: Vec<DrawCall>,
    pub text: Vec<DrawCall>,
}

pub open spec fn mesh_draw(o: MeshOffsets, e: MeshEntry) -> DrawCall {
    DrawCall {
        source: BufferSource::Dynamic,
        index_offset: o.index_offset,
        attribute_offset: o.attribute_offset,
        uniform_offset: o.uniform_offset,
        atlas_index_offset: None,
        index_count: e.geometry.index_count,
    }
}

pub open spec fn static_draw(r: StaticRenderInfo) -> DrawCall {
    DrawCall {
        source: BufferSource::Static,
        index_offset: r.index_offset,
        attribute_offset: r.attribute_offset,
        uniform_offset: r.uniform_offset,
        atlas_index_offset: None,
        index_count: r.index_count,
    }
}

pub open spec fn text_draw(o: TextOffsets, g: GeometrySize) -> DrawCall {
    DrawCall {
        source: BufferSource::Dynamic,
        index_offset: o.index_offset,
        attribute_offset: o.attribute_offset,
        uniform_offset: o.matrix_uniform_offset,
        atlas_index_offset: Some(o.atlas_index_uniform_offset),
        index_count: g.index_count,
    }
}

/// The draws of the first `n` dynamic meshes that go to `slot`, in order.
pub open spec fn routed_meshes(
    meshes: Seq<MeshEntry>,
    offsets: Seq<MeshOffsets>,
    slot: CommandSlot,
    n: int,
) -> Seq<DrawCall>
    decreases n,
{
    if n <= 0 {
        Seq::empty()
    } else {
        let before = routed_meshes(meshes, offsets, slot, n - 1);
        if slot_of(meshes[n - 1].material) == slot {
            before.push(mesh_draw(offsets[n - 1], meshes[n - 1]))
        } else {
            before
        }
    }
}

/// The draws of the first `n` static meshes that go to `slot`, in order.
pub open spec fn routed_static(table: Seq<StaticRenderInfo>, slot: CommandSlot, n: int) -> Seq<DrawCall>
    decreases n,
{
    if n <= 0 {
        Seq::empty()
    } else {
        let before = routed_static(table, slot, n - 1);
        if slot_of(table[n - 1].material) == slot {
            before.push(static_draw(table[n - 1]))
        } else {
            before
        }
    }
}

/// The draws a mesh-material slot records: the dynamic meshes, then the
/// static ones.
pub open spec fn slot_draws(
    meshes: Seq<MeshEntry>,
    offsets: Seq<MeshOffsets>,
    table: Seq<StaticRenderInfo>,
    slot: CommandSlot,
) -> Seq<DrawCall> {
    routed_meshes(meshes, offsets, slot, meshes.len() as int) + routed_static(table, slot, table.len() as int)
}

/// Routes the draws of one frame: each dynamic mesh at its packed offsets,
/// each text run at its packed offsets, each static mesh from the static
/// render-info table.
pub fn record_draws(
    meshes: &Vec<MeshEntry>,
    mesh_offsets: &Vec<MeshOffsets>,
    texts: &Vec<GeometrySize>,
    text_offsets: &Vec<TextOffsets>,
    static_render_info: &Vec<StaticRenderInfo>,
) -> (r: CommandPlan)
    requires
        mesh_offsets@.len() == meshes@.len(),
        text_offsets@.len() == texts@.len(),
    ensures
        r.basic@ == slot_draws(meshes@, mesh_offsets@, static_render_info@, CommandSlot::Basic),
        r.lambert@ == slot_draws(meshes@, mesh_offsets@, static_render_info@, CommandSlot::Lambert),
        r.text@.len() == texts@.len(),
        forall|k: int| 0 <= k < texts@.len() ==> #[trigger] r.text@[k] == text_draw(text_offsets@[k], texts@[k]),
{
    let mut basic: Vec<DrawCall> = Vec::new();
    let mut lambert: Vec<DrawCall> = Vec::new();
    let mut i: usize = 0;
    while i < meshes.len()
        invariant
            i <= meshes@.len(),
            mesh_offsets@.len() == meshes@.len(),
            basic@ == routed_meshes(meshes@, mesh_offsets@, CommandSlot::Basic, i as int),
            lambert@ == routed_meshes(meshes@, mesh_offsets@, CommandSlot::Lambert, i as int),
        decreases meshes@.len() - i,
    {
        let o = mesh_offsets[i];
        let draw = DrawCall {
            source: BufferSource::Dynamic,
            index_offset: o.index_offset,
            attribute_offset: o.attribute_offset,
            uniform_offset: o.uniform_offset,
            atlas_index_offset: None,
            index_count: meshes[i].geometry.index_count,
        };
        match material_slot(meshes[i].material) {
            CommandSlot::Lambert => lambert.push(draw),
            _ => basic.push(draw),
        }
        i = i + 1;
    }
    let ghost basic_dynamic = basic@;
    let ghost lambert_dynamic = lambert@;
    let mut k: usize = 0;
    while k < static_render_info.len()
        invariant
            k <= static_render_info@.len(),
            basic@ == basic_dynamic + routed_static(static_render_info@, CommandSlot::Basic, k as int),
            lambert@ == lambert_dynamic + routed_static(static_render_info@, CommandSlot::Lambert, k as int),
        decreases static_render_info@.len() - k,
    {
        let info = static_render_info[k];
        let draw = DrawCall {
            source: BufferSource::Static,
            index_offset: info.index_offset,
            attribute_offset: info.attribute_offset,
            uniform_offset: info.uniform_offset,
            atlas_index_offset: None,
            index_count: info.index_count,
        };
        let ghost before_basic = routed_static(static_render_info@, CommandSlot::Basic, k as int);
        let ghost before_lambert = routed_static(static_render_info@, CommandSlot::Lambert, k as int);
        match material_slot(info.material) {
            CommandSlot::Lambert => {
                lambert.push(draw);
                assert(lambert@ =~= lambert_dynamic + before_lambert.push(draw));
            },
            _ => {
                basic.push(draw);
                assert(basic@ =~= basic_dynamic + before_basic.push(draw));
            },
        }
        k = k + 1;
    }
    let mut text: Vec<DrawCall> = Vec::new();
    let mut j: usize = 0;
    while j < texts.len()
        invariant
            j <= texts@.len(),
            text_offsets@.len() == texts@.len(),
            text@.len() == j,
            forall|m: int| 0 <= m < j ==> #[trigger] text@[m] == text_draw(text_offsets@[m], texts@[m]),
        decreases texts@.len() - j,
    {
        let o = text_offsets[j];
        text.push(DrawCall {
            source: BufferSource::Dynamic,
            index_offset: o.index_offset,
            attribute_offset: o.attribute_offset,
            uniform_offset: o.matrix_uniform_offset,
            atlas_index_offset: Some(o.atlas_index_uniform_offset),
            index_count: texts[j].index_count,
        });
        j = j + 1;
    }
    CommandPlan { basic, lambert, text }
}

} // verus!
