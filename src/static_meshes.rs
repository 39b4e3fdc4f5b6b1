//! The static geometry submission path: a one-shot packing of immutable
//! meshes into the device-local static buffer, and the render-info table
//! that later frames draw them from.
use vstd::prelude::*;
use crate::buffer::{Buffer, grown};
use crate::descriptors::{DescriptorWrite, static_descriptor_write, static_mesh_descriptor_write};
use crate::layout::{attribute_offset_at, lemma_meshes_end_grows, meshes_end, place_mesh, uniform_offset_at};
use crate::mesh::{Material, MeshEntry, entry_sizes};

verus! {

/// Where a static mesh sits in the static buffer, and how to draw it.
#[derive(Clone, Copy, Debug, PartialEq, Eq, Structural)]
pub struct StaticRenderInfo {
    pub index_offset: usize,
    pub attribute_offset: usize,
    pub uniform_offset: usize,
    pub index_count: usize,
    pub material: Material,
}

/// What one submission asks of the device: the byte size of the staging
/// copy, whether the static buffer was reallocated for it, and the
/// descriptor bindings to rewrite as a consequence (none unless it was).
#[derive(Debug)]
pub struct StaticUpload {
    pub size: u64,
    pub reallocated: bool,
    pub descriptor_writes: Vec<DescriptorWrite>,
}

/// The static buffer's record and the render-info table of the meshes in it.
#[derive(Debug)]
pub struct StaticMeshes {
    pub buffer: Buffer,
    pub render_info: Vec<StaticRenderInfo>,
}

/// The byte size of the static buffer's contents for `es`.
pub open spec fn static_size(es: Seq<MeshEntry>, alignment: nat) -> nat {
    meshes_end(0, entry_sizes(es), alignment)
}

/// `r` describes the static mesh `e` whose indices start at `cursor`.
pub open spec fn info_matches(r: StaticRenderInfo, cursor: nat, e: MeshEntry, alignment: nat) -> bool {
    &&& r.index_offset == cursor
    &&& r.attribute_offset == attribute_offset_at(cursor, e.geometry)
    &&& r.uniform_offset == uniform_offset_at(cursor, e.geometry, alignment)
    &&& r.index_count == e.geometry.index_count
    &&& r.material == e.material
}

/// `t` is the render-info table of the meshes `es` packed in order from
/// the start of the static buffer.
pub open spec fn is_render_table(t: Seq<StaticRenderInfo>, es: Seq<MeshEntry>, alignment: nat) -> bool {
    &&& t.len() == es.len()
    &&& forall|i: int|
        0 <= i < es.len() ==> #[trigger] info_matches(
            t[i],
            meshes_end(0, entry_sizes(es).take(i), alignment),
            es[i],
            alignment,
        )
}

impl StaticMeshes {
    /// No static meshes yet, and a placeholder static buffer.
    pub fn new(usage: u32, properties: u32) -> (r: Self)
        ensures
            r.buffer == (Buffer { usage, properties, capacity: 0 }),
            r.render_info@.len() == 0,
    {
        StaticMeshes { buffer: Buffer::null(usage, properties), render_info: Vec::new() }
    }

    /// Replaces the static meshes by `meshes`: recomputes the render-info
    /// table wholesale and grows the static buffer where it is too small.
    /// `None`, with nothing changed, where the packed meshes do not fit in
    /// a `usize`.
    pub fn submit(&mut self, meshes: &Vec<MeshEntry>, uniform_alignment: usize) -> (r: Option<StaticUpload>)
        requires
            uniform_alignment > 0,
        ensures
            r.is_some() <==> static_size(meshes@, uniform_alignment as nat) <= usize::MAX,
            r is None ==> final(self).buffer == old(self).buffer && final(self).render_info@ == old(self).render_info@,
            r matches Some(u) ==> {
                let size = static_size(meshes@, uniform_alignment as nat);
                &&& u.size == size
                &&& is_render_table(final(self).render_info@, meshes@, uniform_alignment as nat)
                &&& final(self).buffer == grown(old(self).buffer, size as u64)
                &&& u.reallocated == (size > old(self).buffer.capacity)
                &&& u.descriptor_writes@ == if u.reallocated { seq![static_descriptor_write()] } else { Seq::empty() }
            },
    {
        let ghost a = uniform_alignment as nat;
        let ghost sizes = entry_sizes(meshes@);
        let mut table: Vec<StaticRenderInfo> = Vec::new();
        let mut cursor: usize = 0;
        let mut i: usize = 0;
        while i < meshes.len()
            invariant
                a == uniform_alignment as nat,
                uniform_alignment > 0,
                sizes == entry_sizes(meshes@),
                sizes.len() == meshes@.len(),
                i <= meshes@.len(),
                cursor == meshes_end(0, sizes.take(i as int), a),
                table@.len() == i,
                forall|k: int|
                    0 <= k < i ==> #[trigger] info_matches(
                        table@[k],
                        meshes_end(0, sizes.take(k), a),
                        meshes@[k],
                        a,
                    ),
            decreases meshes@.len() - i,
        {
            let entry = meshes[i];
            assert(sizes.take(i + 1).drop_last() =~= sizes.take(i as int));
            assert(sizes.take(i + 1).last() == entry.geometry);
            match place_mesh(cursor, entry.geometry, uniform_alignment) {
                Some((o, end)) => {
                    table.push(StaticRenderInfo {
                        index_offset: o.index_offset,
                        attribute_offset: o.attribute_offset,
                        uniform_offset: o.uniform_offset,
                        index_count: entry.geometry.index_count,
                        material: entry.material,
                    });
                    cursor = end;
                },
                None => {
                    proof {
                        lemma_meshes_end_grows(0, sizes, a, i + 1, sizes.len() as int);
                        assert(sizes.take(sizes.len() as int) =~= sizes);
                    }
                    return None;
                },
            }
            i = i + 1;
        }
        assert(sizes.take(sizes.len() as int) =~= sizes);
        let size = cursor as u64;
        let reallocated = self.buffer.grow_to(size);
        let mut descriptor_writes: Vec<DescriptorWrite> = Vec::new();
        if reallocated {
            descriptor_writes.push(static_mesh_descriptor_write());
            assert(descriptor_writes@ =~= seq![static_descriptor_write()]);
        }
        self.render_info = table;
        Some(StaticUpload { size, reallocated, descriptor_writes })
    }
}

/// Submitting the same static meshes twice gives the same render-info table
/// and the same static buffer as submitting them once; the second submission
/// does not reallocate.
pub proof fn lemma_static_submission_idempotent(
    meshes: Seq<MeshEntry>,
    alignment: nat,
    buffer: Buffer,
    first: Seq<StaticRenderInfo>,
    second: Seq<StaticRenderInfo>,
)
    requires
        static_size(meshes, alignment) <= usize::MAX,
        is_render_table(first, meshes, alignment),
        is_render_table(second, meshes, alignment),
    ensures
        first == second,
        grown(grown(buffer, static_size(meshes, alignment) as u64), static_size(meshes, alignment) as u64)
            == grown(buffer, static_size(meshes, alignment) as u64),
        !(static_size(meshes, alignment) > grown(buffer, static_size(meshes, alignment) as u64).capacity),
{
    assert forall|i: int| 0 <= i < meshes.len() implies first[i] == second[i] by {
        assert(info_matches(first[i], meshes_end(0, entry_sizes(meshes).take(i), alignment), meshes[i], alignment));
        assert(info_matches(second[i], meshes_end(0, entry_sizes(meshes).take(i), alignment), meshes[i], alignment));
    }
    assert(first =~= second);
}

} // verus!
