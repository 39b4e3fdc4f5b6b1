//! Descriptor-set bindings onto the renderer's buffers. Each binding covers a
//! fixed byte range at offset zero; dynamic bindings are moved to an object's
//! data by a dynamic offset when a draw is recorded.
use vstd::prelude::*;
use crate::layout::{ATLAS_INDEX_UNIFORM_SIZE, FRAME_DATA_SIZE, MESH_UNIFORM_SIZE, TEXT_MATRIX_UNIFORM_SIZE};

verus! {

/// The descriptor sets that reference a buffer.
#[derive(Clone, Copy, Debug, PartialEq, Eq, Structural)]
pub enum DescriptorSetKind {
    /// The frame header of an in-flight frame's dynamic buffer.
    FrameData,
    /// The mesh transform uniforms of an in-flight frame's dynamic buffer.
    MeshData,
    /// The text matrix and atlas-index uniforms of an in-flight frame's dynamic buffer.
    TextData,
    /// The mesh transform uniforms of the static buffer.
    StaticMeshData,
}

/// One binding written into a descriptor set.
#[derive(Clone, Copy, Debug, PartialEq, Eq, Structural)]
pub struct DescriptorWrite {
    pub set: DescriptorSetKind,
    pub binding: u32,
    /// Whether the binding is a dynamic uniform buffer, moved by an offset per draw.
    pub dynamic: bool,
    pub offset: u64,
    pub range: u64,
}

/// The bindings of an in-flight frame's descriptor sets onto its dynamic buffer.
pub open spec fn frame_descriptor_writes() -> Seq<DescriptorWrite> {
    seq![
        DescriptorWrite { set: DescriptorSetKind::FrameData, binding: 0, dynamic: false, offset: 0, range: FRAME_DATA_SIZE as u64 },
        DescriptorWrite { set: DescriptorSetKind::MeshData, binding: 0, dynamic: true, offset: 0, range: MESH_UNIFORM_SIZE as u64 },
        DescriptorWrite { set: DescriptorSetKind::TextData, binding: 0, dynamic: true, offset: 0, range: TEXT_MATRIX_UNIFORM_SIZE as u64 },
        DescriptorWrite { set: DescriptorSetKind::TextData, binding: 1, dynamic: true, offset: 0, range: ATLAS_INDEX_UNIFORM_SIZE as u64 },
    ]
}

/// The binding of the static mesh descriptor set onto the static buffer.
pub open spec fn static_descriptor_write() -> DescriptorWrite {
    DescriptorWrite { set: DescriptorSetKind::StaticMeshData, binding: 0, dynamic: true, offset: 0, range: MESH_UNIFORM_SIZE as u64 }
}

/// The bindings to write after an in-flight frame's dynamic buffer was reallocated.
pub fn in_flight_frame_descriptor_writes() -> (r: Vec<DescriptorWrite>)
    ensures
        r@ == frame_descriptor_writes(),
{
    let r = vec![
        DescriptorWrite { set: DescriptorSetKind::FrameData, binding: 0, dynamic: false, offset: 0, range: FRAME_DATA_SIZE as u64 },
        DescriptorWrite { set: DescriptorSetKind::MeshData, binding: 0, dynamic: true, offset: 0, range: MESH_UNIFORM_SIZE as u64 },
        DescriptorWrite { set: DescriptorSetKind::TextData, binding: 0, dynamic: true, offset: 0, range: TEXT_MATRIX_UNIFORM_SIZE as u64 },
        DescriptorWrite { set: DescriptorSetKind::TextData, binding: 1, dynamic: true, offset: 0, range: ATLAS_INDEX_UNIFORM_SIZE as u64 },
    ];
    assert(r@ =~= frame_descriptor_writes());
    r
}

/// The binding to write after the static buffer was reallocated.
pub fn static_mesh_descriptor_write() -> (r: DescriptorWrite)
    ensures
        r == static_descriptor_write(),
{
    DescriptorWrite { set: DescriptorSetKind::StaticMeshData, binding: 0, dynamic: true, offset: 0, range: MESH_UNIFORM_SIZE as u64 }
}

} // verus!
