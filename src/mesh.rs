//! Meshes as the renderer consumes them: a geometry reference and a material.
use vstd::prelude::*;
use crate::layout::GeometrySize;

verus! {

/// A reference to a geometry held by the scene's geometry pool.
#[derive(Clone, Copy, Debug, PartialEq, Eq, Structural)]
pub struct Handle {
    pub index: usize,
}

/// The fixed set of materials. Each one selects a pipeline and the secondary
/// command buffer its draws are recorded into.
#[derive(Clone, Copy, Debug, PartialEq, Eq, Structural)]
pub enum Material {
    Basic,
    Normal,
    Lambert,
}

/// A mesh whose geometry is uploaded once into the static buffer.
#[derive(Clone, Copy, Debug, PartialEq, Eq, Structural)]
pub struct StaticMesh {
    pub geometry_handle: Handle,
    pub material: Material,
}

impl StaticMesh {
    pub fn new(geometry_handle: Handle, material: Material) -> (r: Self)
        ensures
            r.geometry_handle == geometry_handle,
            r.material == material,
    {
        StaticMesh { geometry_handle, material }
    }
}

/// A mesh whose data is packed into the dynamic buffer every frame.
#[derive(Clone, Copy, Debug, PartialEq, Eq, Structural)]
pub struct Mesh {
    pub geometry_handle: Handle,
    pub material: Material,
}

impl Mesh {
    pub fn new(geometry_handle: Handle, material: Material) -> (r: Self)
        ensures
            r.geometry_handle == geometry_handle,
            r.material == material,
    {
        Mesh { geometry_handle, material }
    }
}

/// A mesh as the renderer packs and draws it: the sizes of its geometry,
/// resolved from the geometry pool, and its material.
#[derive(Clone, Copy, Debug, PartialEq, Eq, Structural)]
pub struct MeshEntry {
    pub geometry: GeometrySize,
    pub material: Material,
}

/// The geometry sizes of the meshes `es`, in order.
pub open spec fn entry_sizes(es: Seq<MeshEntry>) -> Seq<GeometrySize> {
    es.map_values(|e: MeshEntry| e.geometry)
}

/// The geometry sizes of `meshes`, in order.
pub fn geometry_sizes(meshes: &Vec<MeshEntry>) -> (r: Vec<GeometrySize>)
    ensures
        r@ == entry_sizes(meshes@),
{
    let mut r: Vec<GeometrySize> = Vec::new();
    let mut i: usize = 0;
    while i < meshes.len()
        invariant
            i <= meshes@.len(),
            r@ == entry_sizes(meshes@.take(i as int)),
        decreases meshes@.len() - i,
    {
        r.push(meshes[i].geometry);
        i = i + 1;
        assert(r@ =~= entry_sizes(meshes@.take(i as int)));
    }
    assert(meshes@.take(meshes@.len() as int) =~= meshes@);
    r
}

} // verus!
