//! An in-flight frame's dynamic buffer: the frame header with its point
//! lights, and the packing of each frame's objects behind it.
use vstd::prelude::*;
use crate::buffer::{Buffer, grown};
use crate::descriptors::{DescriptorWrite, frame_descriptor_writes, in_flight_frame_descriptor_writes};
use crate::layout::{
    ATLAS_INDEX_UNIFORM_SIZE, FRAME_DATA_SIZE, FrameLayout, GeometrySize, MESH_UNIFORM_SIZE,
    TEXT_MATRIX_UNIFORM_SIZE, compute_frame_layout, frame_size, meshes_end, meshes_placed,
    texts_placed,
};

verus! {

/// The number of in-flight frames, used round-robin.
pub const IN_FLIGHT_FRAMES_COUNT: usize = 2;

/// The largest number of point lights a frame can carry.
pub const MAX_POINT_LIGHTS: usize = 5;

/// Offset of the projection matrix (16 floats) in the frame header.
pub const PROJECTION_MATRIX_OFFSET: usize = 0;

/// Offset of the inverse view matrix (16 floats) in the frame header.
pub const INVERSE_VIEW_MATRIX_OFFSET: usize = 16 * 4;

/// Offset of the ambient light's intensified color (3 floats).
pub const AMBIENT_LIGHT_OFFSET: usize = 32 * 4;

/// Offset of the point-light count (one `u32`).
pub const POINT_LIGHT_COUNT_OFFSET: usize = 35 * 4;

/// Offset of the first point light's position (3 floats).
pub const POINT_LIGHT_POSITION_OFFSET: usize = 36 * 4;

/// Offset of the first point light's intensified color (3 floats).
pub const POINT_LIGHT_COLOR_OFFSET: usize = 40 * 4;

/// Distance in bytes between two consecutive point lights.
pub const POINT_LIGHT_STRIDE: usize = 8 * 4;

/// Why a frame could not be packed.
#[derive(Clone, Copy, Debug, PartialEq, Eq, Structural)]
pub enum FrameError {
    /// The scene holds more point lights than a frame can carry.
    TooManyPointLights,
    /// The frame's data does not fit in the address space.
    TooLarge,
}

/// Where one point light is written in the frame header.
#[derive(Clone, Copy, Debug, PartialEq, Eq, Structural)]
pub struct PointLightSlot {
    pub position_offset: usize,
    pub color_offset: usize,
}

/// The point light `k` is written at `slot`.
pub open spec fn point_light_at(slot: PointLightSlot, k: int) -> bool {
    &&& slot.position_offset == POINT_LIGHT_POSITION_OFFSET + k * POINT_LIGHT_STRIDE
    &&& slot.color_offset == POINT_LIGHT_COLOR_OFFSET + k * POINT_LIGHT_STRIDE
}

/// The header slots of `count` point lights, or an error where there are
/// more than the header holds.
pub fn point_light_slots(count: usize) -> (r: Result<Vec<PointLightSlot>, FrameError>)
    ensures
        r is Err <==> count > MAX_POINT_LIGHTS,
        r matches Err(e) ==> e == FrameError::TooManyPointLights,
        r matches Ok(slots) ==> slots@.len() == count && forall|k: int|
            0 <= k < count ==> #[trigger] point_light_at(slots@[k], k),
{
    if count > MAX_POINT_LIGHTS {
        return Err(FrameError::TooManyPointLights);
    }
    let mut slots: Vec<PointLightSlot> = Vec::new();
    let mut k: usize = 0;
    while k < count
        invariant
            count <= MAX_POINT_LIGHTS,
            k <= count,
            slots@.len() == k,
            forall|j: int| 0 <= j < k ==> #[trigger] point_light_at(slots@[j], j),
        decreases count - k,
    {
        slots.push(PointLightSlot {
            position_offset: POINT_LIGHT_POSITION_OFFSET + k * POINT_LIGHT_STRIDE,
            color_offset: POINT_LIGHT_COLOR_OFFSET + k * POINT_LIGHT_STRIDE,
        });
        k = k + 1;
    }
    Ok(slots)
}

/// Every point light the header admits lies inside the header.
pub proof fn lemma_point_lights_fit_header(k: int)
    requires
        0 <= k < MAX_POINT_LIGHTS,
    ensures
        POINT_LIGHT_COUNT_OFFSET + 4 <= POINT_LIGHT_POSITION_OFFSET + k * POINT_LIGHT_STRIDE,
        POINT_LIGHT_POSITION_OFFSET + k * POINT_LIGHT_STRIDE + 12 <= POINT_LIGHT_COLOR_OFFSET + k
            * POINT_LIGHT_STRIDE,
        POINT_LIGHT_COLOR_OFFSET + k * POINT_LIGHT_STRIDE + 12 <= FRAME_DATA_SIZE,
{
}

/// What packing one frame produced: the layout of its dynamic buffer, the
/// header slots of its point lights, whether the buffer was reallocated,
/// and the descriptor bindings to rewrite as a consequence (none unless it
/// was).
#[derive(Debug)]
pub struct FramePlan {
    pub layout: FrameLayout,
    pub point_lights: Vec<PointLightSlot>,
    pub reallocated: bool,
    pub descriptor_writes: Vec<DescriptorWrite>,
}

/// The resources of one in-flight frame that the packer decides on: the
/// record of its dynamic buffer.
#[derive(Clone, Copy, Debug, PartialEq, Eq, Structural)]
pub struct InFlightFrame {
    pub buffer: Buffer,
}

impl InFlightFrame {
    /// A frame whose dynamic buffer holds exactly the frame header, with the
    /// bindings that attach the frame's descriptor sets to that buffer: they
    /// are written when the frame is created, before its first use.
    pub fn new(usage: u32, properties: u32) -> (r: (Self, Vec<DescriptorWrite>))
        ensures
            r.0.buffer == (Buffer { usage, properties, capacity: FRAME_DATA_SIZE as u64 }),
            r.1@ == frame_descriptor_writes(),
    {
        (InFlightFrame { buffer: Buffer::new(FRAME_DATA_SIZE as u64, usage, properties) }, in_flight_frame_descriptor_writes())
    }

    /// Packs one frame: lays out `meshes` and then `texts` behind the frame
    /// header, places `point_light_count` point lights in the header, and
    /// grows the dynamic buffer to the frame's size where it is smaller,
    /// before anything is written into it. More point lights than the header
    /// holds is caller misuse, left out. On an error the frame is left as it
    /// was.
    pub fn pack(
        &mut self,
        meshes: &Vec<GeometrySize>,
        texts: &Vec<GeometrySize>,
        point_light_count: usize,
        uniform_alignment: usize,
    ) -> (r: Result<FramePlan, FrameError>)
        requires
            uniform_alignment > 0,
            point_light_count <= MAX_POINT_LIGHTS,
        ensures
            r matches Err(e) ==> *final(self) == *old(self) && e == FrameError::TooLarge,
            r is Err <==> frame_size(meshes@, texts@, uniform_alignment as nat) > usize::MAX,
            r matches Ok(p) ==> {
                let size = frame_size(meshes@, texts@, uniform_alignment as nat);
                &&& meshes_placed(p.layout.meshes@, FRAME_DATA_SIZE as nat, meshes@, uniform_alignment as nat)
                &&& texts_placed(
                    p.layout.texts@,
                    meshes_end(FRAME_DATA_SIZE as nat, meshes@, uniform_alignment as nat),
                    texts@,
                    uniform_alignment as nat,
                )
                &&& p.layout.size == size
                &&& p.point_lights@.len() == point_light_count
                &&& forall|k: int| 0 <= k < point_light_count ==> #[trigger] point_light_at(p.point_lights@[k], k)
                &&& final(self).buffer == grown(old(self).buffer, size as u64)
                &&& p.reallocated == (size > old(self).buffer.capacity)
                &&& p.descriptor_writes@ == if p.reallocated { frame_descriptor_writes() } else { Seq::empty() }
            },
    {
        let point_lights = match point_light_slots(point_light_count) {
            Ok(slots) => slots,
            Err(e) => return Err(e),
        };
        let layout = match compute_frame_layout(meshes, texts, uniform_alignment) {
            Some(l) => l,
            None => return Err(FrameError::TooLarge),
        };
        let reallocated = self.buffer.grow_to(layout.size as u64);
        let descriptor_writes = if reallocated {
            in_flight_frame_descriptor_writes()
        } else {
            Vec::new()
        };
        proof {
            if !reallocated {
                assert(descriptor_writes@ =~= Seq::<DescriptorWrite>::empty());
            }
        }
        Ok(FramePlan { layout, point_lights, reallocated, descriptor_writes })
    }
}

/// Growing a frame's dynamic buffer for a size beyond its capacity gives a
/// buffer of exactly that size with the same flags, and rebinds the frame's
/// descriptor sets with the fixed per-kind ranges: the frame header, one
/// 16-float mesh transform, one 12-float text matrix and one atlas index.
pub proof fn lemma_growth_rebinds_fixed_ranges(buffer: Buffer, required: u64)
    requires
        required > buffer.capacity,
    ensures
        grown(buffer, required).capacity == required,
        grown(buffer, required).usage == buffer.usage,
        grown(buffer, required).properties == buffer.properties,
        frame_descriptor_writes().len() == 4,
        forall|i: int| 0 <= i < 4 ==> #[trigger] frame_descriptor_writes()[i].offset == 0,
        frame_descriptor_writes()[0].range == FRAME_DATA_SIZE,
        frame_descriptor_writes()[1].range == MESH_UNIFORM_SIZE,
        frame_descriptor_writes()[2].range == TEXT_MATRIX_UNIFORM_SIZE,
        frame_descriptor_writes()[3].range == ATLAS_INDEX_UNIFORM_SIZE,
{
}

} // verus!
