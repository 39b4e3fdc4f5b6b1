//! The renderer's decisions for each frame, without the device: which
//! in-flight frame and image are used, how the frame's data is packed, which
//! draws go to which command buffer, and when the swapchain is rebuilt.
use vstd::prelude::*;
use crate::buffer::{Buffer, grown};
use crate::descriptors::{DescriptorWrite, frame_descriptor_writes, static_descriptor_write};
use crate::frame::{FrameError, FramePlan, IN_FLIGHT_FRAMES_COUNT, InFlightFrame, MAX_POINT_LIGHTS, point_light_at};
use crate::layout::{FRAME_DATA_SIZE, GeometrySize, frame_size, meshes_end, meshes_placed, texts_placed};
use crate::mesh::{MeshEntry, entry_sizes, geometry_sizes};
use crate::record::{CommandPlan, CommandSlot, record_draws, slot_draws, text_draw};
use crate::render_loop::{AcquireAction, AcquireResult, PresentResult, RenderError, RenderLoop};
use crate::static_meshes::{StaticMeshes, StaticUpload};
use crate::swapchain::{Extent2D, SwapchainConfig};

verus! {

/// Why a frame could not be rendered.
#[derive(Clone, Copy, Debug, PartialEq, Eq, Structural)]
pub enum FrameFailure {
    Render(RenderError),
    Frame(FrameError),
}

/// The work of one frame that the device has to carry out.
#[derive(Debug)]
pub struct DrawWork {
    /// The in-flight frame whose resources are used.
    pub in_flight_frame: usize,
    pub image_index: usize,
    /// The in-flight frame that last rendered into this image, to wait for.
    pub wait_for_frame: Option<usize>,
    pub frame: FramePlan,
    pub commands: CommandPlan,
}

/// What a render call leads to.
#[derive(Debug)]
pub enum FrameWork {
    /// The swapchain is out of date: nothing is submitted; rebuild it.
    Skip,
    Draw(DrawWork),
}

/// The renderer's state apart from device handles.
#[derive(Debug)]
pub struct RendererState {
    pub render_loop: RenderLoop,
    pub in_flight_frames: Vec<InFlightFrame>,
    pub static_meshes: StaticMeshes,
    pub swapchain: SwapchainConfig,
    /// The framebuffer size the UI projection is derived from.
    pub framebuffer: Extent2D,
    pub uniform_alignment: usize,
}

impl RendererState {
    pub open spec fn wf(&self) -> bool {
        &&& self.render_loop.wf()
        &&& self.in_flight_frames@.len() == IN_FLIGHT_FRAMES_COUNT
        &&& self.uniform_alignment > 0
    }

    /// A renderer on a new swapchain of `image_count` images, with two
    /// in-flight frames whose dynamic buffers hold the frame header, and no
    /// static meshes. Returns beside it, for each in-flight frame, the
    /// bindings that attach its descriptor sets to its dynamic buffer.
    pub fn new(
        swapchain: SwapchainConfig,
        image_count: usize,
        framebuffer: Extent2D,
        uniform_alignment: usize,
        dynamic_usage: u32,
        dynamic_properties: u32,
        static_usage: u32,
        static_properties: u32,
    ) -> (r: (Self, Vec<Vec<DescriptorWrite>>))
        requires
            uniform_alignment > 0,
        ensures
            r.0.wf(),
            r.0.swapchain == swapchain,
            r.0.framebuffer == framebuffer,
            r.0.uniform_alignment == uniform_alignment,
            r.0.render_loop.current_in_flight_frame == 0,
            r.0.render_loop.image_frames@ == Seq::new(image_count as nat, |i: int| None::<usize>),
            r.0.render_loop.frames_in_flight@ == seq![false, false],
            !r.0.render_loop.submit_fonts,
            forall|i: int| 0 <= i < IN_FLIGHT_FRAMES_COUNT ==> #[trigger] r.0.in_flight_frames@[i].buffer == (Buffer {
                usage: dynamic_usage,
                properties: dynamic_properties,
                capacity: FRAME_DATA_SIZE as u64,
            }),
            r.0.static_meshes.buffer == (Buffer { usage: static_usage, properties: static_properties, capacity: 0 }),
            r.0.static_meshes.render_info@.len() == 0,
            r.1@.len() == IN_FLIGHT_FRAMES_COUNT,
            forall|i: int| 0 <= i < IN_FLIGHT_FRAMES_COUNT ==> (#[trigger] r.1@[i])@ == frame_descriptor_writes(),
    {
        let mut in_flight_frames: Vec<InFlightFrame> = Vec::new();
        let mut bindings: Vec<Vec<DescriptorWrite>> = Vec::new();
        let (first, first_bindings) = InFlightFrame::new(dynamic_usage, dynamic_properties);
        in_flight_frames.push(first);
        bindings.push(first_bindings);
        let (second, second_bindings) = InFlightFrame::new(dynamic_usage, dynamic_properties);
        in_flight_frames.push(second);
        bindings.push(second_bindings);
        let state = RendererState {
            render_loop: RenderLoop::new(image_count),
            in_flight_frames,
            static_meshes: StaticMeshes::new(static_usage, static_properties),
            swapchain,
            framebuffer,
            uniform_alignment,
        };
        (state, bindings)
    }

    /// Takes a rebuilt swapchain of `image_count` images for a framebuffer
    /// of the new size.
    pub fn handle_resize(&mut self, swapchain: SwapchainConfig, image_count: usize, framebuffer: Extent2D)
        requires
            old(self).wf(),
        ensures
            final(self).wf(),
            final(self).swapchain == swapchain,
            final(self).framebuffer == framebuffer,
            final(self).render_loop.image_frames@ == Seq::new(image_count as nat, |i: int| None::<usize>),
            final(self).render_loop.current_in_flight_frame == old(self).render_loop.current_in_flight_frame,
            final(self).render_loop.submit_fonts == old(self).render_loop.submit_fonts,
            final(self).render_loop.frames_in_flight@ == old(self).render_loop.frames_in_flight@,
            final(self).in_flight_frames@ == old(self).in_flight_frames@,
            final(self).static_meshes.buffer == old(self).static_meshes.buffer,
            final(self).static_meshes.render_info@ == old(self).static_meshes.render_info@,
            final(self).uniform_alignment == old(self).uniform_alignment,
    {
        self.render_loop.on_swapchain_rebuilt(image_count);
        self.swapchain = swapchain;
        self.framebuffer = framebuffer;
    }

    /// Replaces the static meshes; see [`StaticMeshes::submit`].
    pub fn submit_static_meshes(&mut self, meshes: &Vec<MeshEntry>) -> (r: Option<StaticUpload>)
        requires
            old(self).wf(),
        ensures
            final(self).wf(),
            final(self).render_loop == old(self).render_loop,
            final(self).in_flight_frames@ == old(self).in_flight_frames@,
            final(self).uniform_alignment == old(self).uniform_alignment,
            final(self).swapchain == old(self).swapchain,
            final(self).framebuffer == old(self).framebuffer,
            r.is_some() <==> crate::static_meshes::static_size(meshes@, old(self).uniform_alignment as nat)
                <= usize::MAX,
            r is None ==> final(self).static_meshes.buffer == old(self).static_meshes.buffer
                && final(self).static_meshes.render_info@ == old(self).static_meshes.render_info@,
            r matches Some(u) ==> {
                let size = crate::static_meshes::static_size(meshes@, old(self).uniform_alignment as nat);
                &&& u.size == size
                &&& crate::static_meshes::is_render_table(
                    final(self).static_meshes.render_info@,
                    meshes@,
                    old(self).uniform_alignment as nat,
                )
                &&& final(self).static_meshes.buffer == grown(old(self).static_meshes.buffer, size as u64)
                &&& u.reallocated == (size > old(self).static_meshes.buffer.capacity)
                &&& u.descriptor_writes@ == if u.reallocated { seq![static_descriptor_write()] } else { Seq::empty() }
            },
    {
        self.static_meshes.submit(meshes, self.uniform_alignment)
    }

    /// Notes that a font was added or removed, so that fonts are submitted
    /// before the next frame.
    pub fn fonts_changed(&mut self)
        requires
            old(self).wf(),
        ensures
            final(self).wf(),
            final(self).render_loop.submit_fonts,
            final(self).render_loop.current_in_flight_frame == old(self).render_loop.current_in_flight_frame,
            final(self).render_loop.image_frames@ == old(self).render_loop.image_frames@,
            final(self).render_loop.frames_in_flight@ == old(self).render_loop.frames_in_flight@,
            final(self).in_flight_frames@ == old(self).in_flight_frames@,
            final(self).uniform_alignment == old(self).uniform_alignment,
            final(self).swapchain == old(self).swapchain,
            final(self).framebuffer == old(self).framebuffer,
            final(self).static_meshes.buffer == old(self).static_meshes.buffer,
            final(self).static_meshes.render_info@ == old(self).static_meshes.render_info@,
    {
        self.render_loop.fonts_changed();
    }

    /// Starts a frame: the in-flight frame whose fence must be waited for,
    /// and whether fonts must be submitted first.
    pub fn begin_frame(&mut self) -> (r: (usize, bool))
        requires
            old(self).wf(),
        ensures
            final(self).wf(),
            r.0 == old(self).render_loop.current_in_flight_frame,
            r.1 == old(self).render_loop.submit_fonts,
            !final(self).render_loop.submit_fonts,
            final(self).render_loop.current_in_flight_frame == old(self).render_loop.current_in_flight_frame,
            final(self).render_loop.image_frames@ == old(self).render_loop.image_frames@,
            final(self).render_loop.frames_in_flight@ == old(self).render_loop.frames_in_flight@,
            final(self).in_flight_frames@ == old(self).in_flight_frames@,
            final(self).uniform_alignment == old(self).uniform_alignment,
            final(self).swapchain == old(self).swapchain,
            final(self).framebuffer == old(self).framebuffer,
            final(self).static_meshes.buffer == old(self).static_meshes.buffer,
            final(self).static_meshes.render_info@ == old(self).static_meshes.render_info@,
    {
        let submit_fonts = self.render_loop.take_font_submission();
        (self.render_loop.current_in_flight_frame, submit_fonts)
    }

    /// Notes that the current in-flight frame's fence was observed signaled.
    pub fn fence_signaled(&mut self)
        requires
            old(self).wf(),
        ensures
            final(self).wf(),
            final(self).render_loop.current_in_flight_frame == old(self).render_loop.current_in_flight_frame,
            final(self).render_loop.image_frames@ == old(self).render_loop.image_frames@,
            final(self).render_loop.submit_fonts == old(self).render_loop.submit_fonts,
            final(self).render_loop.frames_in_flight@ == old(self).render_loop.frames_in_flight@.update(
                old(self).render_loop.current_in_flight_frame as int,
                false,
            ),
            final(self).in_flight_frames@ == old(self).in_flight_frames@,
            final(self).uniform_alignment == old(self).uniform_alignment,
            final(self).swapchain == old(self).swapchain,
            final(self).framebuffer == old(self).framebuffer,
            final(self).static_meshes.buffer == old(self).static_meshes.buffer,
            final(self).static_meshes.render_info@ == old(self).static_meshes.render_info@,
    {
        self.render_loop.fence_signaled();
    }

    /// Decides a frame after an image was asked for. The current in-flight
    /// frame is refused while the device may still read it; an out-of-date
    /// swapchain skips the frame; an acquired image gets the frame's data
    /// packed into the current in-flight frame's dynamic buffer, grown first
    /// where needed, its draws routed to the command buffers, and the frame
    /// counts as submitted.
    pub fn render(
        &mut self,
        acquired: AcquireResult,
        meshes: &Vec<MeshEntry>,
        texts: &Vec<GeometrySize>,
        point_light_count: usize,
    ) -> (r: Result<FrameWork, FrameFailure>)
        requires
            old(self).wf(),
            point_light_count <= MAX_POINT_LIGHTS,
        ensures
            final(self).wf(),
            final(self).render_loop.current_in_flight_frame == old(self).render_loop.current_in_flight_frame,
            final(self).static_meshes.render_info@ == old(self).static_meshes.render_info@,
            final(self).static_meshes.buffer == old(self).static_meshes.buffer,
            final(self).swapchain == old(self).swapchain,
            final(self).framebuffer == old(self).framebuffer,
            final(self).render_loop.submit_fonts == old(self).render_loop.submit_fonts,
            final(self).uniform_alignment == old(self).uniform_alignment,
            final(self).in_flight_frames@ != old(self).in_flight_frames@ ==> !old(
                self,
            ).render_loop.frames_in_flight@[old(self).render_loop.current_in_flight_frame as int],
            forall|i: int|
                0 <= i < IN_FLIGHT_FRAMES_COUNT && i != old(self).render_loop.current_in_flight_frame
                    ==> #[trigger] final(self).in_flight_frames@[i] == old(self).in_flight_frames@[i],
            old(self).render_loop.frames_in_flight@[old(self).render_loop.current_in_flight_frame as int]
                ==> r == Err::<FrameWork, FrameFailure>(FrameFailure::Render(RenderError::FrameInFlight))
                && final(self).render_loop.image_frames@ == old(self).render_loop.image_frames@
                && final(self).render_loop.frames_in_flight@ == old(self).render_loop.frames_in_flight@
                && final(self).in_flight_frames@ == old(self).in_flight_frames@,
            !old(self).render_loop.frames_in_flight@[old(self).render_loop.current_in_flight_frame as int]
                ==> match acquired {
                AcquireResult::OutOfDate => r matches Ok(FrameWork::Skip) && final(self).render_loop.image_frames@
                    == old(self).render_loop.image_frames@ && final(self).in_flight_frames@ == old(
                    self,
                ).in_flight_frames@ && final(self).render_loop.frames_in_flight@ == old(self).render_loop.frames_in_flight@,
                AcquireResult::Failed(code) => r == Err::<FrameWork, FrameFailure>(
                    FrameFailure::Render(RenderError::Acquire(code)),
                ) && final(self).in_flight_frames@ == old(self).in_flight_frames@
                    && final(self).render_loop.frames_in_flight@ == old(self).render_loop.frames_in_flight@,
                AcquireResult::Acquired { image_index, suboptimal } => if image_index
                    < old(self).render_loop.image_frames@.len() {
                    rendered(*old(self), *final(self), image_index as int, meshes@, texts@, point_light_count, r)
                } else {
                    r == Err::<FrameWork, FrameFailure>(FrameFailure::Render(RenderError::ImageIndexOutOfRange))
                        && final(self).in_flight_frames@ == old(self).in_flight_frames@
                        && final(self).render_loop.frames_in_flight@ == old(self).render_loop.frames_in_flight@
                },
            },
    {
        let action = match self.render_loop.on_acquire(acquired) {
            Ok(a) => a,
            Err(e) => return Err(FrameFailure::Render(e)),
        };
        let (image_index, wait_for_frame) = match action {
            AcquireAction::Rebuild => return Ok(FrameWork::Skip),
            AcquireAction::Render { image_index, wait_for_frame } => (image_index, wait_for_frame),
        };
        let current = self.render_loop.current_in_flight_frame;
        let mesh_sizes = geometry_sizes(meshes);
        let mut frame = self.in_flight_frames[current];
        let plan = match frame.pack(&mesh_sizes, texts, point_light_count, self.uniform_alignment) {
            Ok(p) => p,
            Err(e) => return Err(FrameFailure::Frame(e)),
        };
        self.in_flight_frames.set(current, frame);
        self.render_loop.mark_submitted();
        let commands = record_draws(
            meshes,
            &plan.layout.meshes,
            texts,
            &plan.layout.texts,
            &self.static_meshes.render_info,
        );
        Ok(FrameWork::Draw(DrawWork { in_flight_frame: current, image_index, wait_for_frame, frame: plan, commands }))
    }

    /// Decides on the outcome of presenting; see [`RenderLoop::on_present`].
    pub fn present(&mut self, result: PresentResult) -> (r: Result<bool, RenderError>)
        requires
            old(self).wf(),
        ensures
            final(self).wf(),
            final(self).render_loop.image_frames@ == old(self).render_loop.image_frames@,
            final(self).render_loop.frames_in_flight@ == old(self).render_loop.frames_in_flight@,
            final(self).in_flight_frames@ == old(self).in_flight_frames@,
            final(self).uniform_alignment == old(self).uniform_alignment,
            final(self).swapchain == old(self).swapchain,
            final(self).framebuffer == old(self).framebuffer,
            final(self).static_meshes.buffer == old(self).static_meshes.buffer,
            final(self).static_meshes.render_info@ == old(self).static_meshes.render_info@,
            match result {
                PresentResult::Presented { suboptimal } => r == Ok::<bool, RenderError>(suboptimal),
                PresentResult::OutOfDate => r == Ok::<bool, RenderError>(true),
                PresentResult::Failed(code) => r == Err::<bool, RenderError>(RenderError::Present(code)),
            },
            r is Ok ==> final(self).render_loop.current_in_flight_frame == (
            old(self).render_loop.current_in_flight_frame + 1) % IN_FLIGHT_FRAMES_COUNT as int,
    {
        self.render_loop.on_present(result)
    }
}

/// What rendering into the acquired image `image_index` does: the image is
/// claimed by the current in-flight frame; the frame is refused exactly when
/// it does not fit; otherwise its dynamic
/// buffer is laid out and grown, its draws are routed, and the in-flight
/// frame counts as submitted.
pub open spec fn rendered(
    before: RendererState,
    after: RendererState,
    image_index: int,
    meshes: Seq<MeshEntry>,
    texts: Seq<GeometrySize>,
    point_light_count: usize,
    r: Result<FrameWork, FrameFailure>,
) -> bool {
    let current = before.render_loop.current_in_flight_frame;
    let a = before.uniform_alignment as nat;
    let sizes = entry_sizes(meshes);
    let size = frame_size(sizes, texts, a);
    &&& after.render_loop.image_frames@ == before.render_loop.image_frames@.update(image_index, Some(current))
    &&& (r is Err <==> size > usize::MAX)
    &&& (r matches Err(f) ==> f == FrameFailure::Frame(FrameError::TooLarge)
        && after.in_flight_frames@ == before.in_flight_frames@
        && after.render_loop.frames_in_flight@ == before.render_loop.frames_in_flight@)
    &&& (r matches Ok(w) ==> w matches FrameWork::Draw(d) && {
        &&& d.in_flight_frame == current
        &&& after.render_loop.frames_in_flight@ == before.render_loop.frames_in_flight@.update(current as int, true)
        &&& d.image_index == image_index
        &&& d.wait_for_frame == before.render_loop.image_frames@[image_index]
        &&& meshes_placed(d.frame.layout.meshes@, FRAME_DATA_SIZE as nat, sizes, a)
        &&& texts_placed(d.frame.layout.texts@, meshes_end(FRAME_DATA_SIZE as nat, sizes, a), texts, a)
        &&& d.frame.layout.size == size
        &&& d.frame.point_lights@.len() == point_light_count
        &&& forall|k: int| 0 <= k < point_light_count ==> #[trigger] point_light_at(d.frame.point_lights@[k], k)
        &&& after.in_flight_frames@ == before.in_flight_frames@.update(
            current as int,
            InFlightFrame { buffer: grown(before.in_flight_frames@[current as int].buffer, size as u64) },
        )
        &&& d.frame.reallocated == (size > before.in_flight_frames@[current as int].buffer.capacity)
        &&& d.frame.descriptor_writes@ == if d.frame.reallocated { frame_descriptor_writes() } else { Seq::empty() }
        &&& d.commands.basic@ == slot_draws(meshes, d.frame.layout.meshes@, before.static_meshes.render_info@, CommandSlot::Basic)
        &&& d.commands.lambert@ == slot_draws(meshes, d.frame.layout.meshes@, before.static_meshes.render_info@, CommandSlot::Lambert)
        &&& d.commands.text@.len() == texts.len()
        &&& forall|k: int| 0 <= k < texts.len() ==> #[trigger] d.commands.text@[k] == text_draw(d.frame.layout.texts@[k], texts[k])
    })
}

} // verus!
