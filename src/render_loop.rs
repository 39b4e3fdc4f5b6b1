//! The decisions of the render loop around the presentation engine: which
//! in-flight frame is used, which fence guards a swapchain image, and when
//! the swapchain has to be rebuilt.
//!
//! The caller performs each step (wait on a fence, acquire an image, submit,
//! present) and hands its outcome back; the loop says what comes next.
use vstd::prelude::*;
use crate::frame::IN_FLIGHT_FRAMES_COUNT;

verus! {

/// The outcome of acquiring the next swapchain image.
#[derive(Clone, Copy, Debug, PartialEq, Eq, Structural)]
pub enum AcquireResult {
    Acquired { image_index: u32, suboptimal: bool },
    OutOfDate,
    Failed(i32),
}

/// The outcome of presenting an image.
#[derive(Clone, Copy, Debug, PartialEq, Eq, Structural)]
pub enum PresentResult {
    Presented { suboptimal: bool },
    OutOfDate,
    Failed(i32),
}

/// What to do after an image was asked for.
#[derive(Clone, Copy, Debug, PartialEq, Eq, Structural)]
pub enum AcquireAction {
    /// Pack, record and submit the frame into `image_index`, once the
    /// in-flight frame that last rendered into that image (if any) is done.
    Render { image_index: usize, wait_for_frame: Option<usize> },
    /// Skip this frame without submitting anything and rebuild the swapchain.
    Rebuild,
}

/// A failure of the presentation engine that the renderer cannot recover from.
#[derive(Clone, Copy, Debug, PartialEq, Eq, Structural)]
pub enum RenderError {
    Acquire(i32),
    Present(i32),
    ImageIndexOutOfRange,
    /// The current in-flight frame was submitted and its fence has not been
    /// observed signaled since: its resources may still be read by the device.
    FrameInFlight,
}

/// The render loop's state: the in-flight frame in use, for each swapchain
/// image the in-flight frame that last rendered into it, for each in-flight
/// frame whether it was submitted and its fence not yet observed signaled,
/// and whether fonts were added or removed since they were last submitted.
#[derive(Debug)]
pub struct RenderLoop {
    pub current_in_flight_frame: usize,
    pub image_frames: Vec<Option<usize>>,
    pub frames_in_flight: Vec<bool>,
    pub submit_fonts: bool,
}

impl RenderLoop {
    pub open spec fn wf(&self) -> bool {
        &&& self.current_in_flight_frame < IN_FLIGHT_FRAMES_COUNT
        &&& self.frames_in_flight@.len() == IN_FLIGHT_FRAMES_COUNT
        &&& forall|i: int|
            0 <= i < self.image_frames@.len() ==> (#[trigger] self.image_frames@[i] matches Some(f)
                ==> f < IN_FLIGHT_FRAMES_COUNT)
    }

    /// A loop on the first in-flight frame, for a swapchain of `image_count`
    /// images none of which has been rendered into.
    pub fn new(image_count: usize) -> (r: Self)
        ensures
            r.wf(),
            r.current_in_flight_frame == 0,
            r.image_frames@ == Seq::new(image_count as nat, |i: int| None::<usize>),
            r.frames_in_flight@ == seq![false, false],
            !r.submit_fonts,
    {
        let frames_in_flight = vec![false, false];
        assert(frames_in_flight@ =~= seq![false, false]);
        RenderLoop {
            current_in_flight_frame: 0,
            image_frames: no_frames(image_count),
            frames_in_flight,
            submit_fonts: false,
        }
    }

    /// Notes that a font was added or removed.
    pub fn fonts_changed(&mut self)
        ensures
            final(self).submit_fonts,
            final(self).current_in_flight_frame == old(self).current_in_flight_frame,
            final(self).image_frames@ == old(self).image_frames@,
            final(self).frames_in_flight@ == old(self).frames_in_flight@,
    {
        self.submit_fonts = true;
    }

    /// Whether the fonts have to be submitted before this frame; they are
    /// then considered submitted.
    pub fn take_font_submission(&mut self) -> (r: bool)
        ensures
            r == old(self).submit_fonts,
            !final(self).submit_fonts,
            final(self).current_in_flight_frame == old(self).current_in_flight_frame,
            final(self).image_frames@ == old(self).image_frames@,
            final(self).frames_in_flight@ == old(self).frames_in_flight@,
    {
        let r = self.submit_fonts;
        self.submit_fonts = false;
        r
    }

    /// Decides on the outcome of acquiring an image for the current
    /// in-flight frame. A frame whose fence was not observed since its last
    /// submission is refused; an out-of-date swapchain skips the frame; an
    /// acquired image is claimed by the current in-flight frame, and the
    /// frame that held it before must be waited for.
    pub fn on_acquire(&mut self, result: AcquireResult) -> (r: Result<AcquireAction, RenderError>)
        requires
            old(self).wf(),
        ensures
            final(self).wf(),
            final(self).current_in_flight_frame == old(self).current_in_flight_frame,
            final(self).submit_fonts == old(self).submit_fonts,
            final(self).frames_in_flight@ == old(self).frames_in_flight@,
            old(self).frames_in_flight@[old(self).current_in_flight_frame as int] ==> r
                == Err::<AcquireAction, RenderError>(RenderError::FrameInFlight)
                && final(self).image_frames@ == old(self).image_frames@,
            !old(self).frames_in_flight@[old(self).current_in_flight_frame as int] ==> match result {
                AcquireResult::OutOfDate => r == Ok::<AcquireAction, RenderError>(AcquireAction::Rebuild)
                    && final(self).image_frames@ == old(self).image_frames@,
                AcquireResult::Failed(code) => r == Err::<AcquireAction, RenderError>(RenderError::Acquire(code))
                    && final(self).image_frames@ == old(self).image_frames@,
                AcquireResult::Acquired { image_index, suboptimal } => if image_index < old(self).image_frames@.len() {
                    &&& r == Ok::<AcquireAction, RenderError>(AcquireAction::Render {
                        image_index: image_index as usize,
                        wait_for_frame: old(self).image_frames@[image_index as int],
                    })
                    &&& final(self).image_frames@ == old(self).image_frames@.update(
                        image_index as int,
                        Some(old(self).current_in_flight_frame),
                    )
                } else {
                    r == Err::<AcquireAction, RenderError>(RenderError::ImageIndexOutOfRange)
                        && final(self).image_frames@ == old(self).image_frames@
                },
            },
    {
        if self.frames_in_flight[self.current_in_flight_frame] {
            return Err(RenderError::FrameInFlight);
        }
        match result {
            AcquireResult::OutOfDate => Ok(AcquireAction::Rebuild),
            AcquireResult::Failed(code) => Err(RenderError::Acquire(code)),
            AcquireResult::Acquired { image_index, suboptimal: _ } => {
                let index = image_index as usize;
                if index < self.image_frames.len() {
                    let wait_for_frame = self.image_frames[index];
                    self.image_frames.set(index, Some(self.current_in_flight_frame));
                    Ok(AcquireAction::Render { image_index: index, wait_for_frame })
                } else {
                    Err(RenderError::ImageIndexOutOfRange)
                }
            },
        }
    }

    /// Decides on the outcome of presenting: whether the surface changed and
    /// the swapchain has to be rebuilt before the next frame. The next frame
    /// uses the next in-flight frame.
    pub fn on_present(&mut self, result: PresentResult) -> (r: Result<bool, RenderError>)
        requires
            old(self).wf(),
        ensures
            final(self).wf(),
            final(self).image_frames@ == old(self).image_frames@,
            final(self).frames_in_flight@ == old(self).frames_in_flight@,
            final(self).submit_fonts == old(self).submit_fonts,
            match result {
                PresentResult::Presented { suboptimal } => r == Ok::<bool, RenderError>(suboptimal),
                PresentResult::OutOfDate => r == Ok::<bool, RenderError>(true),
                PresentResult::Failed(code) => r == Err::<bool, RenderError>(RenderError::Present(code)),
            },
            r is Ok ==> final(self).current_in_flight_frame == (old(self).current_in_flight_frame + 1)
                % IN_FLIGHT_FRAMES_COUNT as int,
            r is Err ==> final(self).current_in_flight_frame == old(self).current_in_flight_frame,
    {
        let surface_changed = match result {
            PresentResult::Presented { suboptimal } => suboptimal,
            PresentResult::OutOfDate => true,
            PresentResult::Failed(code) => return Err(RenderError::Present(code)),
        };
        self.current_in_flight_frame = (self.current_in_flight_frame + 1) % IN_FLIGHT_FRAMES_COUNT;
        Ok(surface_changed)
    }

    /// Forgets every image of the old swapchain after it was rebuilt with
    /// `image_count` images.
    pub fn on_swapchain_rebuilt(&mut self, image_count: usize)
        requires
            old(self).wf(),
        ensures
            final(self).wf(),
            final(self).current_in_flight_frame == old(self).current_in_flight_frame,
            final(self).submit_fonts == old(self).submit_fonts,
            final(self).frames_in_flight@ == old(self).frames_in_flight@,
            final(self).image_frames@ == Seq::new(image_count as nat, |i: int| None::<usize>),
    {
        self.image_frames = no_frames(image_count);
    }

    /// Notes that the current in-flight frame was submitted: its resources
    /// belong to the device until its fence is observed signaled.
    pub fn mark_submitted(&mut self)
        requires
            old(self).wf(),
        ensures
            final(self).wf(),
            final(self).current_in_flight_frame == old(self).current_in_flight_frame,
            final(self).image_frames@ == old(self).image_frames@,
            final(self).submit_fonts == old(self).submit_fonts,
            final(self).frames_in_flight@ == old(self).frames_in_flight@.update(
                old(self).current_in_flight_frame as int,
                true,
            ),
    {
        self.frames_in_flight.set(self.current_in_flight_frame, true);
    }

    /// Notes that the current in-flight frame's fence was observed signaled:
    /// the device is done with its resources.
    pub fn fence_signaled(&mut self)
        requires
            old(self).wf(),
        ensures
            final(self).wf(),
            final(self).current_in_flight_frame == old(self).current_in_flight_frame,
            final(self).image_frames@ == old(self).image_frames@,
            final(self).submit_fonts == old(self).submit_fonts,
            final(self).frames_in_flight@ == old(self).frames_in_flight@.update(
                old(self).current_in_flight_frame as int,
                false,
            ),
    {
        self.frames_in_flight.set(self.current_in_flight_frame, false);
    }
}

/// `count` images none of which has been rendered into.
fn no_frames(count: usize) -> (r: Vec<Option<usize>>)
    ensures
        r@ == Seq::new(count as nat, |i: int| None::<usize>),
{
    let mut r: Vec<Option<usize>> = Vec::new();
    let mut i: usize = 0;
    while i < count
        invariant
            i <= count,
            r@ == Seq::new(i as nat, |j: int| None::<usize>),
        decreases count - i,
    {
        r.push(None);
        i = i + 1;
        assert(r@ =~= Seq::new(i as nat, |j: int| None::<usize>));
    }
    r
}

} // verus!
