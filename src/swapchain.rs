//! The swapchain parameters derived from the surface's capabilities.
use vstd::prelude::*;

verus! {

/// A width and a height in pixels.
#[derive(Clone, Copy, Debug, PartialEq, Eq, Structural)]
pub struct Extent2D {
    pub width: u32,
    pub height: u32,
}

/// What the surface reports of itself.
#[derive(Clone, Copy, Debug, PartialEq, Eq, Structural)]
pub struct SurfaceCapabilities {
    /// The surface's size; a width of `u32::MAX` means the swapchain decides.
    pub current_extent: Extent2D,
    pub min_image_extent: Extent2D,
    pub max_image_extent: Extent2D,
    pub min_image_count: u32,
    /// Zero where the surface sets no maximum.
    pub max_image_count: u32,
}

/// The presentation modes a surface may offer.
#[derive(Clone, Copy, Debug, PartialEq, Eq, Structural)]
pub enum PresentMode {
    Immediate,
    Mailbox,
    Fifo,
    FifoRelaxed,
    Other(i32),
}

/// How the swapchain's images are shared between queue families.
#[derive(Clone, Copy, Debug, PartialEq, Eq, Structural)]
pub enum SharingMode {
    Exclusive,
    Concurrent,
}

/// The parameters a swapchain is created with.
#[derive(Clone, Copy, Debug, PartialEq, Eq, Structural)]
pub struct SwapchainConfig {
    pub present_mode: PresentMode,
    pub extent: Extent2D,
    pub image_count: u32,
    pub sharing_mode: SharingMode,
}

/// The width a surface reports when the swapchain's extent decides its size.
pub const UNDEFINED_EXTENT: u32 = 0xFFFF_FFFF;

/// The format feature bit that marks a format usable as a depth attachment.
pub const DEPTH_STENCIL_ATTACHMENT_FEATURE: u32 = 0x200;

/// The mode to present with: mailbox where offered, else the first offered.
pub open spec fn chosen_present_mode(modes: Seq<PresentMode>) -> PresentMode {
    if modes.contains(PresentMode::Mailbox) {
        PresentMode::Mailbox
    } else {
        modes[0]
    }
}

/// `value` brought into `[low, high]`, the upper bound applied first.
pub open spec fn clamp(value: u32, low: u32, high: u32) -> u32 {
    let capped = if value < high { value } else { high };
    if low > capped { low } else { capped }
}

/// The extent of the swapchain's images for a framebuffer of the given size.
pub open spec fn chosen_extent(caps: SurfaceCapabilities, width: u32, height: u32) -> Extent2D {
    if caps.current_extent.width == UNDEFINED_EXTENT {
        Extent2D {
            width: clamp(width, caps.min_image_extent.width, caps.max_image_extent.width),
            height: clamp(height, caps.min_image_extent.height, caps.max_image_extent.height),
        }
    } else {
        caps.current_extent
    }
}

/// One image more than the surface's minimum, within its maximum if it has one.
pub open spec fn chosen_image_count(caps: SurfaceCapabilities) -> u32 {
    let wanted: int = if caps.min_image_count == u32::MAX {
        caps.min_image_count as int
    } else {
        caps.min_image_count + 1
    };
    if caps.max_image_count > 0 && wanted > caps.max_image_count {
        caps.max_image_count
    } else {
        wanted as u32
    }
}

pub open spec fn chosen_sharing_mode(graphics_family: u32, present_family: u32) -> SharingMode {
    if graphics_family == present_family {
        SharingMode::Exclusive
    } else {
        SharingMode::Concurrent
    }
}

pub fn choose_present_mode(modes: &Vec<PresentMode>) -> (r: PresentMode)
    requires
        modes@.len() > 0,
    ensures
        r == chosen_present_mode(modes@),
{
    let mut i: usize = 0;
    while i < modes.len()
        invariant
            i <= modes@.len(),
            forall|j: int| 0 <= j < i ==> modes@[j] != PresentMode::Mailbox,
        decreases modes@.len() - i,
    {
        if modes[i] == PresentMode::Mailbox {
            proof {
                assert(modes@.contains(PresentMode::Mailbox));
            }
            return PresentMode::Mailbox;
        }
        i = i + 1;
    }
    modes[0]
}

pub fn clamp_dimension(value: u32, low: u32, high: u32) -> (r: u32)
    ensures
        r == clamp(value, low, high),
{
    let capped = if value < high { value } else { high };
    if low > capped { low } else { capped }
}

pub fn choose_extent(caps: &SurfaceCapabilities, framebuffer_width: u32, framebuffer_height: u32) -> (r: Extent2D)
    ensures
        r == chosen_extent(*caps, framebuffer_width, framebuffer_height),
{
    if caps.current_extent.width == UNDEFINED_EXTENT {
        Extent2D {
            width: clamp_dimension(framebuffer_width, caps.min_image_extent.width, caps.max_image_extent.width),
            height: clamp_dimension(framebuffer_height, caps.min_image_extent.height, caps.max_image_extent.height),
        }
    } else {
        caps.current_extent
    }
}

pub fn choose_image_count(caps: &SurfaceCapabilities) -> (r: u32)
    ensures
        r == chosen_image_count(*caps),
{
    let wanted = caps.min_image_count.saturating_add(1);
    if caps.max_image_count > 0 && wanted > caps.max_image_count {
        caps.max_image_count
    } else {
        wanted
    }
}

pub fn choose_sharing_mode(graphics_family: u32, present_family: u32) -> (r: SharingMode)
    ensures
        r == chosen_sharing_mode(graphics_family, present_family),
{
    if graphics_family == present_family {
        SharingMode::Exclusive
    } else {
        SharingMode::Concurrent
    }
}

/// Whether a format with these optimal-tiling features can hold the depth buffer.
pub fn depth_format_supported(optimal_tiling_features: u32) -> (r: bool)
    ensures
        r == (optimal_tiling_features & DEPTH_STENCIL_ATTACHMENT_FEATURE == DEPTH_STENCIL_ATTACHMENT_FEATURE),
{
    optimal_tiling_features & DEPTH_STENCIL_ATTACHMENT_FEATURE == DEPTH_STENCIL_ATTACHMENT_FEATURE
}

/// Derives the swapchain's parameters from the surface, for a framebuffer
/// of the given size.
pub fn configure_swapchain(
    caps: &SurfaceCapabilities,
    present_modes: &Vec<PresentMode>,
    framebuffer_width: u32,
    framebuffer_height: u32,
    graphics_family: u32,
    present_family: u32,
) -> (r: SwapchainConfig)
    requires
        present_modes@.len() > 0,
    ensures
        r.present_mode == chosen_present_mode(present_modes@),
        r.extent == chosen_extent(*caps, framebuffer_width, framebuffer_height),
        r.image_count == chosen_image_count(*caps),
        r.sharing_mode == chosen_sharing_mode(graphics_family, present_family),
{
    SwapchainConfig {
        present_mode: choose_present_mode(present_modes),
        extent: choose_extent(caps, framebuffer_width, framebuffer_height),
        image_count: choose_image_count(caps),
        sharing_mode: choose_sharing_mode(graphics_family, present_family),
    }
}

} // verus!
