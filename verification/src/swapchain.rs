//! Swapchain negotiation and lifecycle: selecting a surface format, image
//! count, resolution, pre-transform and present mode from what the display
//! surface reports, mapping driver acquire results to caller-visible
//! variants, and tracking the Live / Invalidated / Destroyed phases of the
//! presentation ring.
//!
//! The driver itself is an external collaborator: callers query it, hand its
//! plain reported values to the functions here, and carry the decisions back
//! to it.

use vstd::prelude::*;

verus! {

/// Format code of a surface that reports no preference.
pub const FORMAT_UNDEFINED: u32 = 0;

/// The fallback color format selected when the surface reports an undefined
/// format, in the driver's raw format coding.
pub const FORMAT_B8G8R8_UNORM: u32 = 30;

/// Identity bit of the surface transform flags.
pub const TRANSFORM_IDENTITY: u32 = 1;

/// Width a surface reports when its extent is undefined and the swapchain
/// must pick one.
pub const EXTENT_UNDEFINED: u32 = 0xffff_ffff;

/// Driver result code: the operation succeeded.
pub const RESULT_SUCCESS: i32 = 0;

/// Driver result code: the image was acquired but the swapchain no longer
/// matches the surface optimally.
pub const RESULT_SUBOPTIMAL: i32 = 1000001003;

/// Driver result code: the surface changed and the swapchain is out of date.
pub const RESULT_ERROR_OUT_OF_DATE: i32 = -1000001004;

/// A display surface size in pixels.
#[derive(Copy, Clone, Debug, Hash, Eq, PartialEq, Structural)]
pub struct Resolution {
    pub width: u32,
    pub height: u32,
}

/// A color format paired with the color space the surface reported it in.
#[derive(Copy, Clone, Debug, Hash, Eq, PartialEq, Structural)]
pub struct SurfaceFormat {
    pub format: u32,
    pub color_space: u32,
}

/// The display synchronization policy.
#[derive(Copy, Clone, Debug, Hash, Eq, PartialEq, Structural)]
pub enum PresentMode {
    Immediate,
    Mailbox,
    Fifo,
    FifoRelaxed,
}

/// What the surface reports about itself before swapchain creation.
#[derive(Copy, Clone, Debug, Hash, Eq, PartialEq, Structural)]
pub struct SurfaceCapabilities {
    pub min_image_count: u32,
    pub max_image_count: u32,
    pub current_extent: Resolution,
    pub supported_transforms: u32,
    pub current_transform: u32,
}

/// Acquire failures a caller is expected to handle: `OutOfDate` demands a
/// `recreate`, `Suboptimal` may be tolerated, `Unknown` is an unclassified
/// driver error treated as a hard failure.
#[derive(Copy, Clone, Debug, Hash, Eq, PartialEq, Structural)]
pub enum SwapchainError {
    OutOfDate,
    Suboptimal,
    Unknown,
}

/// Lifecycle phase of the presentation ring.
#[derive(Copy, Clone, Debug, Hash, Eq, PartialEq, Structural)]
pub enum SwapchainPhase {
    Live,
    Invalidated,
    Destroyed,
}

/// Everything creation negotiated against the surface.
#[derive(Copy, Clone, Debug, Hash, Eq, PartialEq, Structural)]
pub struct SwapchainConfig {
    pub format: SurfaceFormat,
    pub image_count: u32,
    pub resolution: Resolution,
    pub pre_transform: u32,
    pub present_mode: PresentMode,
}

/// The first reported format, with the documented fallback substituted (and
/// the reported color space preserved) when the surface leaves the format
/// undefined.
pub open spec fn spec_surface_format(first: SurfaceFormat) -> SurfaceFormat {
    if first.format == FORMAT_UNDEFINED {
        SurfaceFormat { format: FORMAT_B8G8R8_UNORM, color_space: first.color_space }
    } else {
        first
    }
}

/// One more image than the surface's minimum, clamped to its maximum when
/// that maximum is bounded (nonzero).
pub open spec fn spec_image_count(caps: SurfaceCapabilities) -> int {
    let desired = caps.min_image_count + 1;
    if caps.max_image_count > 0 && desired > caps.max_image_count {
        caps.max_image_count as int
    } else {
        desired
    }
}

/// The surface's current extent, unless it reports an undefined one, in
/// which case the caller-provided fallback is used.
pub open spec fn spec_resolution(caps: SurfaceCapabilities, fallback: Resolution) -> Resolution {
    if caps.current_extent.width == EXTENT_UNDEFINED {
        fallback
    } else {
        caps.current_extent
    }
}

/// The identity transform when the surface supports it, else whatever the
/// surface currently applies.
pub open spec fn spec_pre_transform(caps: SurfaceCapabilities) -> u32 {
    if caps.supported_transforms & TRANSFORM_IDENTITY == TRANSFORM_IDENTITY {
        TRANSFORM_IDENTITY
    } else {
        caps.current_transform
    }
}

/// The low-latency triple-buffer mode when offered, else the
/// guaranteed-available vertical-sync mode.
pub open spec fn spec_present_mode(modes: Seq<PresentMode>) -> PresentMode {
    if modes.contains(PresentMode::Mailbox) {
        PresentMode::Mailbox
    } else {
        PresentMode::Fifo
    }
}

/// The whole negotiated configuration, given the surface's first reported
/// format, its capabilities, its present modes and the fallback resolution.
pub open spec fn spec_config(
    caps: SurfaceCapabilities,
    first_format: SurfaceFormat,
    modes: Seq<PresentMode>,
    fallback: Resolution,
) -> SwapchainConfig {
    SwapchainConfig {
        format: spec_surface_format(first_format),
        image_count: spec_image_count(caps) as u32,
        resolution: spec_resolution(caps, fallback),
        pre_transform: spec_pre_transform(caps),
        present_mode: spec_present_mode(modes),
    }
}

/// How a driver acquire response reaches the caller: success carries the
/// image index; "out of date" and "suboptimal" are distinguished variants;
/// every other code is an unclassified error.
pub open spec fn spec_map_acquire(code: i32, index: u32) -> Result<u32, SwapchainError> {
    if code == RESULT_SUCCESS {
        Ok(index)
    } else if code == RESULT_ERROR_OUT_OF_DATE {
        Err(SwapchainError::OutOfDate)
    } else if code == RESULT_SUBOPTIMAL {
        Err(SwapchainError::Suboptimal)
    } else {
        Err(SwapchainError::Unknown)
    }
}

/// Picks the surface format: the first one reported, with the documented
/// fallback (preserving color space) when the surface reports an undefined
/// format. A surface reporting no formats at all yields `None`.
pub fn select_surface_format(formats: &Vec<SurfaceFormat>) -> (r: Option<SurfaceFormat>)
    ensures
        r is Some <==> formats@.len() > 0,
        formats@.len() > 0 ==> r == Some(spec_surface_format(formats@[0])),
{
    if formats.len() == 0 {
        None
    } else {
        let f = formats[0];
        if f.format == FORMAT_UNDEFINED {
            Some(SurfaceFormat { format: FORMAT_B8G8R8_UNORM, color_space: f.color_space })
        } else {
            Some(f)
        }
    }
}

/// Negotiates the image count: `min_image_count + 1`, clamped to the
/// surface's maximum when that maximum is bounded.
pub fn negotiate_image_count(caps: &SurfaceCapabilities) -> (n: u32)
    requires
        caps.min_image_count < u32::MAX,
    ensures
        n as int == spec_image_count(*caps),
{
    let mut desired = caps.min_image_count + 1;
    if caps.max_image_count > 0 && desired > caps.max_image_count {
        desired = caps.max_image_count;
    }
    desired
}

/// Negotiates the resolution: the surface's current extent, or the fallback
/// when the surface reports an undefined extent.
pub fn select_resolution(caps: &SurfaceCapabilities, fallback: Resolution) -> (r: Resolution)
    ensures
        r == spec_resolution(*caps, fallback),
{
    if caps.current_extent.width == EXTENT_UNDEFINED {
        fallback
    } else {
        caps.current_extent
    }
}

/// Negotiates the pre-transform, preferring identity when supported.
pub fn select_pre_transform(caps: &SurfaceCapabilities) -> (t: u32)
    ensures
        t == spec_pre_transform(*caps),
{
    if caps.supported_transforms & TRANSFORM_IDENTITY == TRANSFORM_IDENTITY {
        TRANSFORM_IDENTITY
    } else {
        caps.current_transform
    }
}

/// Negotiates the present mode: the low-latency triple-buffer mode when the
/// surface offers it, else the always-available vertical-sync mode.
pub fn select_present_mode(modes: &Vec<PresentMode>) -> (m: PresentMode)
    ensures
        m == spec_present_mode(modes@),
{
    let mut i: usize = 0;
    while i < modes.len()
        invariant
            i <= modes@.len(),
            forall|j: int| 0 <= j < i ==> modes@[j] != PresentMode::Mailbox,
        decreases modes@.len() - i,
    {
        if modes[i] == PresentMode::Mailbox {
            return PresentMode::Mailbox;
        }
        i = i + 1;
    }
    proof {
        assert(!modes@.contains(PresentMode::Mailbox));
    }
    PresentMode::Fifo
}

/// Runs the whole negotiation. `None` exactly when the surface reports no
/// format at all.
pub fn negotiate_config(
    caps: &SurfaceCapabilities,
    formats: &Vec<SurfaceFormat>,
    modes: &Vec<PresentMode>,
    fallback: Resolution,
) -> (r: Option<SwapchainConfig>)
    requires
        caps.min_image_count < u32::MAX,
    ensures
        r is Some <==> formats@.len() > 0,
        formats@.len() > 0 ==> r == Some(spec_config(*caps, formats@[0], modes@, fallback)),
{
    let format = match select_surface_format(formats) {
        Some(f) => f,
        None => {
            return None;
        },
    };
    Some(
        SwapchainConfig {
            format,
            image_count: negotiate_image_count(caps),
            resolution: select_resolution(caps, fallback),
            pre_transform: select_pre_transform(caps),
            present_mode: select_present_mode(modes),
        },
    )
}

/// Maps one driver acquire response to the caller-visible result: success
/// carries the acquired image index, "out of date" and "suboptimal" map to
/// their own variants, and any other code maps to `Unknown`.
pub fn map_acquire_result(code: i32, index: u32) -> (r: Result<u32, SwapchainError>)
    ensures
        r == spec_map_acquire(code, index),
{
    if code == RESULT_SUCCESS {
        Ok(index)
    } else if code == RESULT_ERROR_OUT_OF_DATE {
        Err(SwapchainError::OutOfDate)
    } else if code == RESULT_SUBOPTIMAL {
        Err(SwapchainError::Suboptimal)
    } else {
        Err(SwapchainError::Unknown)
    }
}

/// The presentation ring's negotiated configuration and lifecycle phase.
/// Driver calls happen outside; this tracks what was decided and which
/// operations are legal.
pub struct Swapchain {
    pub config: SwapchainConfig,
    pub phase: SwapchainPhase,
}

impl Swapchain {
    /// Negotiates against the surface and enters the Live phase. `None`
    /// exactly when the surface reports no format.
    pub fn create(
        caps: &SurfaceCapabilities,
        formats: &Vec<SurfaceFormat>,
        modes: &Vec<PresentMode>,
        fallback: Resolution,
    ) -> (r: Option<Swapchain>)
        requires
            caps.min_image_count < u32::MAX,
        ensures
            r is Some <==> formats@.len() > 0,
            formats@.len() > 0 ==> r == Some(
                Swapchain {
                    config: spec_config(*caps, formats@[0], modes@, fallback),
                    phase: SwapchainPhase::Live,
                },
            ),
    {
        match negotiate_config(caps, formats, modes, fallback) {
            Some(config) => Some(Swapchain { config, phase: SwapchainPhase::Live }),
            None => None,
        }
    }

    /// Records the driver's response to an acquire request made while Live:
    /// the mapped result reaches the caller, and an out-of-date response
    /// invalidates the ring (the caller is expected to `recreate`).
    pub fn acquire_next_image(&mut self, code: i32, index: u32) -> (r: Result<
        u32,
        SwapchainError,
    >)
        requires
            old(self).phase is Live,
        ensures
            r == spec_map_acquire(code, index),
            final(self).config == old(self).config,
            code == RESULT_ERROR_OUT_OF_DATE ==> final(self).phase is Invalidated,
            code != RESULT_ERROR_OUT_OF_DATE ==> final(self).phase is Live,
    {
        if code == RESULT_ERROR_OUT_OF_DATE {
            self.phase = SwapchainPhase::Invalidated;
        }
        map_acquire_result(code, index)
    }

    /// Whether a present submission for `index` is legal now: the ring must
    /// be Live and the index must name one of its images.
    pub fn can_present(&self, index: u32) -> (ok: bool)
        ensures
            ok <==> (self.phase is Live && index < self.config.image_count),
    {
        match self.phase {
            SwapchainPhase::Live => index < self.config.image_count,
            _ => false,
        }
    }

    /// Records an external invalidation signal (a resize, a surface change).
    pub fn invalidate(&mut self)
        requires
            !(old(self).phase is Destroyed),
        ensures
            final(self).config == old(self).config,
            final(self).phase is Invalidated,
    {
        self.phase = SwapchainPhase::Invalidated;
    }

    /// Renegotiates everything in place against the surface's current state
    /// and returns to Live; on a surface reporting no format the rebuild is
    /// refused and the state is left untouched.
    pub fn recreate(
        &mut self,
        caps: &SurfaceCapabilities,
        formats: &Vec<SurfaceFormat>,
        modes: &Vec<PresentMode>,
        fallback: Resolution,
    ) -> (ok: bool)
        requires
            !(old(self).phase is Destroyed),
            caps.min_image_count < u32::MAX,
        ensures
            ok <==> formats@.len() > 0,
            ok ==> final(self).phase is Live && final(self).config == spec_config(
                *caps,
                formats@[0],
                modes@,
                fallback,
            ),
            !ok ==> *final(self) == *old(self),
    {
        match negotiate_config(caps, formats, modes, fallback) {
            Some(config) => {
                self.config = config;
                self.phase = SwapchainPhase::Live;
                true
            },
            None => false,
        }
    }

    /// Releases the presentation object: legal at most once, after which no
    /// further operation is.
    pub fn destroy(&mut self)
        requires
            !(old(self).phase is Destroyed),
        ensures
            final(self).config == old(self).config,
            final(self).phase is Destroyed,
    {
        self.phase = SwapchainPhase::Destroyed;
    }

    /// The negotiated resolution.
    pub fn resolution(&self) -> (r: Resolution)
        ensures
            r == self.config.resolution,
    {
        self.config.resolution
    }

    /// The negotiated number of presentable images.
    pub fn image_count(&self) -> (n: u32)
        ensures
            n == self.config.image_count,
    {
        self.config.image_count
    }
}

} // verus!
