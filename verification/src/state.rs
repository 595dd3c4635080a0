//! Renderer bookkeeping that does not touch the GPU: the configured size of
//! the drawing surface, the choice of its colour format, what to do with each
//! outcome of acquiring a frame, and which key ends the program.
use vstd::prelude::*;

verus! {

#[verifier::external_type_specification]
#[verifier::external_body]
pub struct ExTextureFormat(wgpu::TextureFormat);

/// Whether a texture format stores colour with the sRGB transfer function, as
/// `wgpu::TextureFormat::is_srgb` answers it.
pub uninterp spec fn format_is_srgb(format: wgpu::TextureFormat) -> bool;

/// Calls `wgpu::TextureFormat::is_srgb`, which compares the format with
/// itself stripped of any sRGB suffix; its answer depends on the format
/// alone, and is named `format_is_srgb`.
#[verifier::external_body]
fn texture_format_is_srgb(format: &wgpu::TextureFormat) -> (b: bool)
    ensures
        b == format_is_srgb(*format),
{
    format.is_srgb()
}

/// Index of the surface format to use, given for each offered format whether
/// it is sRGB: the first sRGB one, or the first one when none is.
pub fn first_srgb_index(srgb: &Vec<bool>) -> (i: usize)
    requires
        srgb@.len() > 0,
    ensures
        i < srgb@.len(),
        forall|j: int| 0 <= j < i ==> !#[trigger] srgb@[j],
        srgb@[i as int] || i == 0,
        (exists|j: int| 0 <= j < srgb@.len() && #[trigger] srgb@[j]) ==> srgb@[i as int],
{
    let mut i: usize = 0;
    while i < srgb.len()
        invariant
            i <= srgb@.len(),
            forall|j: int| 0 <= j < i ==> !#[trigger] srgb@[j],
        decreases srgb@.len() - i,
    {
        if srgb[i] {
            return i;
        }
        i = i + 1;
    }
    0
}

/// The colour format for the surface among those it offers: the first sRGB
/// format, or the first format when none is sRGB.
pub fn pick_surface_format(formats: &Vec<wgpu::TextureFormat>) -> (format: wgpu::TextureFormat)
    requires
        formats@.len() > 0,
    ensures
        exists|i: int|
            0 <= i < formats@.len() && format == formats@[i] && (forall|j: int|
                0 <= j < i ==> !format_is_srgb(#[trigger] formats@[j])) && (format_is_srgb(
                formats@[i],
            ) || (i == 0 && forall|j: int|
                0 <= j < formats@.len() ==> !format_is_srgb(#[trigger] formats@[j]))),
{
    let mut srgb: Vec<bool> = Vec::new();
    let mut i: usize = 0;
    while i < formats.len()
        invariant
            i <= formats@.len(),
            srgb@.len() == i,
            forall|k: int| 0 <= k < i ==> #[trigger] srgb@[k] == format_is_srgb(formats@[k]),
        decreases formats@.len() - i,
    {
        srgb.push(texture_format_is_srgb(&formats[i]));
        i = i + 1;
    }
    let chosen = first_srgb_index(&srgb);
    proof {
        assert forall|j: int| 0 <= j < chosen implies !format_is_srgb(#[trigger] formats@[j]) by {
            assert(!srgb@[j]);
        }
        if !srgb@[chosen as int] {
            assert forall|j: int| 0 <= j < formats@.len() implies !format_is_srgb(
                #[trigger] formats@[j],
            ) by {
                if srgb@[j] {
                    assert(exists|k: int| 0 <= k < srgb@.len() && #[trigger] srgb@[k]);
                }
            }
        }
    }
    formats[chosen]
}

/// What the renderer knows of its drawing surface.
pub struct SurfaceView {
    pub width: u32,
    pub height: u32,
    pub configured: bool,
}

/// The configured size of the drawing surface and whether it is configured.
pub struct SurfaceState {
    width: u32,
    height: u32,
    configured: bool,
}

impl View for SurfaceState {
    type V = SurfaceView;

    closed spec fn view(&self) -> SurfaceView {
        SurfaceView { width: self.width, height: self.height, configured: self.configured }
    }
}

impl SurfaceState {
    /// The surface as first configured, at the window's size.
    pub fn new(width: u32, height: u32) -> (s: SurfaceState)
        ensures
            s@ == (SurfaceView { width, height, configured: true }),
    {
        SurfaceState { width, height, configured: true }
    }

    /// Takes a new window size. A size with a zero side is ignored; any other
    /// becomes the surface's size, and the surface must then be configured
    /// again (the result says so).
    pub fn resize(&mut self, width: u32, height: u32) -> (reconfigure: bool)
        ensures
            reconfigure == (width > 0 && height > 0),
            reconfigure ==> final(self)@ == (SurfaceView { width, height, configured: true }),
            !reconfigure ==> final(self)@ == old(self)@,
    {
        if width > 0 && height > 0 {
            self.width = width;
            self.height = height;
            self.configured = true;
            true
        } else {
            false
        }
    }

    /// Configured width in pixels.
    pub fn width(&self) -> (w: u32)
        ensures
            w == self@.width,
    {
        self.width
    }

    /// Configured height in pixels.
    pub fn height(&self) -> (h: u32)
        ensures
            h == self@.height,
    {
        self.height
    }

    /// Whether a frame may be drawn: only a configured surface is drawn on.
    pub fn is_configured(&self) -> (b: bool)
        ensures
            b == self@.configured,
    {
        self.configured
    }
}

/// The outcome of asking the surface for the next frame's texture.
pub enum SurfaceOutcome {
    Success,
    Suboptimal,
    Timeout,
    Occluded,
    Outdated,
    Lost,
    Validation,
}

/// What the renderer does with the frame it asked for.
pub enum FrameStep {
    /// Draw into the texture and present it.
    Draw,
    /// Drop the texture, configure the surface again and draw nothing.
    Reconfigure,
    /// Draw nothing this time.
    Skip,
}

/// Why a frame could not be rendered.
pub enum RenderError {
    /// The surface was lost.
    DeviceLost,
}

impl RenderError {
    /// The message that reports the error.
    pub fn message(&self) -> (m: &'static str)
        ensures
            m@ == "Device Lost"@,
    {
        match self {
            RenderError::DeviceLost => "Device Lost",
        }
    }
}

/// What answers each outcome of acquiring a frame: a fresh texture is drawn;
/// a suboptimal or outdated one means configuring again; a timeout, an
/// occluded window or a validation error skip the frame; a lost surface is an
/// error.
pub fn frame_step(outcome: SurfaceOutcome) -> (r: Result<FrameStep, RenderError>)
    ensures
        r == (match outcome {
            SurfaceOutcome::Success => Ok(FrameStep::Draw),
            SurfaceOutcome::Suboptimal | SurfaceOutcome::Outdated => Ok(FrameStep::Reconfigure),
            SurfaceOutcome::Timeout | SurfaceOutcome::Occluded | SurfaceOutcome::Validation => Ok(
                FrameStep::Skip,
            ),
            SurfaceOutcome::Lost => Err(RenderError::DeviceLost),
        }),
{
    match outcome {
        SurfaceOutcome::Success => Ok(FrameStep::Draw),
        SurfaceOutcome::Suboptimal | SurfaceOutcome::Outdated => Ok(FrameStep::Reconfigure),
        SurfaceOutcome::Timeout | SurfaceOutcome::Occluded | SurfaceOutcome::Validation => Ok(
            FrameStep::Skip,
        ),
        SurfaceOutcome::Lost => Err(RenderError::DeviceLost),
    }
}

/// The keys the renderer tells apart.
pub enum KeyKind {
    Escape,
    Other,
}

/// Whether a key event ends the program: pressing Escape does.
pub fn exit_requested(key: KeyKind, pressed: bool) -> (exit: bool)
    ensures
        exit == (key is Escape && pressed),
{
    match key {
        KeyKind::Escape => pressed,
        KeyKind::Other => false,
    }
}

} // verus!
