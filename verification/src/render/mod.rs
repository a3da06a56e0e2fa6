pub mod animation;
pub mod buffer;
pub mod material;
pub mod mesh;
pub mod shader_resource;
pub mod texture;
pub mod types;

use vstd::prelude::*;

verus! {

/// Enumeration of different types of transformations.
#[derive(Clone, Copy, Default, Debug, Hash, PartialEq, Eq, Structural)]
pub enum TransformationType {
    /// First person transformation: the rotation applied after the translation.
    #[default]
    FirstPerson,
    /// Look-at transformation: the translation applied after the rotation.
    LookAt,
}

/// What went wrong with a frame, by kind: the errors of the GPU library
/// that some kinds carry stay where they were reported.
#[derive(Debug, Clone, Copy, PartialEq, Eq, Structural)]
pub enum RenderErrorKind {
    /// The swap chain has been lost and needs to be recreated.
    Lost,
    /// There is no memory left to allocate a new frame.
    OutOfMemory,
    /// Acquiring the current texture failed otherwise.
    Surface,
    /// The surface could not be created.
    CreateSurface,
    /// No adapter could be had.
    RequestAdapter,
    /// No device could be had.
    RequestDevice,
    /// The window handle could not be used.
    Handle,
    /// Data larger than a buffer was written to it.
    BufferOverflow,
}

/// What the game loop does after the render systems of a frame ran.
#[derive(Debug, Clone, Copy, PartialEq, Eq, Structural)]
pub enum FrameAction {
    /// Nothing went wrong.
    Continue,
    /// Recreate the swap chain at the current size.
    ResizeSurface,
    /// Give up this frame and go on with the next.
    DropFrame,
    /// Stop: the error cannot be recovered from.
    Abort(RenderErrorKind),
}

/// The action for the error a frame reported, if any: a lost swap chain is
/// recreated, a frame without memory is dropped, anything else stops the
/// game.
pub open spec fn frame_action_for(error: Option<RenderErrorKind>) -> FrameAction {
    match error {
        None => FrameAction::Continue,
        Some(RenderErrorKind::Lost) => FrameAction::ResizeSurface,
        Some(RenderErrorKind::OutOfMemory) => FrameAction::DropFrame,
        Some(e) => FrameAction::Abort(e),
    }
}

/// The frame decision for every kind of error: a lost swap chain and only
/// that is recreated, a frame out of memory and only that is dropped, every
/// other error stops the game with that error, and no error lets the game
/// go on.
pub proof fn lemma_frame_actions(e: RenderErrorKind)
    ensures
        frame_action_for(None) == FrameAction::Continue,
        (frame_action_for(Some(e)) == FrameAction::ResizeSurface) <==> e == RenderErrorKind::Lost,
        (frame_action_for(Some(e)) == FrameAction::DropFrame) <==> e == RenderErrorKind::OutOfMemory,
        e != RenderErrorKind::Lost && e != RenderErrorKind::OutOfMemory ==> frame_action_for(Some(e)) == FrameAction::Abort(e),
        frame_action_for(Some(e)) != FrameAction::Continue,
{
}

/// Drains the error slot after the render systems ran and decides what
/// the game loop does about it.
pub fn drain_render_error(slot: &mut Option<RenderErrorKind>) -> (action: FrameAction)
    ensures
        *final(slot) == None::<RenderErrorKind>,
        action == frame_action_for(*old(slot)),
{
    match slot.take() {
        None => FrameAction::Continue,
        Some(RenderErrorKind::Lost) => FrameAction::ResizeSurface,
        Some(RenderErrorKind::OutOfMemory) => FrameAction::DropFrame,
        Some(e) => FrameAction::Abort(e),
    }
}

/// Whether the surface is reconfigured for a new size: a size with a zero
/// side, as a minimised window has, is ignored.
pub fn accepts_surface_size(width: u32, height: u32) -> (r: bool)
    ensures
        r == (width != 0 && height != 0),
{
    width != 0 && height != 0
}

/// Which of the surface's formats is used, given which of them are sRGB:
/// the first sRGB one, or the first one when none is.
pub fn surface_format_index(is_srgb: &[bool]) -> (i: usize)
    requires
        is_srgb@.len() > 0,
    ensures
        i < is_srgb@.len(),
        is_srgb@[i as int] || i == 0,
        forall|j: int| 0 <= j < i ==> !is_srgb@[j],
        (exists|j: int| 0 <= j < is_srgb@.len() && is_srgb@[j]) ==> is_srgb@[i as int],
{
    let n = is_srgb.len();
    let mut k: usize = 0;
    while k < n
        invariant
            n == is_srgb@.len(),
            k <= n,
            forall|j: int| 0 <= j < k ==> !is_srgb@[j],
        decreases n - k,
    {
        if is_srgb[k] {
            return k;
        }
        k = k + 1;
    }
    0
}

/// A surface that can be rendered to, such as the window's canvas or a
/// texture made for use as a render attachment.
pub trait RenderSurface {
    /// The view rendering writes through.
    fn view(&self) -> &wgpu::TextureView;
}

} // verus!
