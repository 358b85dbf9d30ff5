//! Decisions taken while window, context and surface are set up: the size of
//! the framebuffer and the order in which context APIs are tried.

use vstd::prelude::*;

verus! {

/// Framebuffer width used when the window is invisible.
pub const HEADLESS_WIDTH: u32 = 800;

/// Framebuffer height used when the window is invisible.
pub const HEADLESS_HEIGHT: u32 = 600;

/// A size in pixels.
#[derive(Clone, Copy, Debug, PartialEq, Eq)]
pub struct SurfaceSize {
    pub width: u32,
    pub height: u32,
}

impl SurfaceSize {
    /// Whether a surface of this size can be created: no side is zero.
    pub open spec fn is_drawable(self) -> bool {
        self.width > 0 && self.height > 0
    }
}

/// The framebuffer for a window of size `window`.  An invisible window
/// reports no meaningful size and always gets the fixed headless size; a
/// visible one gets its own size, and none at all where a side is zero.
pub open spec fn framebuffer_for(visible: bool, window: SurfaceSize) -> Option<SurfaceSize> {
    if !visible {
        Some(SurfaceSize { width: HEADLESS_WIDTH, height: HEADLESS_HEIGHT })
    } else if window.is_drawable() {
        Some(window)
    } else {
        None
    }
}

/// Chooses the framebuffer size for a new surface, given the window's
/// visibility and the size it reports.  `None` means that no surface can be
/// created for this window.
pub fn framebuffer_size(visible: bool, window: SurfaceSize) -> (size: Option<SurfaceSize>)
    ensures
        size == framebuffer_for(visible, window),
{
    if !visible {
        Some(SurfaceSize { width: HEADLESS_WIDTH, height: HEADLESS_HEIGHT })
    } else if window.width > 0 && window.height > 0 {
        Some(window)
    } else {
        None
    }
}

/// Whatever the window, the chosen framebuffer can be created.
pub proof fn lemma_framebuffer_is_drawable(visible: bool, window: SurfaceSize)
    ensures
        framebuffer_for(visible, window) matches Some(size) ==> size.is_drawable(),
        framebuffer_for(visible, window) is None <==> visible && !window.is_drawable(),
{
}

/// A graphics API to ask a rendering context for.
#[derive(Clone, Copy, Debug, PartialEq, Eq)]
pub enum ContextApi {
    /// Whatever the platform offers by default.
    PlatformDefault,
    /// OpenGL ES, in any version.
    Gles,
}

/// The APIs to try when creating a context, most preferred first.
pub open spec fn context_attempts() -> Seq<ContextApi> {
    seq![ContextApi::PlatformDefault, ContextApi::Gles]
}

/// The API to try after `failed` attempts have failed, or `None` when the
/// list is used up and context creation has failed for good.
pub fn next_context_attempt(failed: usize) -> (next: Option<ContextApi>)
    ensures
        next == if failed < context_attempts().len() {
            Some(context_attempts()[failed as int])
        } else {
            None
        },
{
    if failed == 0 {
        Some(ContextApi::PlatformDefault)
    } else if failed == 1 {
        Some(ContextApi::Gles)
    } else {
        None
    }
}

} // verus!
