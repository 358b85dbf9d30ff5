//! Plain-value forms of what the platform reports and of what the run loop
//! is told to do in response.

use vstd::prelude::*;

verus! {

/// Whether a key or button went down or came up.
#[derive(Clone, Copy, Debug, PartialEq, Eq)]
pub enum ElementState {
    Pressed,
    Released,
}

/// The logical key of a keyboard event, as far as the dispatcher cares.
#[derive(Clone, Copy, Debug, PartialEq, Eq)]
pub enum Key {
    Escape,
    Other,
}

/// A mouse button.
#[derive(Clone, Copy, Debug, PartialEq, Eq)]
pub enum MouseButton {
    Left,
    Right,
    Middle,
    Back,
    Forward,
    Other(u16),
}

/// One event delivered by the platform's event source.
#[derive(Clone, Copy, Debug, PartialEq, Eq)]
pub enum Event {
    /// The application may now own a window and a surface.
    Resumed,
    /// The application has to give up its window and surface.
    Suspended,
    /// All pending events have been delivered; the loop is about to block.
    AboutToWait,
    /// The window's client area changed to the given size.
    Resized { width: u32, height: u32 },
    /// The window asks to be redrawn.
    RedrawRequested,
    /// The user asked to close the window.
    CloseRequested,
    /// A key went down or came up.
    KeyboardInput { state: ElementState, key: Key },
    /// The cursor moved to the given window coordinates.
    CursorMoved { x: i16, y: i16 },
    /// A mouse button went down or came up.
    MouseInput { state: ElementState, button: MouseButton },
    /// Any window event the dispatcher has no rule for.
    Other,
}

/// One thing the dispatcher asks the run loop to carry out.
#[derive(Clone, Copy, Debug, PartialEq, Eq)]
pub enum Action {
    /// Create window, surface and user context.
    CreateState { visible: bool },
    /// Release window, surface and user context.
    DropState,
    /// Resize the surface to the given size.
    ResizeSurface { width: u32, height: u32 },
    /// Run the user context's update step.
    Update,
    /// Run the user context's draw step.
    DrawFrame,
    /// Signal the loop to terminate.
    Exit,
    /// Print the cursor's delta and position.
    ReportCursor { delta: (i32, i32), position: (i16, i16) },
    /// Print which mouse button was pressed.
    ReportClick { button: MouseButton },
    /// Hand the event, as the platform delivered it, to the user context's
    /// event hook together with the window.
    ForwardEvent,
    /// Ask the window for another redraw.
    RequestRedraw,
}

} // verus!
