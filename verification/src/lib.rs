//! Verified core of a windowed OpenGL demo harness.
//!
//! The harness itself talks to the windowing system and the graphics driver;
//! this crate holds everything it *decides*: how cursor movement is tracked,
//! which size the framebuffer gets, which context API is tried next, and how
//! each platform event moves the run loop along.  The program around it only
//! performs the actions that come out of here.

pub mod mouse;
pub mod event;
pub mod dispatch;
pub mod surface;
pub mod guarantees;
pub mod report;
