//! The presentation loop of an interactive graphical application, with the
//! windowing system, the graphics pipeline and the clock left to the caller.
//!
//! Every decision the loop takes is a function of plain values: the caller
//! performs the side effects (creating the surface, polling events, reading
//! the clock, clearing and presenting) and reports what it saw.
//!
//! - [`window`]: logical and physical window extents, and what is asked of a
//!   surface when it is created.
//! - [`viewport`]: the rendering rectangle that follows from the physical
//!   extents.
//! - [`pacer`]: the frame clock and the minimum frame budget.
//! - [`event`]: routing of window events, one at a time or a whole batch.
//! - [`ui`]: the declarative interface schema and its mutable counterpart.
//! - [`error`]: what can go wrong while starting up.
//! - [`main_loop`]: the loop itself, as a state machine.

pub mod error;
pub mod event;
pub mod main_loop;
pub mod pacer;
pub mod ui;
pub mod viewport;
pub mod window;
