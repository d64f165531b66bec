//! A small retained-mode UI core: widgets handle input events, emit typed
//! messages through a dispatch sink, and draw into a recording context.
pub mod button;
pub mod draw_context;
pub mod event;
pub mod ui;
