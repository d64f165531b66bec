//! Input events delivered to widgets.
use vstd::prelude::*;

verus! {

/// A mouse button.
#[derive(Clone, Copy, PartialEq, Eq, Structural, Debug)]
pub enum MouseButton {
    Left,
    Right,
    Middle,
}

/// A button transition of the mouse.
#[derive(Clone, Copy, PartialEq, Eq, Structural, Debug)]
pub enum MouseEvent {
    Down(MouseButton),
    Up(MouseButton),
}

/// One discrete input occurrence.
#[derive(Clone, Copy, PartialEq, Eq, Structural, Debug)]
pub enum Event {
    Mouse(MouseEvent),
}

/// The primary button went down.
pub open spec fn is_primary_down(e: Event) -> bool {
    e == Event::Mouse(MouseEvent::Down(MouseButton::Left))
}

/// The primary button was released.
pub open spec fn is_primary_up(e: Event) -> bool {
    e == Event::Mouse(MouseEvent::Up(MouseButton::Left))
}

} // verus!
