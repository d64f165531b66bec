//! A pressable control with a two-state press/release machine.
use vstd::prelude::*;

use crate::draw_context::{camera_offset, lemma_camera_offset_append, DrawContext, DrawOp};
use crate::ui::Widget;
use crate::event::{is_primary_down, is_primary_up, Event, MouseButton, MouseEvent};
use crate::ui::{DispatchEvent, Element};

verus! {

/// The fill color of a control that is being pressed.
pub const PRESSED_COLOR: u8 = 5;

/// The fill color of a control at rest.
pub const IDLE_COLOR: u8 = 9;

/// Whether `(px, py)` lies in the half-open rectangle `(x, y, width, height)`.
pub open spec fn in_rect(r: (i32, i32, i32, i32), px: int, py: int) -> bool {
    &&& r.0 <= px < r.0 + r.2
    &&& r.1 <= py < r.1 + r.3
}

/// The pressed flag after `event`, given the flag before and whether the
/// cursor is inside the control.
pub open spec fn next_pressed(pressed: bool, inside: bool, event: Event) -> bool {
    if is_primary_down(event) {
        pressed || inside
    } else if is_primary_up(event) {
        false
    } else {
        pressed
    }
}

/// What a control emits on `event`: its message, on a release inside it that
/// ends a press, when it has one.
pub open spec fn press_emits<Msg>(
    pressed: bool,
    inside: bool,
    event: Event,
    on_press: Option<Msg>,
) -> Seq<Msg> {
    if is_primary_up(event) && inside && pressed && on_press is Some {
        seq![on_press->Some_0]
    } else {
        Seq::empty()
    }
}

/// The persistent interactive state of a control, owned by the application.
#[derive(Debug, Clone, Copy)]
pub struct State {
    pressed: bool,
}

impl State {
    /// Whether the control is being pressed.
    pub closed spec fn is_pressed(&self) -> bool {
        self.pressed
    }

    /// An idle state.
    pub fn new() -> (r: Self)
        ensures
            !r.is_pressed(),
    {
        State { pressed: false }
    }

    /// Whether the control is being pressed.
    pub fn pressed(&self) -> (r: bool)
        ensures
            r == self.is_pressed(),
    {
        self.pressed
    }
}

impl Default for State {
    fn default() -> (r: Self)
        ensures
            !r.is_pressed(),
    {
        State::new()
    }
}

/// A pressable control at an absolute rectangle, with an optional message to
/// emit when pressed, a handle on state that the application owns, and one
/// child drawn in the control's own coordinates.
pub struct Button<'a, Msg> {
    pub x: i32,
    pub y: i32,
    pub width: i32,
    pub height: i32,
    pub on_press: Option<Msg>,
    pub state: &'a mut State,
    pub content: Element<'a, Msg>,
}

impl<'a, Msg> Button<'a, Msg> {
    /// The rectangle `(x, y, width, height)`.
    pub open spec fn rect(&self) -> (i32, i32, i32, i32) {
        (self.x, self.y, self.width, self.height)
    }

    /// The message emitted on a completed press.
    pub open spec fn message(&self) -> Option<Msg> {
        self.on_press
    }

    /// Whether the state handle reads as pressed.
    pub open spec fn is_pressed(&self) -> bool {
        self.state.is_pressed()
    }

    /// The child drawn inside the control.
    pub open spec fn content(&self) -> Element<'a, Msg> {
        self.content
    }

    /// The messages that handling `event` at `cursor` emits.
    pub open spec fn emitted_by(&self, event: Event, cursor: (i32, i32)) -> Seq<Msg> {
        press_emits(
            self.is_pressed(),
            in_rect(self.rect(), cursor.0 as int, cursor.1 as int),
            event,
            self.message(),
        )
    }

    /// `after` is this control after handling `event` at `cursor`: only the
    /// pressed flag changes.
    pub open spec fn steps_to(&self, after: Self, event: Event, cursor: (i32, i32)) -> bool {
        &&& after.rect() == self.rect()
        &&& after.message() == self.message()
        &&& after.content() == self.content()
        &&& after.is_pressed() == next_pressed(
            self.is_pressed(),
            in_rect(self.rect(), cursor.0 as int, cursor.1 as int),
            event,
        )
    }

    /// The operations that drawing this control performs: its rectangle, then
    /// its child in a frame moved to the control's corner, then the move back.
    pub open spec fn paints(&self) -> Seq<DrawOp>
        decreases self, 0int,
    {
        let (x, y, width, height) = self.rect();
        let color = if self.is_pressed() {
            PRESSED_COLOR
        } else {
            IDLE_COLOR
        };
        seq![
            DrawOp::Rect {
                x0: x as i64,
                y0: y as i64,
                x1: (x + width - 1) as i64,
                y1: (y + height - 1) as i64,
                color,
            },
            DrawOp::Camera { dx: -x as i64, dy: -y as i64 },
        ] + self.content().paints() + seq![DrawOp::Camera { dx: x as i64, dy: y as i64 }]
    }

    /// A control over `state`, drawing `content` inside it.
    pub fn new(
        x: i32,
        y: i32,
        width: i32,
        height: i32,
        on_press: Option<Msg>,
        state: &'a mut State,
        content: Element<'a, Msg>,
    ) -> (r: Self)
        ensures
            r.rect() == (x, y, width, height),
            r.message() == on_press,
            r.is_pressed() == old(state).is_pressed(),
            r.content() == content,
            *r.state == *old(state),
            *final(r.state) == *final(state),
    {
        Button { x, y, width, height, on_press, state, content }
    }

    /// Whether `(x, y)` lies inside the control's half-open rectangle.
    pub fn contains(&self, x: i32, y: i32) -> (r: bool)
        ensures
            r == in_rect(self.rect(), x as int, y as int),
    {
        let contains_x = x as i64 >= self.x as i64 && (x as i64) < self.x as i64
            + self.width as i64;
        let contains_y = y as i64 >= self.y as i64 && (y as i64) < self.y as i64
            + self.height as i64;
        contains_x && contains_y
    }
}


impl<'a, Msg: Copy> Button<'a, Msg> {
    /// Runs the press/release machine on `event`. The handle keeps pointing at
    /// the same application-owned state, so what is written there outlives
    /// this control.
    pub fn on_event(
        &mut self,
        event: Event,
        cursor_position: (i32, i32),
        dispatch_event: &mut DispatchEvent<Msg>,
    )
        ensures
            old(self).steps_to(*final(self), event, cursor_position),
            *final(final(self).state) == *final(old(self).state),
            final(dispatch_event).queue@ == old(dispatch_event).queue@ + old(self).emitted_by(
                event,
                cursor_position,
            ),
            *final(final(dispatch_event).queue) == *final(old(dispatch_event).queue),
    {
        match event {
            Event::Mouse(MouseEvent::Down(MouseButton::Left)) => {
                if self.contains(cursor_position.0, cursor_position.1) {
                    self.state.pressed = true;
                }
            },
            Event::Mouse(MouseEvent::Up(MouseButton::Left)) => {
                if self.contains(cursor_position.0, cursor_position.1) && self.state.pressed {
                    if let Some(on_press) = self.on_press {
                        dispatch_event.call(on_press);
                    }
                }
                self.state.pressed = false;
            },
            _ => {},
        }
    }

    /// Draws the rectangle, then the child in the control's own frame.
    pub(crate) fn paint(&self, draw: &mut DrawContext)
        ensures
            final(draw)@ == old(draw)@ + self.paints(),
        decreases self, 1int,
    {
        let color = if self.state.pressed {
            PRESSED_COLOR
        } else {
            IDLE_COLOR
        };
        let x = self.x as i64;
        let y = self.y as i64;
        draw.rect(x, y, x + self.width as i64 - 1, y + self.height as i64 - 1, color);
        draw.append_camera(-x, -y);
        self.content.paint(draw);
        draw.append_camera(x, y);
        assert(draw@ =~= old(draw)@ + self.paints());
    }
}


/// Drawing a control moves the origin no further than drawing its child does:
/// the move to the control's corner is undone once the child is drawn. So
/// when the child leaves the origin where it found it, so does the control.
pub proof fn lemma_draw_restores_origin<'a, Msg: Copy>(b: Button<'a, Msg>, before: Seq<DrawOp>)
    ensures
        camera_offset(before + b.drawn()) == camera_offset(before + b.content().drawn()),
        camera_offset(b.content().drawn()) == (0int, 0int) ==> camera_offset(before + b.drawn())
            == camera_offset(before),
{
    let color = if b.state.pressed {
        PRESSED_COLOR
    } else {
        IDLE_COLOR
    };
    let r = DrawOp::Rect {
        x0: b.x as i64,
        y0: b.y as i64,
        x1: (b.x + b.width - 1) as i64,
        y1: (b.y + b.height - 1) as i64,
        color,
    };
    let head = seq![r, DrawOp::Camera { dx: -b.x as i64, dy: -b.y as i64 }];
    let tail = seq![DrawOp::Camera { dx: b.x as i64, dy: b.y as i64 }];
    let mid = b.content.paints();
    assert(head.drop_last() =~= seq![r]);
    assert(seq![r].drop_last() =~= Seq::<DrawOp>::empty());
    assert(tail.drop_last() =~= Seq::<DrawOp>::empty());
    assert(camera_offset(Seq::<DrawOp>::empty()) == (0int, 0int));
    assert(camera_offset(seq![r]) == (0int, 0int));
    assert(head.last() == DrawOp::Camera { dx: -b.x as i64, dy: -b.y as i64 });
    assert(camera_offset(head) == (-b.x as int, -b.y as int));
    assert(camera_offset(tail) == (b.x as int, b.y as int));
    assert(b.paints() == head + mid + tail);
    lemma_camera_offset_append(head, mid);
    lemma_camera_offset_append(head + mid, tail);
    lemma_camera_offset_append(before, head + mid + tail);
    lemma_camera_offset_append(before, mid);
    lemma_camera_offset_append(before, Seq::<DrawOp>::empty());
    assert(before + Seq::<DrawOp>::empty() =~= before);
}

} // verus!
