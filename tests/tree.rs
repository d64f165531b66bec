use elm_ui::button::{Button, State};
use elm_ui::draw_context::{DrawContext, DrawOp};
use elm_ui::event::{Event, MouseButton, MouseEvent};
use elm_ui::ui::{DispatchEvent, DrawFn, Element, Tree, Widget};

fn down() -> Event {
    Event::Mouse(MouseEvent::Down(MouseButton::Left))
}

fn up() -> Event {
    Event::Mouse(MouseEvent::Up(MouseButton::Left))
}

fn empty<'a>() -> Element<'a, u32> {
    Element::from(DrawFn::new(Vec::new()))
}

fn mark(i: u8) -> DrawOp {
    DrawOp::Rect { x0: 0, y0: 0, x1: 1, y1: 1, color: i }
}

#[test]
fn dispatch_keeps_order() {
    let mut q: Vec<u32> = vec![1];
    {
        let mut d = DispatchEvent::new(&mut q);
        d.call(2);
        d.call(3);
    }
    assert_eq!(q, vec![1, 2, 3]);
}

#[test]
fn tree_forwards_to_every_child_in_order() {
    let (mut a, mut b, mut c) = (State::new(), State::new(), State::new());
    let mut q: Vec<u32> = Vec::new();
    {
        let mut t = Tree::new()
            .push(Element::from(Button::new(0, 0, 50, 50, Some(1u32), &mut a, empty())))
            .push(Element::from(Button::new(10, 10, 50, 50, Some(2u32), &mut b, empty())))
            .push(Element::from(Button::new(20, 20, 50, 50, Some(3u32), &mut c, empty())));
        let mut d = DispatchEvent::new(&mut q);
        t.on_event(down(), (25, 25), &mut d);
        t.on_event(up(), (25, 25), &mut d);
    }
    assert_eq!(q, vec![1, 2, 3]);
}

#[test]
fn tree_skips_only_children_not_hit() {
    let (mut a, mut b, mut c) = (State::new(), State::new(), State::new());
    let mut q: Vec<u32> = Vec::new();
    {
        let mut t = Tree::with_children(vec![
            Element::from(Button::new(0, 0, 50, 50, Some(1u32), &mut a, empty())),
            Element::from(Button::new(100, 100, 5, 5, Some(2u32), &mut b, empty())),
            Element::from(Button::new(20, 20, 50, 50, Some(3u32), &mut c, empty())),
        ]);
        let mut d = DispatchEvent::new(&mut q);
        t.on_event(down(), (25, 25), &mut d);
        t.on_event(up(), (25, 25), &mut d);
    }
    assert_eq!(q, vec![1, 3]);
    assert!(!a.pressed() && !b.pressed() && !c.pressed());
}

#[test]
fn nested_trees_forward_depth_first() {
    let (mut a, mut b, mut c) = (State::new(), State::new(), State::new());
    let mut q: Vec<u32> = Vec::new();
    {
        let inner = Tree::new()
            .push(Element::from(Button::new(0, 0, 9, 9, Some(2u32), &mut b, empty())))
            .push(Element::from(Button::new(0, 0, 9, 9, Some(3u32), &mut c, empty())));
        let mut root: Element<u32> = Element::from(
            Tree::new()
                .push(Element::from(Button::new(0, 0, 9, 9, Some(1u32), &mut a, empty())))
                .push(Element::from(inner)),
        );
        let mut d = DispatchEvent::new(&mut q);
        root.as_widget_mut().on_event(down(), (1, 1), &mut d);
        root.on_event(up(), (1, 1), &mut d);
    }
    assert_eq!(q, vec![1, 2, 3]);
}

#[test]
fn draw_order_is_insertion_order() {
    let mut t: Tree<u32> = Tree::new();
    for i in 0..6u8 {
        t = t.push(Element::from(DrawFn::new(vec![mark(i)])));
    }
    let mut ctx = DrawContext::new();
    t.draw(&mut ctx);
    let expected: Vec<DrawOp> = (0..6u8).map(mark).collect();
    assert_eq!(ctx.ops().clone(), expected);
}

#[test]
fn empty_tree_draws_and_emits_nothing() {
    let mut t: Tree<u32> = Tree::new();
    let mut q: Vec<u32> = Vec::new();
    {
        let mut d = DispatchEvent::new(&mut q);
        t.on_event(up(), (0, 0), &mut d);
    }
    let mut ctx = DrawContext::new();
    t.draw(&mut ctx);
    assert!(q.is_empty());
    assert!(ctx.ops().is_empty());
}

#[test]
fn draw_fn_ignores_events_and_replays_ops() {
    let mut f: DrawFn<u32> = DrawFn::new(vec![mark(4), DrawOp::Camera { dx: 1, dy: 2 }]);
    let mut q: Vec<u32> = Vec::new();
    {
        let mut d = DispatchEvent::new(&mut q);
        f.on_event(down(), (0, 0), &mut d);
    }
    assert!(q.is_empty());
    let mut ctx = DrawContext::new();
    f.draw(&mut ctx);
    f.draw(&mut ctx);
    assert_eq!(
        ctx.ops().clone(),
        vec![mark(4), DrawOp::Camera { dx: 1, dy: 2 }, mark(4), DrawOp::Camera { dx: 1, dy: 2 }]
    );
}

struct App {
    ok: State,
    cancel: State,
}

fn view(app: &mut App) -> Element<'_, u32> {
    Element::from(
        Tree::new()
            .push(Element::from(DrawFn::new(vec![mark(0)])))
            .push(Element::from(Button::new(0, 0, 10, 10, Some(1u32), &mut app.ok, empty())))
            .push(Element::from(Button::new(20, 0, 10, 10, None, &mut app.cancel, empty()))),
    )
}

#[test]
fn view_twice_draws_the_same() {
    let mut app = App { ok: State::new(), cancel: State::new() };
    let mut first = DrawContext::new();
    view(&mut app).as_widget().draw(&mut first);
    let mut second = DrawContext::new();
    view(&mut app).draw(&mut second);
    assert_eq!(first.ops().clone(), second.ops().clone());
    assert_eq!(first.ops().len(), 7);
}

#[test]
fn tree_press_and_release_leave_state_idle() {
    let mut s = State::new();
    let mut q: Vec<u32> = Vec::new();
    {
        let mut t = Tree::new()
            .push(Element::from(DrawFn::new(vec![mark(1)])))
            .push(Element::from(Button::new(10, 10, 20, 20, Some(7u32), &mut s, empty())));
        let mut d = DispatchEvent::new(&mut q);
        t.on_event(down(), (15, 15), &mut d);
    }
    assert!(s.pressed());
    {
        let mut t = Tree::new()
            .push(Element::from(DrawFn::new(vec![mark(1)])))
            .push(Element::from(Button::new(10, 10, 20, 20, Some(7u32), &mut s, empty())));
        let mut ctx = DrawContext::new();
        t.draw(&mut ctx);
        let mut d = DispatchEvent::new(&mut q);
        t.on_event(up(), (15, 15), &mut d);
    }
    assert!(!s.pressed());
    assert_eq!(q, vec![7]);
}

#[test]
fn drawing_leaves_state_alone() {
    let mut s = State::new();
    let mut q: Vec<u32> = Vec::new();
    {
        let mut b = Button::new(0, 0, 5, 5, Some(1u32), &mut s, empty());
        let mut d = DispatchEvent::new(&mut q);
        b.on_event(down(), (1, 1), &mut d);
        let mut ctx = DrawContext::new();
        b.draw(&mut ctx);
        b.draw(&mut ctx);
    }
    assert!(s.pressed());
    assert!(q.is_empty());
}
