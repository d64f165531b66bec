//! The widget capability, the type-erased element, the composite tree, the
//! decoration adapter and the dispatch sink that collects messages.
use vstd::prelude::*;

use crate::button::{Button, State};
use crate::draw_context::{DrawContext, DrawOp};
use crate::event::Event;

verus! {

/// A write-only sink through which widgets emit messages into a queue that it
/// borrows for one event-handling pass.
pub struct DispatchEvent<'a, Msg> {
    pub queue: &'a mut Vec<Msg>,
}

impl<'a, Msg> DispatchEvent<'a, Msg> {
    /// A sink that appends to `queue`.
    pub fn new(queue: &'a mut Vec<Msg>) -> (r: Self)
        ensures
            *r.queue == *old(queue),
            *final(r.queue) == *final(queue),
    {
        DispatchEvent { queue }
    }

    /// Appends `msg` at the end of the queue.
    pub fn call(&mut self, msg: Msg)
        ensures
            final(self).queue@ == old(self).queue@.push(msg),
            *final(final(self).queue) == *final(old(self).queue),
    {
        self.queue.push(msg);
    }
}

/// What every node of the interface can do: handle an input event, possibly
/// emitting messages, and draw itself.
pub trait Widget: Sized {
    type Msg: Copy;

    /// The messages that handling `event` at `cursor` emits, in order.
    spec fn emitted(&self, event: Event, cursor: (i32, i32)) -> Seq<Self::Msg>;

    /// `after` is what this widget becomes by handling `event` at `cursor`.
    spec fn handled(&self, after: Self, event: Event, cursor: (i32, i32)) -> bool;

    /// The operations that drawing this widget performs, in order.
    spec fn drawn(&self) -> Seq<DrawOp>;

    fn on_event(
        &mut self,
        event: Event,
        cursor_position: (i32, i32),
        dispatch_event: &mut DispatchEvent<Self::Msg>,
    )
        ensures
            old(self).handled(*final(self), event, cursor_position),
            final(dispatch_event).queue@ == old(dispatch_event).queue@ + old(self).emitted(
                event,
                cursor_position,
            ),
            *final(final(dispatch_event).queue) == *final(old(dispatch_event).queue),
    ;

    fn draw(&self, draw: &mut DrawContext)
        ensures
            final(draw)@ == old(draw)@ + self.drawn(),
    ;
}

/// One widget of any kind.
pub enum Element<'a, Msg> {
    Tree(Tree<'a, Msg>),
    Button(Box<Button<'a, Msg>>),
    DrawFn(DrawFn<Msg>),
}

/// A composite widget: an ordered sequence of children that receive every
/// event and are drawn in order.
pub struct Tree<'a, Msg> {
    pub children: Vec<Element<'a, Msg>>,
}

/// A widget that only draws: it replays a fixed sequence of operations and
/// ignores every event.
pub struct DrawFn<Msg> {
    pd: core::marker::PhantomData<Msg>,
    ops: Vec<DrawOp>,
}

impl<'a, Msg> Element<'a, Msg> {
    /// The state handle of a control.
    pub open spec fn button_state(&self) -> &'a mut State
        recommends
            self is Button,
    {
        self->Button_0.state
    }

    /// The messages that handling `event` at `cursor` emits.
    pub open spec fn emits(&self, event: Event, cursor: (i32, i32)) -> Seq<Msg>
        decreases self, 0int,
    {
        match self {
            Element::Tree(t) => emits_upto(t.kids(), t.kids().len() as int, event, cursor),
            Element::Button(b) => b.emitted_by(event, cursor),
            Element::DrawFn(_) => Seq::empty(),
        }
    }

    /// `after` is what this element becomes by handling `event` at `cursor`.
    pub open spec fn steps_to(&self, after: Self, event: Event, cursor: (i32, i32)) -> bool
        decreases self, 0int,
    {
        match self {
            Element::Tree(t) => match after {
                Element::Tree(u) => t.kids().len() == u.kids().len() && steps_upto(
                    t.kids(),
                    u.kids(),
                    t.kids().len() as int,
                    event,
                    cursor,
                ),
                _ => false,
            },
            Element::Button(b) => match after {
                Element::Button(c) => b.steps_to(*c, event, cursor),
                _ => false,
            },
            Element::DrawFn(_) => after == *self,
        }
    }

    /// The operations that drawing this element performs.
    pub open spec fn paints(&self) -> Seq<DrawOp>
        decreases self, 0int,
    {
        match self {
            Element::Tree(t) => paints_upto(t.kids(), t.kids().len() as int),
            Element::Button(b) => b.paints(),
            Element::DrawFn(f) => f.ops(),
        }
    }
}

/// The messages of the first `k` elements of `s`, in order.
pub open spec fn emits_upto<'a, Msg>(
    s: Seq<Element<'a, Msg>>,
    k: int,
    event: Event,
    cursor: (i32, i32),
) -> Seq<Msg>
    decreases s, k,
{
    if k <= 0 || k > s.len() {
        Seq::empty()
    } else {
        emits_upto(s, k - 1, event, cursor) + s[k - 1].emits(event, cursor)
    }
}

/// Each of the first `k` elements of `s` becomes the one of `t` at its index.
pub open spec fn steps_upto<'a, Msg>(
    s: Seq<Element<'a, Msg>>,
    t: Seq<Element<'a, Msg>>,
    k: int,
    event: Event,
    cursor: (i32, i32),
) -> bool
    decreases s, k,
{
    if k <= 0 {
        true
    } else if k > s.len() || k > t.len() {
        false
    } else {
        steps_upto(s, t, k - 1, event, cursor) && s[k - 1].steps_to(t[k - 1], event, cursor)
    }
}

/// The drawing operations of the first `k` elements of `s`, in order.
pub open spec fn paints_upto<'a, Msg>(s: Seq<Element<'a, Msg>>, k: int) -> Seq<DrawOp>
    decreases s, k,
{
    if k <= 0 || k > s.len() {
        Seq::empty()
    } else {
        paints_upto(s, k - 1) + s[k - 1].paints()
    }
}


impl<'a, Msg> Tree<'a, Msg> {
    /// The children, in order.
    pub open spec fn kids(&self) -> Seq<Element<'a, Msg>> {
        self.children@
    }

    /// A tree with no children.
    pub fn new() -> (r: Self)
        ensures
            r.kids() == Seq::<Element<'a, Msg>>::empty(),
    {
        Self::with_children(Vec::new())
    }

    /// A tree with the given children, in order.
    pub fn with_children(children: Vec<Element<'a, Msg>>) -> (r: Self)
        ensures
            r.kids() == children@,
    {
        Tree { children }
    }

    /// The tree with `element` appended as its last child.
    pub fn push(self, element: Element<'a, Msg>) -> (r: Self)
        ensures
            r.kids() == self.kids().push(element),
    {
        let mut tree = self;
        tree.children.push(element);
        tree
    }
}

impl<'a, Msg: Copy> Element<'a, Msg> {
    /// Hands `event` to this element. A control, or a control that is a
    /// direct child of this tree, keeps its state handle, so what it writes
    /// there outlives the element. Deeper levels are not stated: that would
    /// take a recursive spec function over prophesied values, which is not
    /// available here.
    pub fn on_event(
        &mut self,
        event: Event,
        cursor_position: (i32, i32),
        dispatch_event: &mut DispatchEvent<Msg>,
    )
        ensures
            old(self).steps_to(*final(self), event, cursor_position),
            final(dispatch_event).queue@ == old(dispatch_event).queue@ + old(self).emits(
                event,
                cursor_position,
            ),
            *final(final(dispatch_event).queue) == *final(old(dispatch_event).queue),
            (*old(self)) is Button ==> mut_ref_future(final(self).button_state())
                == mut_ref_future(old(self).button_state()),
            (*old(self)) is Tree ==> forall|j: int|
                0 <= j < old(self)->Tree_0.kids().len() && (#[trigger] old(
                    self,
                )->Tree_0.kids()[j]) is Button ==> mut_ref_future(
                    final(self)->Tree_0.kids()[j].button_state(),
                ) == mut_ref_future(old(self)->Tree_0.kids()[j].button_state()),
        decreases *old(self), 1int,
    {
        match self {
            Element::Tree(t) => t.on_event(event, cursor_position, dispatch_event),
            Element::Button(b) => b.on_event(event, cursor_position, dispatch_event),
            Element::DrawFn(_) => {},
        }
    }

    /// Draws this element.
    pub(crate) fn paint(&self, draw: &mut DrawContext)
        ensures
            final(draw)@ == old(draw)@ + self.paints(),
        decreases self, 1int,
    {
        match self {
            Element::Tree(t) => t.paint_children(draw),
            Element::Button(b) => b.paint(draw),
            Element::DrawFn(f) => f.draw(draw),
        }
    }
}

impl<'a, Msg: Copy> Tree<'a, Msg> {
    /// Hands `event` to every child, in order, with no short-circuit. Each
    /// control among the children keeps its state handle.
    pub fn on_event(
        &mut self,
        event: Event,
        cursor_position: (i32, i32),
        dispatch_event: &mut DispatchEvent<Msg>,
    )
        ensures
            old(self).handled(*final(self), event, cursor_position),
            final(self).kids().len() == old(self).kids().len(),
            forall|j: int|
                0 <= j < old(self).kids().len() ==> (#[trigger] old(self).kids()[j]).steps_to(
                    final(self).kids()[j],
                    event,
                    cursor_position,
                ),
            final(dispatch_event).queue@ == old(dispatch_event).queue@ + old(self).emitted(
                event,
                cursor_position,
            ),
            *final(final(dispatch_event).queue) == *final(old(dispatch_event).queue),
            forall|j: int|
                0 <= j < old(self).kids().len() && (#[trigger] old(self).kids()[j]) is Button
                    ==> mut_ref_future(final(self).kids()[j].button_state()) == mut_ref_future(
                    old(self).kids()[j].button_state(),
                ),
        decreases *old(self), 2int,
    {
        let n = self.children.len();
        let mut i: usize = 0;
        while i < n
            invariant
                i <= n,
                n == old(self).children@.len(),
                self.children@.len() == n,
                forall|j: int|
                    0 <= j < i ==> #[trigger] old(self).children@[j].steps_to(
                        self.children@[j],
                        event,
                        cursor_position,
                    ),
                forall|j: int| i <= j < n ==> self.children@[j] == old(self).children@[j],
                dispatch_event.queue@ == old(dispatch_event).queue@ + emits_upto(
                    old(self).children@,
                    i as int,
                    event,
                    cursor_position,
                ),
                *final(dispatch_event.queue) == *final(old(dispatch_event).queue),
                forall|j: int|
                    0 <= j < i && old(self).children@[j] is Button ==> mut_ref_future(
                        self.children@[j].button_state(),
                    ) == mut_ref_future(old(self).children@[j].button_state()),
            decreases n - i,
        {
            assert(decreases_to!(old(self).children => old(self).children@[i as int]));
            self.children[i].on_event(event, cursor_position, dispatch_event);
            i += 1;
        }
        proof {
            lemma_steps_upto_all(old(self).children@, self.children@, n as int, event, cursor_position);
        }
    }

    /// Draws every child, in order.
    fn paint_children(&self, draw: &mut DrawContext)
        ensures
            final(draw)@ == old(draw)@ + paints_upto(self.children@, self.children@.len() as int),
        decreases self, 2int,
    {
        let n = self.children.len();
        let mut i: usize = 0;
        while i < n
            invariant
                i <= n,
                n == self.children@.len(),
                draw@ == old(draw)@ + paints_upto(self.children@, i as int),
            decreases n - i,
        {
            assert(decreases_to!(self.children => self.children@[i as int]));
            self.children[i].paint(draw);
            assert(draw@ =~= old(draw)@ + paints_upto(self.children@, i + 1));
            i += 1;
        }
    }
}

/// Steps shown for each index give the stepwise relation.
proof fn lemma_steps_upto_all<'a, Msg>(
    s: Seq<Element<'a, Msg>>,
    t: Seq<Element<'a, Msg>>,
    k: int,
    event: Event,
    cursor: (i32, i32),
)
    requires
        0 <= k <= s.len(),
        k <= t.len(),
        forall|j: int| 0 <= j < k ==> #[trigger] s[j].steps_to(t[j], event, cursor),
    ensures
        steps_upto(s, t, k, event, cursor),
    decreases k,
{
    if k > 0 {
        lemma_steps_upto_all(s, t, k - 1, event, cursor);
        assert(s[k - 1].steps_to(t[k - 1], event, cursor));
    }
}

impl<Msg> DrawFn<Msg> {
    /// The operations this widget replays.
    pub closed spec fn ops(&self) -> Seq<DrawOp> {
        self.ops@
    }

    /// A widget that replays `ops` each time it is drawn.
    pub fn new(ops: Vec<DrawOp>) -> (r: Self)
        ensures
            r.ops() == ops@,
    {
        DrawFn { pd: core::marker::PhantomData, ops }
    }
}

impl<Msg: Copy> Widget for DrawFn<Msg> {
    type Msg = Msg;

    open spec fn emitted(&self, event: Event, cursor: (i32, i32)) -> Seq<Msg> {
        Seq::empty()
    }

    open spec fn handled(&self, after: Self, event: Event, cursor: (i32, i32)) -> bool {
        after == *self
    }

    open spec fn drawn(&self) -> Seq<DrawOp> {
        self.ops()
    }

    fn on_event(
        &mut self,
        _event: Event,
        _cursor_position: (i32, i32),
        _dispatch_event: &mut DispatchEvent<Msg>,
    ) {
    }

    fn draw(&self, draw: &mut DrawContext) {
        let n = self.ops.len();
        let mut i: usize = 0;
        while i < n
            invariant
                i <= n,
                n == self.ops@.len(),
                draw@ == old(draw)@ + self.ops@.take(i as int),
            decreases n - i,
        {
            draw.apply(self.ops[i]);
            assert(self.ops@.take(i + 1) =~= self.ops@.take(i as int).push(self.ops@[i as int]));
            i += 1;
        }
        assert(self.ops@.take(n as int) =~= self.ops@);
    }
}


impl<'a, Msg> Element<'a, Msg> {
    /// This element, as a widget to read.
    pub fn as_widget(&self) -> (r: &Self)
        ensures
            *r == *self,
    {
        self
    }

    /// This element, as a widget to change.
    pub fn as_widget_mut(&mut self) -> (r: &mut Self)
        ensures
            *r == *old(self),
            *final(self) == *final(r),
    {
        self
    }
}

impl<'a, Msg: Copy> Widget for Element<'a, Msg> {
    type Msg = Msg;

    open spec fn emitted(&self, event: Event, cursor: (i32, i32)) -> Seq<Msg> {
        self.emits(event, cursor)
    }

    open spec fn handled(&self, after: Self, event: Event, cursor: (i32, i32)) -> bool {
        self.steps_to(after, event, cursor)
    }

    open spec fn drawn(&self) -> Seq<DrawOp> {
        self.paints()
    }

    fn on_event(
        &mut self,
        event: Event,
        cursor_position: (i32, i32),
        dispatch_event: &mut DispatchEvent<Msg>,
    ) {
        Element::on_event(self, event, cursor_position, dispatch_event);
    }

    fn draw(&self, draw: &mut DrawContext) {
        self.paint(draw);
    }
}

impl<'a, Msg: Copy> Widget for Tree<'a, Msg> {
    type Msg = Msg;

    open spec fn emitted(&self, event: Event, cursor: (i32, i32)) -> Seq<Msg> {
        Element::Tree(*self).emits(event, cursor)
    }

    open spec fn handled(&self, after: Self, event: Event, cursor: (i32, i32)) -> bool {
        Element::Tree(*self).steps_to(Element::Tree(after), event, cursor)
    }

    open spec fn drawn(&self) -> Seq<DrawOp> {
        Element::Tree(*self).paints()
    }

    fn on_event(
        &mut self,
        event: Event,
        cursor_position: (i32, i32),
        dispatch_event: &mut DispatchEvent<Msg>,
    ) {
        Tree::on_event(self, event, cursor_position, dispatch_event);
    }

    fn draw(&self, draw: &mut DrawContext) {
        self.paint_children(draw);
    }
}

impl<'a, Msg: Copy> Widget for Button<'a, Msg> {
    type Msg = Msg;

    open spec fn emitted(&self, event: Event, cursor: (i32, i32)) -> Seq<Msg> {
        self.emitted_by(event, cursor)
    }

    open spec fn handled(&self, after: Self, event: Event, cursor: (i32, i32)) -> bool {
        self.steps_to(after, event, cursor)
    }

    open spec fn drawn(&self) -> Seq<DrawOp> {
        self.paints()
    }

    fn on_event(
        &mut self,
        event: Event,
        cursor_position: (i32, i32),
        dispatch_event: &mut DispatchEvent<Msg>,
    ) {
        Button::on_event(self, event, cursor_position, dispatch_event);
    }

    fn draw(&self, draw: &mut DrawContext) {
        self.paint(draw);
    }
}

impl<'a, Msg> From<Tree<'a, Msg>> for Element<'a, Msg> {
    fn from(val: Tree<'a, Msg>) -> (r: Self) {
        Element::Tree(val)
    }
}

impl<'a, Msg> vstd::std_specs::convert::FromSpecImpl<Tree<'a, Msg>> for Element<'a, Msg> {
    open spec fn obeys_from_spec() -> bool {
        true
    }

    open spec fn from_spec(v: Tree<'a, Msg>) -> Self {
        Element::Tree(v)
    }
}

impl<'a, Msg> From<Button<'a, Msg>> for Element<'a, Msg> {
    fn from(val: Button<'a, Msg>) -> (r: Self) {
        Element::Button(Box::new(val))
    }
}

impl<'a, Msg> vstd::std_specs::convert::FromSpecImpl<Button<'a, Msg>> for Element<'a, Msg> {
    open spec fn obeys_from_spec() -> bool {
        true
    }

    open spec fn from_spec(v: Button<'a, Msg>) -> Self {
        Element::Button(Box::new(v))
    }
}

impl<'a, Msg> From<DrawFn<Msg>> for Element<'a, Msg> {
    fn from(val: DrawFn<Msg>) -> (r: Self) {
        Element::DrawFn(val)
    }
}

impl<'a, Msg> vstd::std_specs::convert::FromSpecImpl<DrawFn<Msg>> for Element<'a, Msg> {
    open spec fn obeys_from_spec() -> bool {
        true
    }

    open spec fn from_spec(v: DrawFn<Msg>) -> Self {
        Element::DrawFn(v)
    }
}


/// The messages of the first `k` elements depend on those elements alone.
proof fn lemma_emits_upto_prefix<'a, Msg>(
    s: Seq<Element<'a, Msg>>,
    t: Seq<Element<'a, Msg>>,
    k: int,
    event: Event,
    cursor: (i32, i32),
)
    requires
        0 <= k <= s.len(),
        k <= t.len(),
        forall|j: int| 0 <= j < k ==> s[j] == t[j],
    ensures
        emits_upto(s, k, event, cursor) == emits_upto(t, k, event, cursor),
    decreases k,
{
    if k > 0 {
        lemma_emits_upto_prefix(s, t, k - 1, event, cursor);
    }
}

/// The drawing of the first `k` elements depends on those elements alone.
proof fn lemma_paints_upto_prefix<'a, Msg>(s: Seq<Element<'a, Msg>>, t: Seq<Element<'a, Msg>>, k: int)
    requires
        0 <= k <= s.len(),
        k <= t.len(),
        forall|j: int| 0 <= j < k ==> s[j] == t[j],
    ensures
        paints_upto(s, k) == paints_upto(t, k),
    decreases k,
{
    if k > 0 {
        lemma_paints_upto_prefix(s, t, k - 1);
    }
}

/// Child order is event order and draw order: a tree with one more child at
/// the end emits what the shorter tree emits and then what the new child
/// emits, and draws the same way.
pub proof fn lemma_push_comes_last<'a, Msg: Copy>(
    t: Tree<'a, Msg>,
    u: Tree<'a, Msg>,
    e: Element<'a, Msg>,
    event: Event,
    cursor: (i32, i32),
)
    requires
        u.kids() == t.kids().push(e),
    ensures
        u.emitted(event, cursor) == t.emitted(event, cursor) + e.emitted(event, cursor),
        u.drawn() == t.drawn() + e.drawn(),
{
    let n = t.children@.len() as int;
    lemma_emits_upto_prefix(u.children@, t.children@, n, event, cursor);
    lemma_paints_upto_prefix(u.children@, t.children@, n);
    assert(u.children@[n] == e);
}

/// The messages of the first `k` elements, when each emits exactly one.
proof fn lemma_emits_upto_singletons<'a, Msg>(
    s: Seq<Element<'a, Msg>>,
    k: int,
    event: Event,
    cursor: (i32, i32),
)
    requires
        0 <= k <= s.len(),
        forall|i: int| 0 <= i < s.len() ==> (#[trigger] s[i].emits(event, cursor)).len() == 1,
    ensures
        emits_upto(s, k, event, cursor).len() == k,
        forall|i: int|
            0 <= i < k ==> emits_upto(s, k, event, cursor)[i] == (#[trigger] s[i].emits(
                event,
                cursor,
            ))[0],
    decreases k,
{
    if k > 0 {
        lemma_emits_upto_singletons(s, k - 1, event, cursor);
        assert(s[k - 1].emits(event, cursor).len() == 1);
        assert forall|i: int| 0 <= i < k implies emits_upto(s, k, event, cursor)[i] == (
        #[trigger] s[i].emits(event, cursor))[0] by {
            if i < k - 1 {
                assert(s[i].emits(event, cursor).len() == 1);
            }
        }
    }
}

/// No child is skipped: when every child of a tree emits exactly one message
/// on an event, the tree emits all of them, one per child, in child order,
/// whichever children the cursor is over.
pub proof fn lemma_tree_forwards_to_every_child<'a, Msg: Copy>(
    t: Tree<'a, Msg>,
    event: Event,
    cursor: (i32, i32),
)
    requires
        forall|i: int|
            0 <= i < t.kids().len() ==> (#[trigger] t.kids()[i].emitted(event, cursor)).len() == 1,
    ensures
        t.emitted(event, cursor).len() == t.kids().len(),
        forall|i: int|
            0 <= i < t.kids().len() ==> t.emitted(event, cursor)[i] == (
            #[trigger] t.kids()[i].emitted(event, cursor))[0],
{
    let s = t.children@;
    assert forall|i: int| 0 <= i < s.len() implies (#[trigger] s[i].emits(event, cursor)).len()
        == 1 by {
        assert(t.kids()[i].emitted(event, cursor).len() == 1);
    }
    lemma_emits_upto_singletons(s, s.len() as int, event, cursor);
}

} // verus!
