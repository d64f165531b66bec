//! A drawing context that records every primitive it is asked to perform.
use vstd::prelude::*;

verus! {

/// One primitive operation on a drawing context.
#[derive(Clone, Copy, PartialEq, Eq, Structural, Debug)]
pub enum DrawOp {
    /// Fill the rectangle with corners `(x0, y0)` and `(x1, y1)`, both included.
    Rect { x0: i64, y0: i64, x1: i64, y1: i64, color: u8 },
    /// Move the coordinate origin by `(dx, dy)`.
    Camera { dx: i64, dy: i64 },
}

/// The net origin translation that a sequence of operations applies.
pub open spec fn camera_offset(ops: Seq<DrawOp>) -> (int, int)
    decreases ops.len(),
{
    if ops.len() == 0 {
        (0, 0)
    } else {
        let (ax, ay) = camera_offset(ops.drop_last());
        match ops.last() {
            DrawOp::Camera { dx, dy } => (ax + dx, ay + dy),
            DrawOp::Rect { .. } => (ax, ay),
        }
    }
}

/// The offset of a concatenation is the sum of the offsets.
pub proof fn lemma_camera_offset_append(a: Seq<DrawOp>, b: Seq<DrawOp>)
    ensures
        camera_offset(a + b) == (camera_offset(a).0 + camera_offset(b).0, camera_offset(a).1
            + camera_offset(b).1),
    decreases b.len(),
{
    if b.len() == 0 {
        assert(a + b =~= a);
    } else {
        lemma_camera_offset_append(a, b.drop_last());
        assert((a + b).drop_last() =~= a + b.drop_last());
        assert((a + b).last() == b.last());
    }
}

/// A drawing surface that keeps the ordered log of operations performed on it.
pub struct DrawContext {
    ops: Vec<DrawOp>,
}

impl View for DrawContext {
    type V = Seq<DrawOp>;

    closed spec fn view(&self) -> Seq<DrawOp> {
        self.ops@
    }
}

impl DrawContext {
    /// A context on which nothing has been drawn yet.
    pub fn new() -> (r: Self)
        ensures
            r@ == Seq::<DrawOp>::empty(),
    {
        DrawContext { ops: Vec::new() }
    }

    /// Fills the rectangle with the given corners in the given color.
    pub fn rect(&mut self, x0: i64, y0: i64, x1: i64, y1: i64, color: u8)
        ensures
            final(self)@ == old(self)@.push(DrawOp::Rect { x0, y0, x1, y1, color }),
    {
        self.ops.push(DrawOp::Rect { x0, y0, x1, y1, color });
    }

    /// Translates the coordinate origin by `(dx, dy)`.
    pub fn append_camera(&mut self, dx: i64, dy: i64)
        ensures
            final(self)@ == old(self)@.push(DrawOp::Camera { dx, dy }),
    {
        self.ops.push(DrawOp::Camera { dx, dy });
    }

    /// Performs one recorded operation again.
    pub fn apply(&mut self, op: DrawOp)
        ensures
            final(self)@ == old(self)@.push(op),
    {
        match op {
            DrawOp::Rect { x0, y0, x1, y1, color } => self.rect(x0, y0, x1, y1, color),
            DrawOp::Camera { dx, dy } => self.append_camera(dx, dy),
        }
    }

    /// The operations performed so far, oldest first.
    pub fn ops(&self) -> (r: &Vec<DrawOp>)
        ensures
            r@ == self@,
    {
        &self.ops
    }
}

} // verus!
