//! The stack of scissor rectangles of a render pass.
use vstd::prelude::*;

verus! {

/// A stack of clipping rectangles; the innermost one is on top. `R` is a
/// rectangle.
pub struct ScissorStack<R> {
    stack: Vec<R>,
}

impl<R> View for ScissorStack<R> {
    type V = Seq<R>;

    closed spec fn view(&self) -> Seq<R> {
        self.stack@
    }
}

impl<R: Copy> ScissorStack<R> {
    /// An empty stack.
    pub fn new() -> (s: Self)
        ensures
            s@ == Seq::<R>::empty(),
    {
        ScissorStack { stack: Vec::new() }
    }

    /// Enters a clipping rectangle.
    pub fn push_scissor(&mut self, rect: R)
        ensures
            final(self)@ == old(self)@.push(rect),
    {
        self.stack.push(rect);
    }

    /// Leaves the innermost clipping rectangle; an empty stack stays empty.
    pub fn pop_scissor(&mut self)
        ensures
            final(self)@ == if old(self)@.len() > 0 {
                old(self)@.drop_last()
            } else {
                old(self)@
            },
    {
        self.stack.pop();
    }

    /// The clipping rectangle in force: the innermost one, if any.
    pub fn current_scissor(&self) -> (r: Option<R>)
        ensures
            r == if self@.len() > 0 {
                Some(self@.last())
            } else {
                None
            },
    {
        let n = self.stack.len();
        if n > 0 {
            Some(self.stack[n - 1])
        } else {
            None
        }
    }
}

/// Entering a rectangle makes it the one in force, and leaving it again
/// restores the stack as it was.
pub proof fn lemma_push_pop<R>(s: Seq<R>, rect: R)
    ensures
        s.push(rect).last() == rect,
        s.push(rect).drop_last() == s,
{
    assert(s.push(rect).drop_last() =~= s);
}

} // verus!
