//! An endless sequence that repeatedly applies a function.
use vstd::prelude::*;
use crate::endless::EndlessMoveIterator;

verus! {

/// Yields `cur`, then `f(cur)`, then `f(f(cur))`, and so on without end.
pub struct Successors<T, F> {
    pub cur: T,
    pub f: F,
}

impl<T, F: Fn(&T) -> T> Successors<T, F> {
    pub fn new(first: T, f: F) -> (r: Self)
        ensures
            r.cur == first,
            r.f == f,
            r.wf() <==> forall|x: T| #[trigger] f.requires((&x,)),
    {
        Successors { cur: first, f }
    }
}

impl<T, F: Fn(&T) -> T> EndlessMoveIterator for Successors<T, F> {
    type Item = T;

    open spec fn wf(&self) -> bool {
        forall|x: T| #[trigger] self.f.requires((&x,))
    }

    open spec fn advances_to(&self, r: (Self, T)) -> bool {
        r.1 == self.cur && r.0.f == self.f && self.f.ensures((&self.cur,), r.0.cur)
    }

    fn into_next(self) -> (r: (Self, T)) {
        let Successors { cur, f } = self;
        let next = f(&cur);
        (Successors { cur: next, f }, cur)
    }
}

} // verus!
