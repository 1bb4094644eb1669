//! Transforms the terminal value.
use vstd::prelude::*;
use crate::iteration::Iteration;
use crate::terminal::TerminalMoveIterator;

verus! {

/// Yields the items of `ti` unchanged and ends with `f` applied to the
/// terminal value of `ti`.
pub struct MapTerm<T, F> {
    pub ti: T,
    pub f: F,
}

/// `ti` may end with a terminal value that `f` turns into `u`.
pub open spec fn ends_mapped<T: TerminalMoveIterator, U, F: FnOnce(T::Terminal) -> U>(ti: T, f: F, u: U) -> bool {
    exists|t: T::Terminal| #[trigger] ti.advances_to(Iteration::Terminal(t)) && f.ensures((t,), u)
}

impl<T: TerminalMoveIterator, U, F: FnOnce(T::Terminal) -> U> MapTerm<T, F> {
    pub fn new(ti: T, f: F) -> (r: Self)
        ensures
            r.ti == ti,
            r.f == f,
            r.wf() <==> (ti.wf() && forall|t: T::Terminal| #[trigger] f.requires((t,))),
            r.decrease() == ti.decrease(),
    {
        MapTerm { ti, f }
    }
}

impl<T: TerminalMoveIterator, U, F: FnOnce(T::Terminal) -> U> TerminalMoveIterator for MapTerm<T, F> {
    type Item = T::Item;

    type Terminal = U;

    open spec fn wf(&self) -> bool {
        self.ti.wf() && forall|t: T::Terminal| #[trigger] self.f.requires((t,))
    }

    open spec fn decrease(&self) -> Option<nat> {
        self.ti.decrease()
    }

    open spec fn advances_to(&self, r: Iteration<Self, T::Item, U>) -> bool {
        match r {
            Iteration::Next(s, x) => s.f == self.f && self.ti.advances_to(Iteration::Next(s.ti, x)),
            Iteration::Terminal(u) => ends_mapped(self.ti, self.f, u),
        }
    }

    fn into_next(self) -> (r: Iteration<Self, T::Item, U>) {
        let MapTerm { ti, f } = self;
        let ghost g = ti;
        match ti.into_next() {
            Iteration::Next(ti2, x) => Iteration::Next(MapTerm { ti: ti2, f }, x),
            Iteration::Terminal(t) => {
                let u = f(t);
                assert(g.advances_to(Iteration::Terminal(t)));
                Iteration::Terminal(u)
            },
        }
    }
}

} // verus!
