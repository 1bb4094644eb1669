//! Applies a function to each item.
use vstd::prelude::*;
use crate::iteration::Iteration;
use crate::terminal::TerminalMoveIterator;

verus! {

/// Yields `f(x)` for each item `x` of `it`, then the terminal value of `it`.
pub struct MapItems<I, F> {
    pub it: I,
    pub f: F,
}

/// One advance of `it` handed out an item whose image under `f` is `y`, and
/// reached `it2`.
pub open spec fn maps_to<I: TerminalMoveIterator, U, F: Fn(I::Item) -> U>(it: I, f: F, it2: I, y: U) -> bool {
    exists|x: I::Item| #[trigger] it.advances_to(Iteration::Next(it2, x)) && f.ensures((x,), y)
}

impl<I: TerminalMoveIterator, U, F: Fn(I::Item) -> U> MapItems<I, F> {
    pub fn new(it: I, f: F) -> (r: Self)
        ensures
            r.it == it,
            r.f == f,
            r.wf() <==> (it.wf() && forall|x: I::Item| #[trigger] f.requires((x,))),
            r.decrease() == it.decrease(),
    {
        MapItems { it, f }
    }
}

impl<I: TerminalMoveIterator, U, F: Fn(I::Item) -> U> TerminalMoveIterator for MapItems<I, F> {
    type Item = U;

    type Terminal = I::Terminal;

    open spec fn wf(&self) -> bool {
        self.it.wf() && forall|x: I::Item| #[trigger] self.f.requires((x,))
    }

    open spec fn decrease(&self) -> Option<nat> {
        self.it.decrease()
    }

    open spec fn advances_to(&self, r: Iteration<Self, U, I::Terminal>) -> bool {
        match r {
            Iteration::Next(s, y) => s.f == self.f && maps_to(self.it, self.f, s.it, y),
            Iteration::Terminal(t) => self.it.advances_to(Iteration::Terminal(t)),
        }
    }

    fn into_next(self) -> (r: Iteration<Self, U, I::Terminal>) {
        let MapItems { it, f } = self;
        let ghost g = it;
        match it.into_next() {
            Iteration::Next(it2, x) => {
                let y = f(x);
                assert(g.advances_to(Iteration::Next(it2, x)));
                Iteration::Next(MapItems { it: it2, f }, y)
            },
            Iteration::Terminal(t) => Iteration::Terminal(t),
        }
    }
}

} // verus!
