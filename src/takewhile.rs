//! Yields the leading items that a predicate accepts.
use vstd::prelude::*;
use crate::iteration::Iteration;
use crate::terminal::{TerminalMoveIterator, TerminalMoveIteratorExt, ends_with};

verus! {

/// Yields the items of the inner sequence while the predicate accepts them.
/// At the first item it rejects, that item is dropped, the rest of the inner
/// sequence is driven to its end, and its terminal value ends this one; so
/// the inner sequence must be known to end.
pub struct TakeWhile<I, F>(pub I, pub F);

/// `it` hands out an item that `f` rejects, and the state after it may end
/// with `t`.
pub open spec fn cut_to<I: TerminalMoveIterator, F: Fn(&I::Item) -> bool>(it: I, f: F, t: I::Terminal) -> bool {
    exists|it2: I, x: I::Item|
        #[trigger] it.advances_to(Iteration::Next(it2, x)) && f.ensures((&x,), false) && ends_with(it2, t)
}

impl<I: TerminalMoveIterator, F: Fn(&I::Item) -> bool> TakeWhile<I, F> {
    pub fn new(it: I, f: F) -> (r: Self)
        ensures
            r.0 == it,
            r.1 == f,
            r.wf() <==> (it.wf() && it.decrease() is Some && forall|x: I::Item|
                #[trigger] f.requires((&x,))),
            r.decrease() == it.decrease(),
    {
        TakeWhile(it, f)
    }
}

impl<I: TerminalMoveIterator, F: Fn(&I::Item) -> bool> TerminalMoveIterator for TakeWhile<I, F> {
    type Item = I::Item;

    type Terminal = I::Terminal;

    open spec fn wf(&self) -> bool {
        &&& self.0.wf()
        &&& self.0.decrease() is Some
        &&& forall|x: I::Item| #[trigger] self.1.requires((&x,))
    }

    open spec fn decrease(&self) -> Option<nat> {
        self.0.decrease()
    }

    open spec fn advances_to(&self, r: Iteration<Self, I::Item, I::Terminal>) -> bool {
        match r {
            Iteration::Next(s, x) => s.1 == self.1 && self.0.advances_to(Iteration::Next(s.0, x))
                && self.1.ensures((&x,), true),
            Iteration::Terminal(t) => self.0.advances_to(Iteration::Terminal(t)) || cut_to(
                self.0,
                self.1,
                t,
            ),
        }
    }

    fn into_next(self) -> (r: Iteration<Self, I::Item, I::Terminal>) {
        let TakeWhile(it, f) = self;
        let ghost g = it;
        match it.into_next() {
            Iteration::Next(it2, x) => {
                if f(&x) {
                    Iteration::Next(TakeWhile(it2, f), x)
                } else {
                    let ghost g2 = it2;
                    let t = it2.terminate();
                    assert(g.advances_to(Iteration::Next(g2, x)) && ends_with(g2, t));
                    Iteration::Terminal(t)
                }
            },
            Iteration::Terminal(t) => Iteration::Terminal(t),
        }
    }
}

} // verus!
