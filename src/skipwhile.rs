//! Passes over the leading items that a predicate accepts.
use vstd::prelude::*;
use crate::iteration::Iteration;
use crate::terminal::TerminalMoveIterator;
use crate::filter::{scan, scans_to, scans_to_end};

verus! {

/// Passes over the items of the inner sequence while the predicate accepts
/// them, then yields the first item it rejects and every item after it,
/// without asking the predicate again. While skipping, the inner sequence
/// must be known to end.
pub enum SkipWhile<I, F> {
    Skipping(I, F),
    Latched(I),
}

/// `it` may be advanced and is known to end, and `f` accepts every item.
pub open spec fn skippable<I: TerminalMoveIterator, F: Fn(&I::Item) -> bool>(it: I, f: F) -> bool {
    it.wf() && it.decrease() is Some && forall|x: I::Item| #[trigger] f.requires((&x,))
}

impl<I: TerminalMoveIterator, F: Fn(&I::Item) -> bool> SkipWhile<I, F> {
    pub fn new(it: I, f: F) -> (r: Self)
        ensures
            r == SkipWhile::Skipping(it, f),
            r.wf() <==> (it.wf() && it.decrease() is Some && forall|x: I::Item|
                #[trigger] f.requires((&x,))),
            r.decrease() == it.decrease(),
    {
        SkipWhile::Skipping(it, f)
    }
}

impl<I: TerminalMoveIterator, F: Fn(&I::Item) -> bool> TerminalMoveIterator for SkipWhile<I, F> {
    type Item = I::Item;

    type Terminal = I::Terminal;

    open spec fn wf(&self) -> bool {
        match self {
            SkipWhile::Skipping(it, f) => skippable(*it, *f),
            SkipWhile::Latched(it) => it.wf(),
        }
    }

    open spec fn decrease(&self) -> Option<nat> {
        match self {
            SkipWhile::Skipping(it, _) => it.decrease(),
            SkipWhile::Latched(it) => it.decrease(),
        }
    }

    open spec fn advances_to(&self, r: Iteration<Self, I::Item, I::Terminal>) -> bool {
        match self {
            SkipWhile::Skipping(it, f) => match r {
                Iteration::Next(SkipWhile::Latched(it2), x) => scans_to(*it, *f, true, it2, x),
                Iteration::Next(SkipWhile::Skipping(_, _), _) => false,
                Iteration::Terminal(t) => scans_to_end(*it, *f, true, t),
            },
            SkipWhile::Latched(it) => match r {
                Iteration::Next(SkipWhile::Latched(it2), x) => it.advances_to(Iteration::Next(it2, x)),
                Iteration::Next(SkipWhile::Skipping(_, _), _) => false,
                Iteration::Terminal(t) => it.advances_to(Iteration::Terminal(t)),
            },
        }
    }

    fn into_next(self) -> (r: Iteration<Self, I::Item, I::Terminal>) {
        match self {
            SkipWhile::Skipping(it, f) => match scan(it, &f, true) {
                Iteration::Next(it2, x) => Iteration::Next(SkipWhile::Latched(it2), x),
                Iteration::Terminal(t) => Iteration::Terminal(t),
            },
            SkipWhile::Latched(it) => match it.into_next() {
                Iteration::Next(it2, x) => Iteration::Next(SkipWhile::Latched(it2), x),
                Iteration::Terminal(t) => Iteration::Terminal(t),
            },
        }
    }
}

} // verus!
