//! Keeps the items that a predicate accepts.
use vstd::prelude::*;
use crate::iteration::Iteration;
use crate::terminal::{TerminalMoveIterator, runs, lemma_runs_push};

verus! {

/// Yields the items of `it` that `f` accepts, then the terminal value of `it`.
/// One advance may pass over many items, so `it` must be known to end.
pub struct Filter<I, F> {
    pub it: I,
    pub f: F,
}

/// `f` gave `b` on each item of `xs`.
pub open spec fn all_judged<X, F: Fn(&X) -> bool>(f: F, xs: Seq<X>, b: bool) -> bool {
    forall|i: int| 0 <= i < xs.len() ==> #[trigger] f.ensures((&xs[i],), b)
}

/// From `it`, items that `f` gives `b` on may be passed over until an
/// advance hands out `x`, on which `f` gives `!b`, and reaches `it2`.
pub open spec fn scans_to<I: TerminalMoveIterator, F: Fn(&I::Item) -> bool>(
    it: I,
    f: F,
    b: bool,
    it2: I,
    x: I::Item,
) -> bool {
    exists|xs: Seq<I::Item>, m: I|
        #[trigger] runs(it, xs, m) && all_judged(f, xs, b) && m.advances_to(Iteration::Next(it2, x))
            && f.ensures((&x,), !b)
}

/// From `it`, items that `f` gives `b` on may be passed over until `it`
/// ends with `t`.
pub open spec fn scans_to_end<I: TerminalMoveIterator, F: Fn(&I::Item) -> bool>(
    it: I,
    f: F,
    b: bool,
    t: I::Terminal,
) -> bool {
    exists|xs: Seq<I::Item>, m: I|
        #[trigger] runs(it, xs, m) && all_judged(f, xs, b) && m.advances_to(Iteration::Terminal(t))
}

/// Advances `it` past the items that `f` gives `b` on, and hands back the
/// first item that it does not, with the state after it, or the terminal.
pub(crate) fn scan<I: TerminalMoveIterator, F: Fn(&I::Item) -> bool>(it: I, f: &F, b: bool) -> (r:
    Iteration<I, I::Item, I::Terminal>)
    requires
        it.wf(),
        it.decrease() is Some,
        forall|x: I::Item| #[trigger] f.requires((&x,)),
    ensures
        match r {
            Iteration::Next(it2, x) => scans_to(it, *f, b, it2, x) && it2.wf() && (
            it2.decrease() matches Some(e) && e < it.decrease()->0),
            Iteration::Terminal(t) => scans_to_end(it, *f, b, t),
        },
{
    let ghost start = it;
    let ghost mut seen: Seq<I::Item> = Seq::empty();
    let mut state = it;
    loop
        invariant
            start == it,
            state.wf(),
            state.decrease() matches Some(e) && e <= start.decrease()->0,
            runs(start, seen, state),
            all_judged(*f, seen, b),
            forall|x: I::Item| #[trigger] f.requires((&x,)),
        decreases state.decrease()->0,
    {
        let ghost before = state;
        match state.into_next() {
            Iteration::Next(s, x) => {
                if f(&x) == b {
                    proof {
                        lemma_runs_push(start, seen, before, s, x);
                        assert(all_judged(*f, seen.push(x), b)) by {
                            assert forall|i: int| 0 <= i < seen.push(x).len() implies #[trigger] f.ensures(
                                (&seen.push(x)[i],),
                                b,
                            ) by {
                                if i < seen.len() {
                                    assert(seen.push(x)[i] == seen[i]);
                                }
                            }
                        }
                        seen = seen.push(x);
                    }
                    state = s;
                } else {
                    assert(runs(start, seen, before) && before.advances_to(Iteration::Next(s, x)));
                    return Iteration::Next(s, x);
                }
            },
            Iteration::Terminal(t) => {
                assert(runs(start, seen, before) && before.advances_to(Iteration::Terminal(t)));
                return Iteration::Terminal(t);
            },
        }
    }
}

impl<I: TerminalMoveIterator, F: Fn(&I::Item) -> bool> Filter<I, F> {
    pub fn new(it: I, f: F) -> (r: Self)
        ensures
            r.it == it,
            r.f == f,
            r.wf() <==> (it.wf() && it.decrease() is Some && forall|x: I::Item|
                #[trigger] f.requires((&x,))),
            r.decrease() == it.decrease(),
    {
        Filter { it, f }
    }
}

impl<I: TerminalMoveIterator, F: Fn(&I::Item) -> bool> TerminalMoveIterator for Filter<I, F> {
    type Item = I::Item;

    type Terminal = I::Terminal;

    open spec fn wf(&self) -> bool {
        &&& self.it.wf()
        &&& self.it.decrease() is Some
        &&& forall|x: I::Item| #[trigger] self.f.requires((&x,))
    }

    open spec fn decrease(&self) -> Option<nat> {
        self.it.decrease()
    }

    open spec fn advances_to(&self, r: Iteration<Self, I::Item, I::Terminal>) -> bool {
        match r {
            Iteration::Next(s, x) => s.f == self.f && scans_to(self.it, self.f, false, s.it, x),
            Iteration::Terminal(t) => scans_to_end(self.it, self.f, false, t),
        }
    }

    fn into_next(self) -> (r: Iteration<Self, I::Item, I::Terminal>) {
        let Filter { it, f } = self;
        match scan(it, &f, false) {
            Iteration::Next(it2, x) => Iteration::Next(Filter { it: it2, f }, x),
            Iteration::Terminal(t) => Iteration::Terminal(t),
        }
    }
}

} // verus!
