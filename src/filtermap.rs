//! Keeps and transforms the items for which a function gives a value.
use vstd::prelude::*;
use crate::iteration::Iteration;
use crate::terminal::{TerminalMoveIterator, runs, lemma_runs_push};

verus! {

/// Yields `u` for each item `x` of `it` on which `f(x)` is `Some(u)`, passing
/// over those on which it is `None`, then the terminal value of `it`. One
/// advance may pass over many items, so `it` must be known to end.
pub struct FilterMap<I, F> {
    pub it: I,
    pub f: F,
}

/// `f` gave `None` on each item of `xs`.
pub open spec fn all_dropped<X, U, F: Fn(X) -> Option<U>>(f: F, xs: Seq<X>) -> bool {
    forall|i: int| 0 <= i < xs.len() ==> #[trigger] f.ensures((xs[i],), None::<U>)
}

/// From `it`, items that `f` drops may be passed over until an advance hands
/// out an item that `f` maps to `Some(u)`, and reaches `it2`.
pub open spec fn keeps<I: TerminalMoveIterator, U, F: Fn(I::Item) -> Option<U>>(
    it: I,
    f: F,
    it2: I,
    u: U,
) -> bool {
    exists|xs: Seq<I::Item>, m: I, x: I::Item|
        #[trigger] runs(it, xs, m) && all_dropped(f, xs) && #[trigger] m.advances_to(
            Iteration::Next(it2, x),
        ) && f.ensures((x,), Some(u))
}

/// From `it`, items that `f` drops may be passed over until `it` ends with
/// `t`.
pub open spec fn drops_to_end<I: TerminalMoveIterator, U, F: Fn(I::Item) -> Option<U>>(
    it: I,
    f: F,
    t: I::Terminal,
) -> bool {
    exists|xs: Seq<I::Item>, m: I|
        #[trigger] runs(it, xs, m) && all_dropped(f, xs) && m.advances_to(Iteration::Terminal(t))
}

impl<I: TerminalMoveIterator, U, F: Fn(I::Item) -> Option<U>> FilterMap<I, F> {
    pub fn new(it: I, f: F) -> (r: Self)
        ensures
            r.it == it,
            r.f == f,
            r.wf() <==> (it.wf() && it.decrease() is Some && forall|x: I::Item|
                #[trigger] f.requires((x,))),
            r.decrease() == it.decrease(),
    {
        FilterMap { it, f }
    }
}

impl<I: TerminalMoveIterator, U, F: Fn(I::Item) -> Option<U>> TerminalMoveIterator for FilterMap<
    I,
    F,
> {
    type Item = U;

    type Terminal = I::Terminal;

    open spec fn wf(&self) -> bool {
        &&& self.it.wf()
        &&& self.it.decrease() is Some
        &&& forall|x: I::Item| #[trigger] self.f.requires((x,))
    }

    open spec fn decrease(&self) -> Option<nat> {
        self.it.decrease()
    }

    open spec fn advances_to(&self, r: Iteration<Self, U, I::Terminal>) -> bool {
        match r {
            Iteration::Next(s, u) => s.f == self.f && keeps(self.it, self.f, s.it, u),
            Iteration::Terminal(t) => drops_to_end(self.it, self.f, t),
        }
    }

    fn into_next(self) -> (r: Iteration<Self, U, I::Terminal>) {
        let FilterMap { it, f } = self;
        let ghost start = it;
        let ghost mut seen: Seq<I::Item> = Seq::empty();
        let mut state = it;
        loop
            invariant
                start == self.it,
                f == self.f,
                state.wf(),
                state.decrease() matches Some(e) && e <= start.decrease()->0,
                runs(start, seen, state),
                all_dropped(f, seen),
                forall|x: I::Item| #[trigger] f.requires((x,)),
            decreases state.decrease()->0,
        {
            let ghost before = state;
            match state.into_next() {
                Iteration::Next(s, x) => {
                    let ghost gx = x;
                    match f(x) {
                        Some(u) => {
                            assert(runs(start, seen, before) && before.advances_to(
                                Iteration::Next(s, gx),
                            ));
                            return Iteration::Next(FilterMap { it: s, f }, u);
                        },
                        None => {
                            proof {
                                lemma_runs_push(start, seen, before, s, gx);
                                assert(all_dropped(f, seen.push(gx))) by {
                                    assert forall|i: int| 0 <= i < seen.push(gx).len() implies #[trigger] f.ensures(
                                        (seen.push(gx)[i],),
                                        None::<U>,
                                    ) by {
                                        if i < seen.len() {
                                            assert(seen.push(gx)[i] == seen[i]);
                                        }
                                    }
                                }
                                seen = seen.push(gx);
                            }
                            state = s;
                        },
                    }
                },
                Iteration::Terminal(t) => {
                    assert(runs(start, seen, before) && before.advances_to(Iteration::Terminal(t)));
                    return Iteration::Terminal(t);
                },
            }
        }
    }
}

} // verus!
