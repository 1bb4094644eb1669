//! Runs one sequence after another.
use vstd::prelude::*;
use crate::iteration::Iteration;
use crate::terminal::{TerminalMoveIterator, runs, drains_to};
use crate::items::VecItems;

verus! {

/// Yields the items of `t`, then those of `u`, and ends with the pair of
/// their terminal values.
pub enum Chain<T: TerminalMoveIterator, U: TerminalMoveIterator<Item = T::Item>> {
    /// Still in `t`, with `u` waiting.
    InT(T, U),
    /// `t` ended with the value held here; now in `u`.
    InU(T::Terminal, U),
}

impl<T: TerminalMoveIterator, U: TerminalMoveIterator<Item = T::Item>> Chain<T, U> {
    pub fn new(t: T, u: U) -> (r: Self)
        ensures
            r == Chain::InT(t, u),
            r.wf() <==> (t.wf() && u.wf()),
    {
        Chain::InT(t, u)
    }
}

impl<T: TerminalMoveIterator, U: TerminalMoveIterator<Item = T::Item>> TerminalMoveIterator for Chain<
    T,
    U,
> {
    type Item = T::Item;

    type Terminal = (T::Terminal, U::Terminal);

    open spec fn wf(&self) -> bool {
        match self {
            Chain::InT(t, u) => t.wf() && u.wf(),
            Chain::InU(_, u) => u.wf(),
        }
    }

    open spec fn decrease(&self) -> Option<nat> {
        match self {
            Chain::InT(t, u) => match (t.decrease(), u.decrease()) {
                (Some(d), Some(e)) => Some(d + e + 1),
                _ => None,
            },
            Chain::InU(_, u) => u.decrease(),
        }
    }

    open spec fn advances_to(&self, r: Iteration<Self, T::Item, (T::Terminal, U::Terminal)>) -> bool {
        match self {
            Chain::InT(t, u) => match r {
                Iteration::Next(Chain::InT(t2, u2), x) => u2 == *u && t.advances_to(
                    Iteration::Next(t2, x),
                ),
                Iteration::Next(Chain::InU(tt, u2), x) => t.advances_to(Iteration::Terminal(tt))
                    && u.advances_to(Iteration::Next(u2, x)),
                Iteration::Terminal((tt, ut)) => t.advances_to(Iteration::Terminal(tt))
                    && u.advances_to(Iteration::Terminal(ut)),
            },
            Chain::InU(tt, u) => match r {
                Iteration::Next(Chain::InU(tt2, u2), x) => tt2 == *tt && u.advances_to(
                    Iteration::Next(u2, x),
                ),
                Iteration::Next(Chain::InT(_, _), _) => false,
                Iteration::Terminal((tt2, ut)) => tt2 == *tt && u.advances_to(
                    Iteration::Terminal(ut),
                ),
            },
        }
    }

    fn into_next(self) -> (r: Iteration<Self, T::Item, (T::Terminal, U::Terminal)>) {
        match self {
            Chain::InT(t, u) => match t.into_next() {
                Iteration::Next(t2, x) => Iteration::Next(Chain::InT(t2, u), x),
                Iteration::Terminal(tt) => match u.into_next() {
                    Iteration::Next(u2, y) => Iteration::Next(Chain::InU(tt, u2), y),
                    Iteration::Terminal(ut) => Iteration::Terminal((tt, ut)),
                },
            },
            Chain::InU(tt, u) => match u.into_next() {
                Iteration::Next(u2, y) => Iteration::Next(Chain::InU(tt, u2), y),
                Iteration::Terminal(ut) => Iteration::Terminal((tt, ut)),
            },
        }
    }
}

/// What a chain of two lifted vectors has still to yield.
spec fn pending<T>(s: Chain<VecItems<T>, VecItems<T>>) -> Seq<T> {
    match s {
        Chain::InT(a, b) => a@ + b@,
        Chain::InU(_, b) => b@,
    }
}

proof fn lemma_runs_pending<T>(a: Chain<VecItems<T>, VecItems<T>>, ys: Seq<T>, m: Chain<VecItems<T>, VecItems<T>>)
    requires
        runs(a, ys, m),
    ensures
        pending(a) == ys + pending(m),
    decreases ys.len(),
{
    if ys.len() == 0 {
        assert(ys + pending(m) =~= pending(m));
    } else {
        let a1 = choose|a1: Chain<VecItems<T>, VecItems<T>>|
            #[trigger] a.advances_to(Iteration::Next(a1, ys[0])) && runs(a1, ys.drop_first(), m);
        lemma_runs_pending(a1, ys.drop_first(), m);
        match a {
            Chain::InT(t, u) => match a1 {
                Chain::InT(t2, _) => {
                    assert(TerminalMoveIterator::advances_to(&t, Iteration::Next(t2, ys[0])));
                    assert(pending(a) =~= seq![ys[0]] + pending(a1));
                },
                Chain::InU(tt, u2) => {
                    assert(TerminalMoveIterator::advances_to(&t, Iteration::Terminal(tt)));
                    assert(TerminalMoveIterator::advances_to(&u, Iteration::Next(u2, ys[0])));
                    assert(pending(a) =~= seq![ys[0]] + pending(a1));
                },
            },
            Chain::InU(_, u) => {
                let u2 = a1->InU_1;
                assert(TerminalMoveIterator::advances_to(&u, Iteration::Next(u2, ys[0])));
                assert(pending(a) =~= seq![ys[0]] + pending(a1));
            },
        }
        assert(pending(a) =~= ys + pending(m));
    }
}

/// Chaining two lifted vectors yields the items of the first, then those of
/// the second, and ends with the pair of their terminal values.
pub proof fn lemma_chain_drain<T>(a: VecItems<T>, b: VecItems<T>, ys: Seq<T>, t: ((), ()))
    requires
        drains_to(Chain::InT(a, b), ys, t),
    ensures
        ys == a@ + b@,
{
    let s = Chain::InT(a, b);
    let m = choose|m: Chain<VecItems<T>, VecItems<T>>| #[trigger] runs(s, ys, m) && m.advances_to(Iteration::Terminal(t));
    lemma_runs_pending(s, ys, m);
    match m {
        Chain::InT(mt, mu) => {
            assert(TerminalMoveIterator::advances_to(&mt, Iteration::Terminal(t.0)));
            assert(TerminalMoveIterator::advances_to(&mu, Iteration::Terminal(t.1)));
        },
        Chain::InU(_, mu) => {
            assert(TerminalMoveIterator::advances_to(&mu, Iteration::Terminal(t.1)));
        },
    }
    assert(pending(m) =~= Seq::<T>::empty());
    assert(ys =~= a@ + b@);
}

} // verus!
