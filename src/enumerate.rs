//! Pairs each item with its index.
use vstd::prelude::*;
use crate::iteration::Iteration;
use crate::terminal::{TerminalMoveIterator, runs, drains_to};
use crate::items::VecItems;

verus! {

/// Yields `(i, x)` for the `i`-th item `x` of `t`, counting from `ix`, then
/// the terminal value of `t`. The inner sequence must be known to end
/// before its indices would overflow a `usize`.
pub struct Enumerate<T> {
    pub t: T,
    pub ix: usize,
}

impl<T: TerminalMoveIterator> Enumerate<T> {
    pub fn new(t: T) -> (r: Self)
        ensures
            r == (Enumerate { t, ix: 0 }),
            r.wf() <==> (t.wf() && (t.decrease() matches Some(d) && d <= usize::MAX)),
            r.decrease() == t.decrease(),
    {
        Enumerate { t, ix: 0 }
    }
}

impl<T: TerminalMoveIterator> TerminalMoveIterator for Enumerate<T> {
    type Item = (usize, T::Item);

    type Terminal = T::Terminal;

    /// Every index still to come fits in a `usize`.
    open spec fn wf(&self) -> bool {
        self.t.wf() && (self.t.decrease() matches Some(d) && self.ix + d <= usize::MAX)
    }

    open spec fn decrease(&self) -> Option<nat> {
        self.t.decrease()
    }

    open spec fn advances_to(&self, r: Iteration<Self, (usize, T::Item), T::Terminal>) -> bool {
        match r {
            Iteration::Next(s, (i, x)) => i == self.ix && s.ix == self.ix + 1 && self.t.advances_to(
                Iteration::Next(s.t, x),
            ),
            Iteration::Terminal(tt) => self.t.advances_to(Iteration::Terminal(tt)),
        }
    }

    fn into_next(self) -> (r: Iteration<Self, (usize, T::Item), T::Terminal>) {
        let Enumerate { t, ix } = self;
        match t.into_next() {
            Iteration::Next(t2, x) => Iteration::Next(Enumerate { t: t2, ix: ix + 1 }, (ix, x)),
            Iteration::Terminal(tt) => Iteration::Terminal(tt),
        }
    }
}

/// A run of an enumerated lifted vector, counting from `k`, pairs each item
/// with its position after `k`.
proof fn lemma_enumerate_runs<T>(a: VecItems<T>, k: usize, ys: Seq<(usize, T)>, m: Enumerate<VecItems<T>>)
    requires
        runs(Enumerate { t: a, ix: k }, ys, m),
    ensures
        ys.len() <= a@.len(),
        m.t@ == a@.skip(ys.len() as int),
        m.ix == k + ys.len(),
        forall|i: int| 0 <= i < ys.len() ==> #[trigger] ys[i] == ((k + i) as usize, a@[i]),
    decreases ys.len(),
{
    let e = Enumerate { t: a, ix: k };
    if ys.len() == 0 {
        assert(a@.skip(0) =~= a@);
    } else {
        let e1 = choose|e1: Enumerate<VecItems<T>>|
            #[trigger] e.advances_to(Iteration::Next(e1, ys[0])) && runs(e1, ys.drop_first(), m);
        lemma_enumerate_runs(e1.t, e1.ix, ys.drop_first(), m);
        assert(e1 == Enumerate { t: e1.t, ix: e1.ix });
        assert(e1.t@ == a@.drop_first());
        assert(a@.drop_first().skip(ys.len() - 1) =~= a@.skip(ys.len() as int));
        assert forall|i: int| 0 <= i < ys.len() implies #[trigger] ys[i] == ((k + i) as usize, a@[i]) by {
            if i > 0 {
                assert(ys[i] == ys.drop_first()[i - 1]);
            }
        }
    }
}

/// Enumerating a lifted vector pairs each of its items with its position,
/// in order, and then ends with `()`.
pub proof fn lemma_enumerate_drain<T>(src: VecItems<T>, ys: Seq<(usize, T)>, t: ())
    requires
        drains_to(Enumerate { t: src, ix: 0 }, ys, t),
    ensures
        ys.len() == src@.len(),
        forall|i: int| 0 <= i < ys.len() ==> #[trigger] ys[i] == (i as usize, src@[i]),
{
    let m = choose|m: Enumerate<VecItems<T>>|
        #[trigger] runs(Enumerate { t: src, ix: 0 }, ys, m) && m.advances_to(Iteration::Terminal(t));
    lemma_enumerate_runs(src, 0, ys, m);
    assert(TerminalMoveIterator::advances_to(&m.t, Iteration::Terminal(t)));
    assert(forall|i: int| 0 <= i < ys.len() ==> #[trigger] ys[i] == ((0 + i) as usize, src@[i]));
}

} // verus!
