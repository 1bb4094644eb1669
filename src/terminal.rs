//! Sequences that end with a typed terminal value.
use vstd::prelude::*;
use crate::iteration::Iteration;
use crate::stditer::TerminalStdIter;

verus! {

/// Produces zero or more items and then one terminal value; each advance
/// consumes the current state.
pub trait TerminalMoveIterator: Sized {
    type Item;

    type Terminal;

    /// The state may be advanced: the closures it holds accept every input
    /// they can be handed, and the states inside it may be advanced too.
    spec fn wf(&self) -> bool;

    /// A measure that falls with each item, where the sequence is known to
    /// end; `None` where it is not.
    spec fn decrease(&self) -> Option<nat>;

    /// `r` is an outcome that advancing this state may give.
    spec fn advances_to(&self, r: Iteration<Self, Self::Item, Self::Terminal>) -> bool;

    /// Consumes the state and hands back the next state with an item, or the
    /// terminal value.
    fn into_next(self) -> (r: Iteration<Self, Self::Item, Self::Terminal>)
        requires
            self.wf(),
        ensures
            self.advances_to(r),
            r matches Iteration::Next(s, _) ==> s.wf() && falls(self.decrease(), s.decrease()),
    ;

    /// Wraps the sequence for use where items are pulled one by one through
    /// a mutable reference.
    fn into_iter(self) -> (r: TerminalStdIter<Self>)
        ensures
            r.0 == Some(self),
    {
        TerminalStdIter(Some(self))
    }
}

/// The driving operations that every [`TerminalMoveIterator`] has.
pub trait TerminalMoveIteratorExt: TerminalMoveIterator {
    /// Drives the sequence to its end, discarding the items, and returns the
    /// terminal value.
    fn terminate(self) -> (t: Self::Terminal)
        requires
            self.wf(),
            self.decrease() is Some,
        ensures
            ends_with(self, t),
    {
        let ghost start = self;
        let ghost mut seen: Seq<Self::Item> = Seq::empty();
        let mut state = self;
        loop
            invariant
                start == self,
                state.wf(),
                state.decrease() is Some,
                runs(start, seen, state),
            decreases state.decrease()->0,
        {
            let ghost before = state;
            match state.into_next() {
                Iteration::Next(s, x) => {
                    proof {
                        lemma_runs_push(start, seen, before, s, x);
                        seen = seen.push(x);
                    }
                    state = s;
                },
                Iteration::Terminal(t) => {
                    assert(drains_to(start, seen, t));
                    return t;
                },
            }
        }
    }

    /// Calls `f` on each item in turn, then returns the terminal value.
    fn for_each<F>(self, f: F) -> (t: Self::Terminal) where F: FnMut(Self::Item)
        requires
            self.wf(),
            self.decrease() is Some,
            forall|x: Self::Item| #[trigger] f.requires((x,)),
        ensures
            ends_with(self, t),
    {
        let ghost start = self;
        let ghost mut seen: Seq<Self::Item> = Seq::empty();
        let mut state = self;
        let mut f = f;
        loop
            invariant
                start == self,
                state.wf(),
                state.decrease() is Some,
                runs(start, seen, state),
                forall|x: Self::Item| #[trigger] f.requires((x,)),
            decreases state.decrease()->0,
        {
            let ghost before = state;
            match state.into_next() {
                Iteration::Next(s, x) => {
                    proof {
                        lemma_runs_push(start, seen, before, s, x);
                        seen = seen.push(x);
                    }
                    f(x);
                    state = s;
                },
                Iteration::Terminal(t) => {
                    assert(drains_to(start, seen, t));
                    return t;
                },
            }
        }
    }

    /// Folds each item into an accumulator with `fitem`, then combines the
    /// last accumulator with the terminal value in `fterm`.
    fn fold<A, F, G, R>(self, acc: A, fitem: F, fterm: G) -> (r: R) where
        F: Fn(A, Self::Item) -> A,
        G: FnOnce(A, Self::Terminal) -> R,

        requires
            self.wf(),
            self.decrease() is Some,
            forall|a: A, x: Self::Item| #[trigger] fitem.requires((a, x)),
            forall|a: A, t: Self::Terminal| #[trigger] fterm.requires((a, t)),
        ensures
            exists|xs: Seq<Self::Item>, t: Self::Terminal, last: A|
                #[trigger] drains_to(self, xs, t) && #[trigger] folds_to(fitem, acc, xs, last)
                    && fterm.ensures((last, t), r),
    {
        let ghost start = self;
        let ghost acc0 = acc;
        let ghost mut seen: Seq<Self::Item> = Seq::empty();
        let mut state = self;
        let mut cur = acc;
        loop
            invariant
                start == self,
                state.wf(),
                state.decrease() is Some,
                runs(start, seen, state),
                acc0 == acc,
                folds_to(fitem, acc0, seen, cur),
                forall|a: A, x: Self::Item| #[trigger] fitem.requires((a, x)),
                forall|a: A, t: Self::Terminal| #[trigger] fterm.requires((a, t)),
            decreases state.decrease()->0,
        {
            let ghost before = state;
            let ghost acc_before = cur;
            match state.into_next() {
                Iteration::Next(s, x) => {
                    cur = fitem(cur, x);
                    proof {
                        lemma_runs_push(start, seen, before, s, x);
                        lemma_folds_push(fitem, acc0, seen, acc_before, x, cur);
                        seen = seen.push(x);
                    }
                    state = s;
                },
                Iteration::Terminal(t) => {
                    let r = fterm(cur, t);
                    assert(drains_to(start, seen, t));
                    return r;
                },
            }
        }
    }
}

impl<I: TerminalMoveIterator> TerminalMoveIteratorExt for I {}

/// The measure `after` is below `before`, where `before` is known.
pub open spec fn falls(before: Option<nat>, after: Option<nat>) -> bool {
    before matches Some(d) ==> (after matches Some(e) && e < d)
}

/// From state `a`, advancing once per item of `xs` may hand out exactly those
/// items and reach state `b`.
pub open spec fn runs<I: TerminalMoveIterator>(a: I, xs: Seq<I::Item>, b: I) -> bool
    decreases xs.len(),
{
    if xs.len() == 0 {
        a == b
    } else {
        exists|m: I| #[trigger] a.advances_to(Iteration::Next(m, xs[0])) && runs(m, xs.drop_first(), b)
    }
}

/// Driving `a` to its end may hand out exactly the items `xs` and then the
/// terminal value `t`.
pub open spec fn drains_to<I: TerminalMoveIterator>(a: I, xs: Seq<I::Item>, t: I::Terminal) -> bool {
    exists|m: I| #[trigger] runs(a, xs, m) && m.advances_to(Iteration::Terminal(t))
}

/// Driving `a` to its end may give the terminal value `t`.
pub open spec fn ends_with<I: TerminalMoveIterator>(a: I, t: I::Terminal) -> bool {
    exists|xs: Seq<I::Item>| #[trigger] drains_to(a, xs, t)
}

/// Folding the items `xs` into `acc` with `f`, one call each, may give `last`.
pub open spec fn folds_to<A, X, F: Fn(A, X) -> A>(f: F, acc: A, xs: Seq<X>, last: A) -> bool
    decreases xs.len(),
{
    if xs.len() == 0 {
        acc == last
    } else {
        exists|b: A| #[trigger] f.ensures((acc, xs[0]), b) && folds_to(f, b, xs.drop_first(), last)
    }
}

/// A run extended by one more advance is a run.
pub proof fn lemma_runs_push<I: TerminalMoveIterator>(a: I, xs: Seq<I::Item>, b: I, c: I, x: I::Item)
    requires
        runs(a, xs, b),
        b.advances_to(Iteration::Next(c, x)),
    ensures
        runs(a, xs.push(x), c),
    decreases xs.len(),
{
    if xs.len() == 0 {
        assert(xs.push(x).drop_first() =~= Seq::<I::Item>::empty());
        assert(runs(c, Seq::<I::Item>::empty(), c));
        assert(a.advances_to(Iteration::Next(c, xs.push(x)[0])));
    } else {
        let m = choose|m: I| #[trigger] a.advances_to(Iteration::Next(m, xs[0])) && runs(m, xs.drop_first(), b);
        lemma_runs_push(m, xs.drop_first(), b, c, x);
        assert(xs.push(x).drop_first() =~= xs.drop_first().push(x));
        assert(a.advances_to(Iteration::Next(m, xs.push(x)[0])));
    }
}

/// A fold extended by one more call is a fold.
pub proof fn lemma_folds_push<A, X, F: Fn(A, X) -> A>(f: F, acc: A, xs: Seq<X>, last: A, x: X, next: A)
    requires
        folds_to(f, acc, xs, last),
        f.ensures((last, x), next),
    ensures
        folds_to(f, acc, xs.push(x), next),
    decreases xs.len(),
{
    if xs.len() == 0 {
        assert(xs.push(x).drop_first() =~= Seq::<X>::empty());
        assert(folds_to(f, next, Seq::<X>::empty(), next));
    } else {
        let b = choose|b: A| #[trigger] f.ensures((acc, xs[0]), b) && folds_to(f, b, xs.drop_first(), last);
        lemma_folds_push(f, b, xs.drop_first(), last, x, next);
        assert(xs.push(x).drop_first() =~= xs.drop_first().push(x));
        assert(xs.push(x)[0] == xs[0]);
    }
}

} // verus!
