//! Sequences that end with no value.
use vstd::prelude::*;
use crate::terminal::falls;
use crate::adapters::{FmiAsIterator, FmiAsTerminal};

verus! {

/// Produces zero or more items and then nothing; each advance consumes the
/// current state.
pub trait FiniteMoveIterator: Sized {
    type Item;

    /// The state may be advanced.
    spec fn wf(&self) -> bool;

    /// A measure that falls with each item, where the sequence is known to
    /// end; `None` where it is not.
    spec fn decrease(&self) -> Option<nat>;

    /// `r` is an outcome that advancing this state may give.
    spec fn advances_to(&self, r: Option<(Self, Self::Item)>) -> bool;

    /// Consumes the state and hands back the next state with an item, or
    /// `None` at the end.
    fn into_next(self) -> (r: Option<(Self, Self::Item)>)
        requires
            self.wf(),
        ensures
            self.advances_to(r),
            r matches Some((s, _)) ==> s.wf() && falls(self.decrease(), s.decrease()),
    ;

    /// Wraps the sequence for use where items are pulled one by one through
    /// a mutable reference.
    fn into_iter(self) -> (r: FmiAsIterator<Self>)
        ensures
            r.0 == Some(self),
    {
        FmiAsIterator(Some(self))
    }

    /// Presents the sequence as one that ends with the unit value.
    fn into_terminal_move_iterator(self) -> (r: FmiAsTerminal<Self>)
        ensures
            r.0 == self,
    {
        FmiAsTerminal(self)
    }
}

/// The driving operations that every [`FiniteMoveIterator`] has.
pub trait FiniteMoveIteratorExt: FiniteMoveIterator {
    /// Drives the sequence to its end and returns how many items it gave.
    fn count(self) -> (r: usize)
        requires
            self.wf(),
            self.decrease() matches Some(d) && d <= usize::MAX,
        ensures
            ends_after(self, r as nat),
    {
        let ghost start = self;
        let ghost mut seen: Seq<Self::Item> = Seq::empty();
        let mut state = self;
        let mut c: usize = 0;
        loop
            invariant
                start == self,
                state.wf(),
                c == seen.len(),
                state.decrease() matches Some(e) && c + e <= start.decrease()->0,
                start.decrease()->0 <= usize::MAX,
                finite_runs(start, seen, state),
            decreases state.decrease()->0,
        {
            let ghost before = state;
            match state.into_next() {
                Some((s, x)) => {
                    proof {
                        lemma_finite_runs_push(start, seen, before, s, x);
                        seen = seen.push(x);
                    }
                    c = c + 1;
                    state = s;
                },
                None => {
                    assert(finite_drains(start, seen));
                    return c;
                },
            }
        }
    }
}

impl<I: FiniteMoveIterator> FiniteMoveIteratorExt for I {}

/// From state `a`, advancing once per item of `xs` may hand out exactly those
/// items and reach state `b`.
pub open spec fn finite_runs<I: FiniteMoveIterator>(a: I, xs: Seq<I::Item>, b: I) -> bool
    decreases xs.len(),
{
    if xs.len() == 0 {
        a == b
    } else {
        exists|m: I| #[trigger] a.advances_to(Some((m, xs[0]))) && finite_runs(m, xs.drop_first(), b)
    }
}

/// Driving `a` to its end may hand out exactly the items `xs`.
pub open spec fn finite_drains<I: FiniteMoveIterator>(a: I, xs: Seq<I::Item>) -> bool {
    exists|m: I| #[trigger] finite_runs(a, xs, m) && m.advances_to(None)
}

/// Driving `a` to its end may hand out exactly `n` items.
pub open spec fn ends_after<I: FiniteMoveIterator>(a: I, n: nat) -> bool {
    exists|xs: Seq<I::Item>| xs.len() == n && #[trigger] finite_drains(a, xs)
}

/// A run extended by one more advance is a run.
pub proof fn lemma_finite_runs_push<I: FiniteMoveIterator>(a: I, xs: Seq<I::Item>, b: I, c: I, x: I::Item)
    requires
        finite_runs(a, xs, b),
        b.advances_to(Some((c, x))),
    ensures
        finite_runs(a, xs.push(x), c),
    decreases xs.len(),
{
    if xs.len() == 0 {
        assert(xs.push(x).drop_first() =~= Seq::<I::Item>::empty());
        assert(finite_runs(c, Seq::<I::Item>::empty(), c));
        assert(a.advances_to(Some((c, xs.push(x)[0]))));
    } else {
        let m = choose|m: I| #[trigger] a.advances_to(Some((m, xs[0]))) && finite_runs(m, xs.drop_first(), b);
        lemma_finite_runs_push(m, xs.drop_first(), b, c, x);
        assert(xs.push(x).drop_first() =~= xs.drop_first().push(x));
        assert(a.advances_to(Some((m, xs.push(x)[0]))));
    }
}

} // verus!
