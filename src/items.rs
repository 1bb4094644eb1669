//! A sequence lifted from the items of a vector.
use vstd::prelude::*;
use crate::iteration::Iteration;
use crate::finite::FiniteMoveIterator;
use crate::stditer::{TerminalStdIter, pulls};
use crate::terminal::{TerminalMoveIterator, runs, drains_to};

verus! {

/// Hands out the items of a vector in order, then ends (with `()` as a
/// terminal sequence, with `None` as a finite one).
pub struct VecItems<T> {
    /// The items still to come, last first.
    rev: Vec<T>,
}

impl<T> View for VecItems<T> {
    type V = Seq<T>;

    /// The items still to come, in order.
    closed spec fn view(&self) -> Seq<T> {
        reversed(self.rev@)
    }
}

spec fn reversed<T>(s: Seq<T>) -> Seq<T> {
    Seq::new(s.len(), |i: int| s[s.len() - 1 - i])
}

impl<T> VecItems<T> {
    /// Lifts the items of `v`, in order.
    pub fn from_vec(v: Vec<T>) -> (r: Self)
        ensures
            r@ == v@,
    {
        let ghost orig = v@;
        let mut v = v;
        let mut rev: Vec<T> = Vec::new();
        while v.len() > 0
            invariant
                v.len() <= orig.len(),
                v@ == orig.subrange(0, v.len() as int),
                reversed(rev@) == orig.subrange(v.len() as int, orig.len() as int),
            decreases v.len(),
        {
            let ghost n = v.len() as int;
            let ghost old_rev = rev@;
            assert(reversed(old_rev).len() == orig.len() - n);
            let x = v.pop().unwrap();
            rev.push(x);
            assert forall|i: int| 0 <= i < rev@.len() implies #[trigger] reversed(rev@)[i] == orig[n - 1 + i] by {
                if i > 0 {
                    assert(reversed(old_rev)[i - 1] == old_rev[old_rev.len() - i]);
                    assert(orig.subrange(n, orig.len() as int)[i - 1] == orig[n - 1 + i]);
                }
            }
            assert(reversed(rev@) =~= orig.subrange(n - 1, orig.len() as int));
            assert(v@ =~= orig.subrange(0, n - 1));
        }
        assert(orig.subrange(0, orig.len() as int) =~= orig);
        VecItems { rev }
    }

    /// The number of items still to come.
    pub fn len(&self) -> (r: usize)
        ensures
            r == self@.len(),
    {
        self.rev.len()
    }

    fn pop_front(self) -> (r: Option<(Self, T)>)
        ensures
            match r {
                Some((s, x)) => self@.len() > 0 && x == self@[0] && s@ == self@.drop_first(),
                None => self@.len() == 0,
            },
    {
        let mut rev = self.rev;
        match rev.pop() {
            Some(x) => {
                let s = VecItems { rev };
                assert(s@ =~= self@.drop_first());
                Some((s, x))
            },
            None => None,
        }
    }
}

impl<T> FiniteMoveIterator for VecItems<T> {
    type Item = T;

    open spec fn wf(&self) -> bool {
        true
    }

    open spec fn decrease(&self) -> Option<nat> {
        Some(self@.len())
    }

    open spec fn advances_to(&self, r: Option<(Self, T)>) -> bool {
        match r {
            Some((s, x)) => self@.len() > 0 && x == self@[0] && s@ == self@.drop_first(),
            None => self@.len() == 0,
        }
    }

    fn into_next(self) -> (r: Option<(Self, T)>) {
        self.pop_front()
    }
}

impl<T> TerminalMoveIterator for VecItems<T> {
    type Item = T;

    type Terminal = ();

    open spec fn wf(&self) -> bool {
        true
    }

    open spec fn decrease(&self) -> Option<nat> {
        Some(self@.len())
    }

    open spec fn advances_to(&self, r: Iteration<Self, T, ()>) -> bool {
        match r {
            Iteration::Next(s, x) => self@.len() > 0 && x == self@[0] && s@ == self@.drop_first(),
            Iteration::Terminal(_) => self@.len() == 0,
        }
    }

    fn into_next(self) -> (r: Iteration<Self, T, ()>) {
        match self.pop_front() {
            Some((s, x)) => Iteration::Next(s, x),
            None => Iteration::Terminal(()),
        }
    }
}

/// A run of advances hands out the leading items in order and leaves the
/// rest.
pub proof fn lemma_runs_items<T>(a: VecItems<T>, xs: Seq<T>, b: VecItems<T>)
    requires
        runs(a, xs, b),
    ensures
        xs.len() <= a@.len(),
        xs == a@.take(xs.len() as int),
        b@ == a@.skip(xs.len() as int),
    decreases xs.len(),
{
    if xs.len() == 0 {
        assert(a@.skip(0) =~= a@);
        assert(a@.take(0) =~= xs);
    } else {
        let m = choose|m: VecItems<T>|
            #[trigger] TerminalMoveIterator::advances_to(&a, Iteration::Next(m, xs[0])) && runs(
                m,
                xs.drop_first(),
                b,
            );
        lemma_runs_items(m, xs.drop_first(), b);
        assert(m@ == a@.drop_first());
        assert forall|i: int| 0 <= i < xs.len() implies xs[i] == a@[i] by {
            if i > 0 {
                assert(xs[i] == xs.drop_first()[i - 1]);
            }
        }
        assert(xs =~= a@.take(xs.len() as int));
        assert(b@ =~= a@.skip(xs.len() as int));
    }
}

/// Driving a lifted vector to its end hands out exactly its items, in order,
/// and then `()`.
pub proof fn lemma_items_drain<T>(src: VecItems<T>, xs: Seq<T>, t: ())
    requires
        drains_to(src, xs, t),
    ensures
        xs == src@,
{
    let m = choose|m: VecItems<T>|
        #[trigger] runs(src, xs, m) && TerminalMoveIterator::advances_to(&m, Iteration::Terminal(t));
    lemma_runs_items(src, xs, m);
    assert(xs =~= src@);
}

/// Lifting a vector's items into a sequence and pulling them back out one by
/// one gives the same items, in order, and as many.
pub proof fn lemma_round_trip<T>(src: VecItems<T>, xs: Seq<T>)
    requires
        pulls(TerminalStdIter(Some(src)), xs),
    ensures
        xs == src@,
    decreases xs.len(),
{
    if xs.len() > 0 {
        let s2 = choose|s2: VecItems<T>|
            #[trigger] TerminalMoveIterator::advances_to(&src, Iteration::Next(s2, xs[0])) && pulls(
                TerminalStdIter(Some(s2)),
                xs.drop_first(),
            );
        lemma_round_trip(s2, xs.drop_first());
        assert(s2@ == src@.drop_first());
        assert forall|i: int| 0 <= i < xs.len() implies xs[i] == src@[i] by {
            if i > 0 {
                assert(xs[i] == xs.drop_first()[i - 1]);
            }
        }
        assert(xs =~= src@);
    }
}

} // verus!
