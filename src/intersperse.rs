//! Places a separator between each two neighbouring items.
use vstd::prelude::*;
use crate::iteration::Iteration;
use crate::terminal::{TerminalMoveIterator, runs, drains_to};
use crate::items::VecItems;

verus! {

/// Yields the items of `t` with a clone of the separator between each two of
/// them, never after the last one, and then the terminal value of `t`.
pub enum Intersperse<T: TerminalMoveIterator> where T::Item: Clone {
    /// Nothing yielded yet.
    Start { t: T, sep: T::Item },
    /// An item was just yielded and the next one is already fetched: the
    /// separator comes next.
    SepThenItem { t: T, sep: T::Item, item: T::Item },
    /// A separator was just yielded: the fetched item comes next.
    ItemReady { t: T, sep: T::Item, item: T::Item },
    /// The inner sequence ended with `term`.
    Done { term: T::Terminal },
}

/// `s` is the state that follows an item once `t` has been advanced for the
/// item after it: a separator is pending, or `t` has ended.
pub open spec fn follows<T: TerminalMoveIterator>(t: T, sep: T::Item, s: Intersperse<T>) -> bool where
    T::Item: Clone,
{
    match s {
        Intersperse::SepThenItem { t: t2, sep: sep2, item } => sep2 == sep && t.advances_to(
            Iteration::Next(t2, item),
        ),
        Intersperse::Done { term } => t.advances_to(Iteration::Terminal(term)),
        _ => false,
    }
}

/// From `t`, the first item is `x` and `s` is the state that follows it.
pub open spec fn starts<T: TerminalMoveIterator>(t: T, sep: T::Item, s: Intersperse<T>, x: T::Item) -> bool where
    T::Item: Clone,
{
    exists|t2: T| #[trigger] t.advances_to(Iteration::Next(t2, x)) && follows(t2, sep, s)
}

impl<T: TerminalMoveIterator> Intersperse<T> where T::Item: Clone {
    pub fn new(t: T, sep: T::Item) -> (r: Self)
        ensures
            r == (Intersperse::Start { t, sep }),
            r.wf() <==> t.wf(),
    {
        Intersperse::Start { t, sep }
    }

    fn follow_item(t: T, sep: T::Item, item: T::Item) -> (r: (Self, T::Item))
        requires
            t.wf(),
        ensures
            r.1 == item,
            follows(t, sep, r.0),
            r.0.wf(),
            t.decrease() matches Some(d) ==> (r.0.decrease() matches Some(e) && e <= 2 * d),
    {
        let next = match t.into_next() {
            Iteration::Next(t2, item2) => Intersperse::SepThenItem { t: t2, sep, item: item2 },
            Iteration::Terminal(term) => Intersperse::Done { term },
        };
        (next, item)
    }
}

impl<T: TerminalMoveIterator> TerminalMoveIterator for Intersperse<T> where T::Item: Clone {
    type Item = T::Item;

    type Terminal = T::Terminal;

    open spec fn wf(&self) -> bool {
        match self {
            Intersperse::Start { t, .. } => t.wf(),
            Intersperse::SepThenItem { t, .. } => t.wf(),
            Intersperse::ItemReady { t, .. } => t.wf(),
            Intersperse::Done { .. } => true,
        }
    }

    open spec fn decrease(&self) -> Option<nat> {
        match self {
            Intersperse::Start { t, .. } => match t.decrease() {
                Some(d) => Some(2 * d + 2),
                None => None,
            },
            Intersperse::SepThenItem { t, .. } => match t.decrease() {
                Some(d) => Some(2 * d + 2),
                None => None,
            },
            Intersperse::ItemReady { t, .. } => match t.decrease() {
                Some(d) => Some(2 * d + 1),
                None => None,
            },
            Intersperse::Done { .. } => Some(0),
        }
    }

    open spec fn advances_to(&self, r: Iteration<Self, T::Item, T::Terminal>) -> bool {
        match self {
            Intersperse::Start { t, sep } => match r {
                Iteration::Next(s, x) => starts(*t, *sep, s, x),
                Iteration::Terminal(term) => t.advances_to(Iteration::Terminal(term)),
            },
            Intersperse::SepThenItem { t, sep, item } => match r {
                Iteration::Next(s, y) => y == *sep && (s matches Intersperse::ItemReady {
                    t: t2,
                    sep: sep2,
                    item: item2,
                } && t2 == *t && item2 == *item && cloned(*sep, sep2)),
                Iteration::Terminal(_) => false,
            },
            Intersperse::ItemReady { t, sep, item } => match r {
                Iteration::Next(s, y) => y == *item && follows(*t, *sep, s),
                Iteration::Terminal(_) => false,
            },
            Intersperse::Done { term } => r == Iteration::<Self, T::Item, T::Terminal>::Terminal(
                *term,
            ),
        }
    }

    fn into_next(self) -> (r: Iteration<Self, T::Item, T::Terminal>) {
        match self {
            Intersperse::Start { t, sep } => {
                let ghost g = t;
                match t.into_next() {
                    Iteration::Next(t2, item) => {
                        let ghost g2 = t2;
                        let (next, x) = Self::follow_item(t2, sep, item);
                        assert(g.advances_to(Iteration::Next(g2, x)) && follows(g2, sep, next));
                        assert(starts(g, sep, next, x));
                        Iteration::Next(next, x)
                    },
                    Iteration::Terminal(term) => Iteration::Terminal(term),
                }
            },
            Intersperse::SepThenItem { t, sep, item } => {
                let sep2 = sep.clone();
                Iteration::Next(Intersperse::ItemReady { t, sep: sep2, item }, sep)
            },
            Intersperse::ItemReady { t, sep, item } => {
                let (next, x) = Self::follow_item(t, sep, item);
                Iteration::Next(next, x)
            },
            Intersperse::Done { term } => Iteration::Terminal(term),
        }
    }
}

/// `xs` with `sep` between each two neighbouring items.
pub open spec fn interleave<X>(xs: Seq<X>, sep: X) -> Seq<X> {
    if xs.len() == 0 {
        Seq::empty()
    } else {
        seq![xs[0]] + sep_before_each(xs.drop_first(), sep)
    }
}

/// `sep` before each item of `xs`.
pub open spec fn sep_before_each<X>(xs: Seq<X>, sep: X) -> Seq<X>
    decreases xs.len(),
{
    if xs.len() == 0 {
        Seq::empty()
    } else {
        seq![sep, xs[0]] + sep_before_each(xs.drop_first(), sep)
    }
}

/// What a state over a lifted vector of integers has still to yield.
spec fn pending(s: Intersperse<VecItems<u64>>, sep: u64) -> Seq<u64> {
    match s {
        Intersperse::Start { t, .. } => interleave(t@, sep),
        Intersperse::SepThenItem { t, item, .. } => seq![sep, item] + sep_before_each(t@, sep),
        Intersperse::ItemReady { t, item, .. } => seq![item] + sep_before_each(t@, sep),
        Intersperse::Done { .. } => Seq::empty(),
    }
}

spec fn holds_sep(s: Intersperse<VecItems<u64>>, sep: u64) -> bool {
    match s {
        Intersperse::Start { sep: s2, .. } => s2 == sep,
        Intersperse::SepThenItem { sep: s2, .. } => s2 == sep,
        Intersperse::ItemReady { sep: s2, .. } => s2 == sep,
        Intersperse::Done { .. } => true,
    }
}

proof fn lemma_follows_pending(t: VecItems<u64>, sep: u64, s: Intersperse<VecItems<u64>>)
    requires
        follows(t, sep, s),
    ensures
        holds_sep(s, sep),
        pending(s, sep) == sep_before_each(t@, sep),
{
    match s {
        Intersperse::SepThenItem { t: t2, item, .. } => {
            assert(t@.len() > 0 && item == t@[0] && t2@ == t@.drop_first());
            assert(pending(s, sep) =~= sep_before_each(t@, sep));
        },
        _ => {},
    }
}

/// One step moves the first pending item out.
proof fn lemma_step_pending(s: Intersperse<VecItems<u64>>, sep: u64, s2: Intersperse<VecItems<u64>>, y: u64)
    requires
        holds_sep(s, sep),
        s.advances_to(Iteration::Next(s2, y)),
    ensures
        holds_sep(s2, sep),
        pending(s, sep) == seq![y] + pending(s2, sep),
{
    match s {
        Intersperse::Start { t, sep: sp } => {
            let t2 = choose|t2: VecItems<u64>|
                #[trigger] t.advances_to(Iteration::Next(t2, y)) && follows(t2, sp, s2);
            lemma_follows_pending(t2, sep, s2);
            assert(pending(s, sep) =~= seq![y] + pending(s2, sep));
        },
        Intersperse::SepThenItem { .. } => {
            assert(pending(s, sep) =~= seq![y] + pending(s2, sep));
        },
        Intersperse::ItemReady { t, .. } => {
            lemma_follows_pending(t, sep, s2);
            assert(pending(s, sep) =~= seq![y] + pending(s2, sep));
        },
        Intersperse::Done { .. } => {},
    }
}

proof fn lemma_runs_pending(a: Intersperse<VecItems<u64>>, sep: u64, ys: Seq<u64>, m: Intersperse<VecItems<u64>>)
    requires
        holds_sep(a, sep),
        runs(a, ys, m),
    ensures
        holds_sep(m, sep),
        pending(a, sep) == ys + pending(m, sep),
    decreases ys.len(),
{
    if ys.len() == 0 {
        assert(ys + pending(m, sep) =~= pending(m, sep));
    } else {
        let a1 = choose|a1: Intersperse<VecItems<u64>>|
            #[trigger] a.advances_to(Iteration::Next(a1, ys[0])) && runs(a1, ys.drop_first(), m);
        lemma_step_pending(a, sep, a1, ys[0]);
        lemma_runs_pending(a1, sep, ys.drop_first(), m);
        assert(pending(a, sep) =~= ys + pending(m, sep));
    }
}

/// Interspersing a separator through a lifted vector of integers yields
/// its items with the separator between each two neighbours, and none after
/// the last one.
pub proof fn lemma_intersperse_drain(src: VecItems<u64>, sep: u64, ys: Seq<u64>, t: ())
    requires
        drains_to(Intersperse::Start { t: src, sep }, ys, t),
    ensures
        ys == interleave(src@, sep),
{
    let a = Intersperse::Start { t: src, sep };
    let m = choose|m: Intersperse<VecItems<u64>>| #[trigger] runs(a, ys, m) && m.advances_to(Iteration::Terminal(t));
    lemma_runs_pending(a, sep, ys, m);
    match m {
        Intersperse::Start { t: mt, .. } => {
            assert(TerminalMoveIterator::advances_to(&mt, Iteration::Terminal(t)));
        },
        _ => {},
    }
    assert(pending(m, sep) =~= Seq::<u64>::empty());
    assert(ys =~= interleave(src@, sep));
}

} // verus!
