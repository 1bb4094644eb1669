//! Yields every `step`-th item.
use vstd::prelude::*;
use crate::iteration::Iteration;
use crate::terminal::{TerminalMoveIterator, runs, drains_to, lemma_runs_push};

verus! {

/// Yields the first item of `ti`, then passes over `step - 1` items before
/// each further one, and ends with the terminal value of `ti`. A step of
/// zero yields every item, as a step of one does. Where items are passed
/// over, `ti` must be known to end.
pub struct StepBy<T> {
    pub ti: T,
    pub step: usize,
    /// The step still owed before the next item: zero before the first one.
    pub nextstep: usize,
}

/// How many items are passed over before the next one is yielded.
pub open spec fn gap(nextstep: usize) -> nat {
    if nextstep > 0 {
        (nextstep - 1) as nat
    } else {
        0
    }
}

/// From `it`, advancing once per item of some `n` items may reach `s`.
pub open spec fn skips_to<I: TerminalMoveIterator>(it: I, n: nat, s: I) -> bool {
    exists|xs: Seq<I::Item>| xs.len() == n && #[trigger] runs(it, xs, s)
}

/// `it` may end with `t` after at most `n` items.
pub open spec fn ends_within<I: TerminalMoveIterator>(it: I, n: nat, t: I::Terminal) -> bool {
    exists|xs: Seq<I::Item>| xs.len() <= n && #[trigger] drains_to(it, xs, t)
}

/// Advances `it` past exactly `n` items, handing back the state after them,
/// or the terminal value where `it` ends first.
pub(crate) fn skip<I: TerminalMoveIterator>(it: I, n: usize) -> (r: Result<I, I::Terminal>)
    requires
        it.wf(),
        n > 0 ==> it.decrease() is Some,
    ensures
        match r {
            Ok(s) => s.wf() && skips_to(it, n as nat, s) && (it.decrease() matches Some(d) ==> (
            s.decrease() matches Some(e) && e <= d)),
            Err(t) => n > 0 && ends_within(it, (n - 1) as nat, t),
        },
{
    let ghost start = it;
    let ghost mut seen: Seq<I::Item> = Seq::empty();
    let mut state = it;
    let mut i: usize = 0;
    assert(runs(start, seen, state));
    while i < n
        invariant
            start == it,
            i <= n,
            seen.len() == i,
            state.wf(),
            i < n ==> state.decrease() is Some,
            start.decrease() matches Some(d) ==> (state.decrease() matches Some(e) && e + i <= d),
            runs(start, seen, state),
        decreases n - i,
    {
        let ghost before = state;
        match state.into_next() {
            Iteration::Next(s, x) => {
                proof {
                    lemma_runs_push(start, seen, before, s, x);
                    seen = seen.push(x);
                }
                state = s;
                i = i + 1;
            },
            Iteration::Terminal(t) => {
                assert(drains_to(start, seen, t));
                assert(ends_within(it, (n - 1) as nat, t));
                return Err(t);
            },
        }
    }
    assert(skips_to(it, n as nat, state));
    Ok(state)
}

/// After `gap` items, `it` hands out `x` and reaches `it2`.
pub open spec fn steps_to<I: TerminalMoveIterator>(it: I, gap: nat, it2: I, x: I::Item) -> bool {
    exists|xs: Seq<I::Item>, m: I|
        xs.len() == gap && #[trigger] runs(it, xs, m) && m.advances_to(Iteration::Next(it2, x))
}

impl<T: TerminalMoveIterator> StepBy<T> {
    pub fn new(ti: T, step: usize) -> (r: StepBy<T>)
        ensures
            r == (StepBy { ti, step, nextstep: 0 }),
            r.wf() <==> (ti.wf() && (step > 1 ==> ti.decrease() is Some)),
            r.decrease() == ti.decrease(),
    {
        StepBy { ti, step, nextstep: 0 }
    }
}

impl<T: TerminalMoveIterator> TerminalMoveIterator for StepBy<T> {
    type Item = T::Item;

    type Terminal = T::Terminal;

    open spec fn wf(&self) -> bool {
        &&& self.ti.wf()
        &&& (self.step > 1 || self.nextstep > 1) ==> self.ti.decrease() is Some
    }

    open spec fn decrease(&self) -> Option<nat> {
        self.ti.decrease()
    }

    open spec fn advances_to(&self, r: Iteration<Self, T::Item, T::Terminal>) -> bool {
        match r {
            Iteration::Next(s, x) => s.step == self.step && s.nextstep == self.step && steps_to(
                self.ti,
                gap(self.nextstep),
                s.ti,
                x,
            ),
            Iteration::Terminal(t) => ends_within(self.ti, gap(self.nextstep), t),
        }
    }

    fn into_next(self) -> (r: Iteration<Self, T::Item, T::Terminal>) {
        let StepBy { ti, step, nextstep } = self;
        let n: usize = if nextstep > 0 {
            nextstep - 1
        } else {
            0
        };
        match skip(ti, n) {
            Ok(state) => {
                let ghost g = state;
                match state.into_next() {
                    Iteration::Next(ti2, x) => {
                        assert(g.advances_to(Iteration::Next(ti2, x)));
                        Iteration::Next(StepBy { ti: ti2, step, nextstep: step }, x)
                    },
                    Iteration::Terminal(t) => {
                        proof {
                            let xs = choose|xs: Seq<T::Item>| xs.len() == n && #[trigger] runs(ti, xs, g);
                            assert(drains_to(ti, xs, t));
                            assert(ends_within(ti, gap(nextstep), t));
                        }
                        Iteration::Terminal(t)
                    },
                }
            },
            Err(t) => {
                proof {
                    let xs = choose|xs: Seq<T::Item>| xs.len() <= n - 1 && #[trigger] drains_to(ti, xs, t);
                    assert(ends_within(ti, gap(nextstep), t));
                }
                Iteration::Terminal(t)
            },
        }
    }
}

} // verus!
