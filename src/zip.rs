//! Advances two sequences side by side.
use vstd::prelude::*;
use crate::iteration::Iteration;
use crate::terminal::{TerminalMoveIterator, TerminalMoveIteratorExt, ends_with, falls};

verus! {

/// Yields the pairs of items of `t` and `u`, advancing both once per step.
/// At the first step where either ends it ends with a [`ZipTerminal`].
pub struct Zip<T, U> {
    pub t: T,
    pub u: U,
}

/// How a [`Zip`] ended. A side that had not ended is kept live, with the
/// item it had just handed out, so that a caller may go on draining it.
pub enum ZipTerminal<T: TerminalMoveIterator, U: TerminalMoveIterator> {
    LeftTerm(T::Terminal, (U, U::Item)),
    RightTerm((T, T::Item), U::Terminal),
    BothTerm(T::Terminal, U::Terminal),
}

impl<T: TerminalMoveIterator, U: TerminalMoveIterator> Zip<T, U> {
    pub fn new(t: T, u: U) -> (r: Self)
        ensures
            r.t == t,
            r.u == u,
            r.wf() <==> (t.wf() && u.wf()),
    {
        Zip { t, u }
    }
}

/// `after` was handed out by advancing `before`, and may itself be advanced.
pub open spec fn live_after<I: TerminalMoveIterator>(before: I, after: I, x: I::Item) -> bool {
    &&& before.advances_to(Iteration::Next(after, x))
    &&& after.wf()
    &&& falls(before.decrease(), after.decrease())
}

impl<T: TerminalMoveIterator, U: TerminalMoveIterator> TerminalMoveIterator for Zip<T, U> {
    type Item = (T::Item, U::Item);

    type Terminal = ZipTerminal<T, U>;

    open spec fn wf(&self) -> bool {
        self.t.wf() && self.u.wf()
    }

    open spec fn decrease(&self) -> Option<nat> {
        match (self.t.decrease(), self.u.decrease()) {
            (Some(d), Some(e)) => Some(d + e),
            _ => None,
        }
    }

    open spec fn advances_to(&self, r: Iteration<Self, (T::Item, U::Item), ZipTerminal<T, U>>) -> bool {
        match r {
            Iteration::Next(s, (x, y)) => self.t.advances_to(Iteration::Next(s.t, x))
                && self.u.advances_to(Iteration::Next(s.u, y)),
            Iteration::Terminal(ZipTerminal::LeftTerm(tt, (u2, y))) => self.t.advances_to(
                Iteration::Terminal(tt),
            ) && live_after(self.u, u2, y),
            Iteration::Terminal(ZipTerminal::RightTerm((t2, x), ut)) => live_after(self.t, t2, x)
                && self.u.advances_to(Iteration::Terminal(ut)),
            Iteration::Terminal(ZipTerminal::BothTerm(tt, ut)) => self.t.advances_to(
                Iteration::Terminal(tt),
            ) && self.u.advances_to(Iteration::Terminal(ut)),
        }
    }

    fn into_next(self) -> (r: Iteration<Self, (T::Item, U::Item), ZipTerminal<T, U>>) {
        let Zip { t, u } = self;
        let tres = t.into_next();
        let ures = u.into_next();
        match (tres, ures) {
            (Iteration::Next(t2, x), Iteration::Next(u2, y)) => Iteration::Next(
                Zip { t: t2, u: u2 },
                (x, y),
            ),
            (Iteration::Terminal(tt), Iteration::Next(u2, y)) => Iteration::Terminal(
                ZipTerminal::LeftTerm(tt, (u2, y)),
            ),
            (Iteration::Next(t2, x), Iteration::Terminal(ut)) => Iteration::Terminal(
                ZipTerminal::RightTerm((t2, x), ut),
            ),
            (Iteration::Terminal(tt), Iteration::Terminal(ut)) => Iteration::Terminal(
                ZipTerminal::BothTerm(tt, ut),
            ),
        }
    }
}

impl<T: TerminalMoveIterator, U: TerminalMoveIterator> ZipTerminal<T, U> {
    /// The live side, if any, may be driven to its end.
    pub open spec fn wf(&self) -> bool {
        match self {
            ZipTerminal::LeftTerm(_, (u, _)) => u.wf() && u.decrease() is Some,
            ZipTerminal::RightTerm((t, _), _) => t.wf() && t.decrease() is Some,
            ZipTerminal::BothTerm(_, _) => true,
        }
    }

    /// Discards whatever items either side still has, and returns the two
    /// terminal values.
    pub fn complete(self) -> (r: (T::Terminal, U::Terminal))
        requires
            self.wf(),
        ensures
            match self {
                ZipTerminal::LeftTerm(tt, (u, _)) => r.0 == tt && ends_with(u, r.1),
                ZipTerminal::RightTerm((t, _), ut) => r.1 == ut && ends_with(t, r.0),
                ZipTerminal::BothTerm(tt, ut) => r == (tt, ut),
            },
    {
        match self {
            ZipTerminal::LeftTerm(tt, (u, _)) => (tt, u.terminate()),
            ZipTerminal::RightTerm((t, _), ut) => (t.terminate(), ut),
            ZipTerminal::BothTerm(tt, ut) => (tt, ut),
        }
    }
}

} // verus!
