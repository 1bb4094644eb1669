//! Looks at the next item without consuming it.
use vstd::prelude::*;
use crate::iteration::Iteration;
use crate::terminal::TerminalMoveIterator;

verus! {

/// Holds the outcome of the next advance of the inner sequence, fetched
/// ahead, so that the pending item can be looked at.
pub struct Peekable<T: TerminalMoveIterator>(pub Iteration<T, T::Item, T::Terminal>);

impl<T: TerminalMoveIterator> Peekable<T> {
    /// Advances `t` once, ahead of time.
    pub fn new(t: T) -> (r: Self)
        requires
            t.wf(),
        ensures
            t.advances_to(r.0),
            r.wf(),
    {
        Peekable(t.into_next())
    }

    /// The pending item, if the inner sequence has not ended.
    pub fn peek(&self) -> (r: Option<&T::Item>)
        ensures
            match self.0 {
                Iteration::Next(_, x) => r == Some(&x),
                Iteration::Terminal(_) => r is None,
            },
    {
        match &self.0 {
            Iteration::Next(_, x) => Some(x),
            Iteration::Terminal(_) => None,
        }
    }
}

impl<T: TerminalMoveIterator> TerminalMoveIterator for Peekable<T> {
    type Item = T::Item;

    type Terminal = T::Terminal;

    open spec fn wf(&self) -> bool {
        match self.0 {
            Iteration::Next(t, _) => t.wf(),
            Iteration::Terminal(_) => true,
        }
    }

    open spec fn decrease(&self) -> Option<nat> {
        match self.0 {
            Iteration::Next(t, _) => match t.decrease() {
                Some(d) => Some(d + 1),
                None => None,
            },
            Iteration::Terminal(_) => Some(0),
        }
    }

    open spec fn advances_to(&self, r: Iteration<Self, T::Item, T::Terminal>) -> bool {
        match self.0 {
            Iteration::Next(t, x) => match r {
                Iteration::Next(s, y) => y == x && t.advances_to(s.0),
                Iteration::Terminal(_) => false,
            },
            Iteration::Terminal(tt) => r == Iteration::<Self, T::Item, T::Terminal>::Terminal(tt),
        }
    }

    fn into_next(self) -> (r: Iteration<Self, T::Item, T::Terminal>) {
        match self.0 {
            Iteration::Next(t, x) => Iteration::Next(Peekable(t.into_next()), x),
            Iteration::Terminal(tt) => Iteration::Terminal(tt),
        }
    }
}

} // verus!
