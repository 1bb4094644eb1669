//! The outcome of one advance of a terminal-style sequence.
use vstd::prelude::*;

verus! {

/// One step of a terminal-style sequence: a new state with an item, or the
/// terminal value that ends the sequence.
pub enum Iteration<S, X, T> {
    Next(S, X),
    Terminal(T),
}

impl<S, X, T> Iteration<S, X, T> {
    /// The new state and the item. Calling this on a terminal outcome breaks
    /// its contract.
    pub fn unwrap_next(self) -> (r: (S, X))
        requires
            self is Next,
        ensures
            self == Iteration::<S, X, T>::Next(r.0, r.1),
    {
        match self {
            Iteration::Next(s, x) => (s, x),
            Iteration::Terminal(_) => unreached(),
        }
    }

    /// The terminal value. Calling this on a next-item outcome breaks its
    /// contract.
    pub fn unwrap_terminal(self) -> (r: T)
        requires
            self is Terminal,
        ensures
            self == Iteration::<S, X, T>::Terminal(r),
    {
        match self {
            Iteration::Terminal(t) => t,
            Iteration::Next(_, _) => unreached(),
        }
    }

    /// Applies `f` to the item, leaving a terminal outcome as it is.
    pub fn map<F, Y>(self, f: F) -> (r: Iteration<S, Y, T>) where F: FnOnce(X) -> Y
        requires
            self matches Iteration::Next(_, x) ==> f.requires((x,)),
        ensures
            match self {
                Iteration::Next(s, x) => r matches Iteration::Next(s2, y) && s2 == s && f.ensures((x,), y),
                Iteration::Terminal(t) => r == Iteration::<S, Y, T>::Terminal(t),
            },
    {
        match self {
            Iteration::Next(s, x) => Iteration::Next(s, f(x)),
            Iteration::Terminal(t) => Iteration::Terminal(t),
        }
    }

    /// Applies `f` to the new state, leaving a terminal outcome as it is.
    pub fn map_state<F, S2>(self, f: F) -> (r: Iteration<S2, X, T>) where F: FnOnce(S) -> S2
        requires
            self matches Iteration::Next(s, _) ==> f.requires((s,)),
        ensures
            match self {
                Iteration::Next(s, x) => r matches Iteration::Next(s2, y) && y == x && f.ensures((s,), s2),
                Iteration::Terminal(t) => r == Iteration::<S2, X, T>::Terminal(t),
            },
    {
        match self {
            Iteration::Next(s, x) => Iteration::Next(f(s), x),
            Iteration::Terminal(t) => Iteration::Terminal(t),
        }
    }
}

} // verus!
