//! Wrappers that present one kind of sequence as another.
use vstd::prelude::*;
use crate::iteration::Iteration;
use crate::endless::EndlessMoveIterator;
use crate::finite::FiniteMoveIterator;
use crate::terminal::TerminalMoveIterator;

verus! {

/// An endless sequence presented as a finite one: every advance gives an
/// item.
pub struct EmiAsFinite<I>(pub I);

/// An endless sequence presented as a terminal one whose terminal type,
/// `Infallible`, has no value.
pub struct EmiAsTerminal<I>(pub I);

/// A finite sequence presented as a terminal one that ends with `()`.
pub struct FmiAsTerminal<I>(pub I);

/// A finite sequence whose items are pulled one by one through `&mut`. The
/// slot is empty once the sequence has ended.
pub struct FmiAsIterator<I>(pub Option<I>);

/// An endless sequence whose items are pulled one by one through `&mut`.
pub struct EmiAsIterator<I>(pub Option<I>);

impl<I: EndlessMoveIterator> FiniteMoveIterator for EmiAsFinite<I> {
    type Item = I::Item;

    open spec fn wf(&self) -> bool {
        self.0.wf()
    }

    open spec fn decrease(&self) -> Option<nat> {
        None
    }

    open spec fn advances_to(&self, r: Option<(Self, I::Item)>) -> bool {
        r matches Some((s, x)) && self.0.advances_to((s.0, x))
    }

    fn into_next(self) -> (r: Option<(Self, I::Item)>) {
        let (inner, x) = self.0.into_next();
        Some((EmiAsFinite(inner), x))
    }
}

impl<I: EndlessMoveIterator> TerminalMoveIterator for EmiAsTerminal<I> {
    type Item = I::Item;

    type Terminal = std::convert::Infallible;

    open spec fn wf(&self) -> bool {
        self.0.wf()
    }

    open spec fn decrease(&self) -> Option<nat> {
        None
    }

    open spec fn advances_to(&self, r: Iteration<Self, I::Item, std::convert::Infallible>) -> bool {
        r matches Iteration::Next(s, x) && self.0.advances_to((s.0, x))
    }

    fn into_next(self) -> (r: Iteration<Self, I::Item, std::convert::Infallible>) {
        let (inner, x) = self.0.into_next();
        Iteration::Next(EmiAsTerminal(inner), x)
    }
}

impl<I: FiniteMoveIterator> TerminalMoveIterator for FmiAsTerminal<I> {
    type Item = I::Item;

    type Terminal = ();

    open spec fn wf(&self) -> bool {
        self.0.wf()
    }

    open spec fn decrease(&self) -> Option<nat> {
        self.0.decrease()
    }

    open spec fn advances_to(&self, r: Iteration<Self, I::Item, ()>) -> bool {
        match r {
            Iteration::Next(s, x) => self.0.advances_to(Some((s.0, x))),
            Iteration::Terminal(_) => self.0.advances_to(None),
        }
    }

    fn into_next(self) -> (r: Iteration<Self, I::Item, ()>) {
        match self.0.into_next() {
            Some((inner, x)) => Iteration::Next(FmiAsTerminal(inner), x),
            None => Iteration::Terminal(()),
        }
    }
}

impl<I: FiniteMoveIterator> FmiAsIterator<I> {
    pub fn new(x: I) -> (r: Self)
        ensures
            r.0 == Some(x),
    {
        FmiAsIterator(Some(x))
    }

    /// The slot is empty, or holds a state that may be advanced.
    pub open spec fn wf(&self) -> bool {
        self.0 matches Some(s) ==> s.wf()
    }

    /// Takes the state out of the slot and advances it; puts the new state
    /// back and returns the item, or leaves the slot empty at the end.
    pub fn next(&mut self) -> (r: Option<I::Item>)
        requires
            old(self).wf(),
        ensures
            final(self).wf(),
            match old(self).0 {
                None => r is None && final(self).0 is None,
                Some(s) => match r {
                    Some(x) => final(self).0 matches Some(s2) && s.advances_to(Some((s2, x))),
                    None => final(self).0 is None && s.advances_to(None),
                },
            },
    {
        match self.0.take() {
            None => None,
            Some(s) => match s.into_next() {
                Some((s2, x)) => {
                    self.0 = Some(s2);
                    Some(x)
                },
                None => None,
            },
        }
    }
}

impl<I: EndlessMoveIterator> EmiAsIterator<I> {
    pub fn new(x: I) -> (r: Self)
        ensures
            r.0 == Some(x),
    {
        EmiAsIterator(Some(x))
    }

    /// The slot is empty, or holds a state that may be advanced.
    pub open spec fn wf(&self) -> bool {
        self.0 matches Some(s) ==> s.wf()
    }

    /// Takes the state out of the slot and advances it; puts the new state
    /// back and returns the item.
    pub fn next(&mut self) -> (r: Option<I::Item>)
        requires
            old(self).wf(),
        ensures
            final(self).wf(),
            match old(self).0 {
                None => r is None && final(self).0 is None,
                Some(s) => r matches Some(x) && (final(self).0 matches Some(s2) && s.advances_to(
                    (s2, x),
                )),
            },
    {
        match self.0.take() {
            None => None,
            Some(s) => {
                let (s2, x) = s.into_next();
                self.0 = Some(s2);
                Some(x)
            },
        }
    }
}

} // verus!
