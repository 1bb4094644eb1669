//! Sequences that never end.
use vstd::prelude::*;
use crate::adapters::{EmiAsFinite, EmiAsIterator, EmiAsTerminal};

verus! {

/// Produces items without end; each advance consumes the current state. The
/// outcome of an advance has no terminal case at all.
pub trait EndlessMoveIterator: Sized {
    type Item;

    /// The state may be advanced.
    spec fn wf(&self) -> bool;

    /// `r` is an outcome that advancing this state may give.
    spec fn advances_to(&self, r: (Self, Self::Item)) -> bool;

    /// Consumes the state and hands back the next state with an item.
    fn into_next(self) -> (r: (Self, Self::Item))
        requires
            self.wf(),
        ensures
            self.advances_to(r),
            r.0.wf(),
    ;

    /// Wraps the sequence for use where items are pulled one by one through
    /// a mutable reference.
    fn into_iter(self) -> (r: EmiAsIterator<Self>)
        ensures
            r.0 == Some(self),
    {
        EmiAsIterator(Some(self))
    }

    /// Presents the sequence as a finite one that never reaches its end.
    fn into_finite_move_iterator(self) -> (r: EmiAsFinite<Self>)
        ensures
            r.0 == self,
    {
        EmiAsFinite(self)
    }

    /// Presents the sequence as a terminal one that never reaches its end.
    fn into_terminal_move_iterator(self) -> (r: EmiAsTerminal<Self>)
        ensures
            r.0 == self,
    {
        EmiAsTerminal(self)
    }
}

} // verus!
