//! Pulling the items of a terminal sequence one by one through `&mut`.
use vstd::prelude::*;
use crate::iteration::Iteration;
use crate::terminal::TerminalMoveIterator;

verus! {

/// Holds the current state of a terminal sequence, if it has not ended, so
/// that its items can be pulled one by one through a mutable reference. The
/// terminal value is dropped.
pub struct TerminalStdIter<MI>(pub Option<MI>);

impl<MI: TerminalMoveIterator> TerminalStdIter<MI> {
    pub fn new(mi: MI) -> (r: Self)
        ensures
            r.0 == Some(mi),
    {
        TerminalStdIter(Some(mi))
    }

    /// The slot is empty, or holds a state that may be advanced.
    pub open spec fn wf(&self) -> bool {
        self.0 matches Some(s) ==> s.wf()
    }

    /// Takes the state out of the slot and advances it; puts the new state
    /// back and returns the item, or, at the end, leaves the slot empty for
    /// good.
    pub fn next(&mut self) -> (r: Option<MI::Item>)
        requires
            old(self).wf(),
        ensures
            final(self).wf(),
            match old(self).0 {
                None => r is None && final(self).0 is None,
                Some(s) => match r {
                    Some(x) => final(self).0 matches Some(s2) && s.advances_to(Iteration::Next(s2, x)),
                    None => final(self).0 is None && exists|t: MI::Terminal|
                        #[trigger] s.advances_to(Iteration::Terminal(t)),
                },
            },
    {
        match self.0.take() {
            None => None,
            Some(mi) => match mi.into_next() {
                Iteration::Terminal(_) => None,
                Iteration::Next(newstate, item) => {
                    self.0 = Some(newstate);
                    Some(item)
                },
            },
        }
    }
}

/// Successive pulls from `w` may return the items `xs` and then `None`: each
/// pull advances the state held in the slot, as
/// [`TerminalStdIter::next`] does.
pub open spec fn pulls<MI: TerminalMoveIterator>(w: TerminalStdIter<MI>, xs: Seq<MI::Item>) -> bool
    decreases xs.len(),
{
    match w.0 {
        None => xs.len() == 0,
        Some(s) => if xs.len() == 0 {
            exists|t: MI::Terminal| #[trigger] s.advances_to(Iteration::Terminal(t))
        } else {
            exists|s2: MI|
                #[trigger] s.advances_to(Iteration::Next(s2, xs[0])) && pulls(
                    TerminalStdIter(Some(s2)),
                    xs.drop_first(),
                )
        },
    }
}

} // verus!
