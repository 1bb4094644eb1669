//! Conversions between sequences of `Result` items and terminal sequences
//! that end with a `Result`.
use vstd::prelude::*;
use crate::iteration::Iteration;
use crate::finite::FiniteMoveIterator;
use crate::terminal::TerminalMoveIterator;

verus! {

/// Yields the `Ok` values of a finite sequence of results. At the first
/// `Err` it ends with that error, dropping what follows; at the end of the
/// inner sequence it ends with `Ok(())`.
pub struct TmiFromResultIterator<I>(pub I);

/// Pulls the items of a terminal sequence that ends with `Result<(), E>` one
/// by one as `Ok` values, then its error, if it ended with one, as a last
/// `Err`. The inner slot is emptied once the error is handed out, the outer
/// one once nothing more will come.
pub struct TmiAsResultIterator<I>(pub Option<Option<I>>);

/// Lifts a finite sequence of results into a terminal sequence that stops at
/// the first error.
pub fn terminal_move_iterator_from_result_iterator<T, E, I: FiniteMoveIterator<Item = Result<T, E>>>(
    it: I,
) -> (r: TmiFromResultIterator<I>)
    ensures
        r.0 == it,
{
    TmiFromResultIterator(it)
}

/// Wraps a terminal sequence that ends with a `Result` so that its items and
/// its error can be pulled as results; the inverse of
/// [`terminal_move_iterator_from_result_iterator`].
pub fn terminal_move_iterator_into_result_iterator<T, E, I: TerminalMoveIterator<
    Item = T,
    Terminal = Result<(), E>,
>>(tmi: I) -> (r: TmiAsResultIterator<I>)
    ensures
        r.0 == Some(Some(tmi)),
{
    TmiAsResultIterator(Some(Some(tmi)))
}

/// An advance of `it` may hand out the error `e`.
pub open spec fn fails_with<T, E, I: FiniteMoveIterator<Item = Result<T, E>>>(it: I, e: E) -> bool {
    exists|s2: I| #[trigger] it.advances_to(Some((s2, Err(e))))
}

impl<T, E, I: FiniteMoveIterator<Item = Result<T, E>>> TerminalMoveIterator for TmiFromResultIterator<
    I,
> {
    type Item = T;

    type Terminal = Result<(), E>;

    open spec fn wf(&self) -> bool {
        self.0.wf()
    }

    open spec fn decrease(&self) -> Option<nat> {
        self.0.decrease()
    }

    open spec fn advances_to(&self, r: Iteration<Self, T, Result<(), E>>) -> bool {
        match r {
            Iteration::Next(s, x) => self.0.advances_to(Some((s.0, Ok(x)))),
            Iteration::Terminal(Ok(_)) => self.0.advances_to(None),
            Iteration::Terminal(Err(e)) => fails_with(self.0, e),
        }
    }

    fn into_next(self) -> (r: Iteration<Self, T, Result<(), E>>) {
        match self.0.into_next() {
            Some((s, Ok(x))) => Iteration::Next(TmiFromResultIterator(s), x),
            Some((s, Err(e))) => {
                assert(self.0.advances_to(Some((s, Err(e)))));
                Iteration::Terminal(Err(e))
            },
            None => Iteration::Terminal(Ok(())),
        }
    }
}

impl<T, E, I: TerminalMoveIterator<Item = T, Terminal = Result<(), E>>> TmiAsResultIterator<I> {
    /// A held state may be advanced.
    pub open spec fn wf(&self) -> bool {
        self.0 matches Some(Some(s)) ==> s.wf()
    }

    /// Advances the held state: an item comes out as `Ok`; an `Err` end comes
    /// out once as `Err`; an `Ok` end, or a second pull after an error, gives
    /// `None`.
    pub fn next(&mut self) -> (r: Option<Result<T, E>>)
        requires
            old(self).wf(),
        ensures
            final(self).wf(),
            match old(self).0 {
                None => r is None && final(self).0 is None,
                Some(None) => r is None && final(self).0 is None,
                Some(Some(s)) => match r {
                    Some(Ok(x)) => final(self).0 matches Some(Some(s2)) && s.advances_to(
                        Iteration::Next(s2, x),
                    ),
                    Some(Err(e)) => final(self).0 == Some(None::<I>) && s.advances_to(
                        Iteration::Terminal(Err(e)),
                    ),
                    None => final(self).0 is None && s.advances_to(Iteration::Terminal(Ok(()))),
                },
            },
    {
        match self.0.take() {
            Some(Some(tmi)) => match tmi.into_next() {
                Iteration::Next(s, x) => {
                    self.0 = Some(Some(s));
                    Some(Ok(x))
                },
                Iteration::Terminal(Ok(u)) => {
                    assert(u == ());
                    None
                },
                Iteration::Terminal(Err(e)) => {
                    self.0 = Some(None);
                    Some(Err(e))
                },
            },
            _ => None,
        }
    }
}

} // verus!
