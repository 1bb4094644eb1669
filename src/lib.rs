//! Iteration with move semantics: each advance consumes the current state and
//! hands back either a new state with an item, or the end of the sequence.
//!
//! Three families of sequences differ in how they end: an
//! [`EndlessMoveIterator`] never does, a [`FiniteMoveIterator`] ends with
//! nothing, and a [`TerminalMoveIterator`] ends with a terminal value of its
//! own type. The combinators over terminal sequences keep the rule that a
//! sequence gives one terminal value and nothing after it.
use vstd::prelude::*;

pub mod iteration;
pub mod endless;
pub mod finite;
pub mod terminal;
pub mod stditer;
pub mod adapters;
pub mod items;
pub mod successors;
pub mod resiter;
pub mod intersperse;
pub mod map;
pub mod filter;
pub mod filtermap;
pub mod chain;
pub mod stepby;
pub mod zip;
pub mod mapterm;
pub mod skipwhile;
pub mod takewhile;
pub mod enumerate;
pub mod peekable;

pub use crate::iteration::Iteration;
pub use crate::endless::EndlessMoveIterator;
pub use crate::finite::{FiniteMoveIterator, FiniteMoveIteratorExt};
pub use crate::terminal::{TerminalMoveIterator, TerminalMoveIteratorExt};
pub use crate::stditer::TerminalStdIter;
pub use crate::adapters::{EmiAsFinite, EmiAsIterator, EmiAsTerminal, FmiAsIterator, FmiAsTerminal};
pub use crate::items::VecItems;
pub use crate::successors::Successors;
pub use crate::resiter::{
    TmiAsResultIterator, TmiFromResultIterator, terminal_move_iterator_from_result_iterator,
    terminal_move_iterator_into_result_iterator,
};
pub use crate::intersperse::Intersperse;
pub use crate::map::MapItems;
pub use crate::filter::Filter;
pub use crate::filtermap::FilterMap;
pub use crate::chain::Chain;
pub use crate::stepby::StepBy;
pub use crate::zip::{Zip, ZipTerminal};
pub use crate::mapterm::MapTerm;
pub use crate::skipwhile::SkipWhile;
pub use crate::takewhile::TakeWhile;
pub use crate::enumerate::Enumerate;
pub use crate::peekable::Peekable;
