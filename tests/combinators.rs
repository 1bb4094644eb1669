use moveiter::{
    Chain, Enumerate, Filter, FilterMap, Intersperse, Iteration, MapItems, MapTerm, Peekable,
    SkipWhile, StepBy, TakeWhile, TerminalMoveIterator, TerminalMoveIteratorExt, VecItems, Zip,
    ZipTerminal,
};

fn items(v: Vec<u64>) -> VecItems<u64> {
    VecItems::from_vec(v)
}

fn drain<T: TerminalMoveIterator>(mut it: T) -> (Vec<T::Item>, T::Terminal) {
    let mut out = Vec::new();
    loop {
        match TerminalMoveIterator::into_next(it) {
            Iteration::Next(s, x) => {
                out.push(x);
                it = s;
            }
            Iteration::Terminal(t) => return (out, t),
        }
    }
}

#[test]
fn enumerate_pairs_indices_from_zero() {
    let it = Enumerate::new(VecItems::from_vec(vec!['a', 'b', 'c']));
    let (out, t) = drain(it);
    assert_eq!(out, vec![(0, 'a'), (1, 'b'), (2, 'c')]);
    assert_eq!(t, ());
}

#[test]
fn step_by_two_over_five() {
    let (out, t) = drain(StepBy::new(items(vec![0, 1, 2, 3, 4]), 2));
    assert_eq!(out, vec![0, 2, 4]);
    assert_eq!(t, ());
}

#[test]
fn step_by_two_over_three() {
    let (out, t) = drain(StepBy::new(items(vec![0, 1, 2]), 2));
    assert_eq!(out, vec![0, 2]);
    assert_eq!(t, ());
}

#[test]
fn step_by_three_ends_inside_a_gap() {
    let (out, _) = drain(StepBy::new(items(vec![0, 1, 2, 3, 4]), 3));
    assert_eq!(out, vec![0, 3]);
}

#[test]
fn step_by_zero_yields_every_item() {
    let (out, _) = drain(StepBy::new(items(vec![7, 8, 9]), 0));
    assert_eq!(out, vec![7, 8, 9]);
}

#[test]
fn intersperse_sum_counts_separators() {
    let it = Intersperse::new(items(vec![0, 1, 2, 3]), 5);
    let sum = it.fold(0u64, |a, x| a + x, |a, ()| a);
    assert_eq!(sum, 21);
}

#[test]
fn intersperse_has_no_trailing_separator() {
    let (out, t) = drain(Intersperse::new(items(vec![0, 1, 2, 3]), 5));
    assert_eq!(out, vec![0, 5, 1, 5, 2, 5, 3]);
    assert_eq!(t, ());
}

#[test]
fn intersperse_of_one_and_none() {
    let (out, _) = drain(Intersperse::new(items(vec![9]), 5));
    assert_eq!(out, vec![9]);
    let (out, _) = drain(Intersperse::new(items(vec![]), 5));
    assert_eq!(out, Vec::<u64>::new());
}

#[test]
fn zip_left_ends_first() {
    let mut z = Zip::new(items(vec![0, 1, 2]), items(vec![10, 11, 12, 13, 14, 15]));
    let mut sum = 0;
    let term = loop {
        match z.into_next() {
            Iteration::Next(s, (a, b)) => {
                sum += a * b;
                z = s;
            }
            Iteration::Terminal(t) => break t,
        }
    };
    assert_eq!(sum, 35);
    match term {
        ZipTerminal::LeftTerm((), (rest, pending)) => {
            assert_eq!(pending, 13);
            let restsum = rest.fold(0u64, |a, x| a + x, |a, ()| a);
            assert_eq!(restsum, 29);
        }
        _ => panic!("expected the left side to end first"),
    }
}

#[test]
fn zip_right_ends_first_and_complete() {
    let z = Zip::new(items(vec![1, 2, 3, 4]), items(vec![5]));
    let (out, term) = drain(z);
    assert_eq!(out, vec![(1, 5)]);
    match term {
        ZipTerminal::RightTerm((_, pending), ()) => assert_eq!(pending, 2),
        _ => panic!("expected the right side to end first"),
    }
}

#[test]
fn zip_both_end_together() {
    let z = Zip::new(items(vec![1, 2]), items(vec![3, 4]));
    let (out, term) = drain(z);
    assert_eq!(out, vec![(1, 3), (2, 4)]);
    assert!(matches!(term, ZipTerminal::BothTerm((), ())));
    assert_eq!(term.complete(), ((), ()));
}

#[test]
fn zip_complete_drains_the_live_side() {
    let left = MapTerm::new(items(vec![1]), |()| 7u8);
    let right = MapTerm::new(items(vec![1, 2, 3]), |()| "done");
    let (_, term) = drain(Zip::new(left, right));
    assert_eq!(term.complete(), (7, "done"));
}

#[test]
fn chain_sums_both_and_pairs_terminals() {
    let first = MapTerm::new(items(vec![0, 1, 2]), |()| 42);
    let second = MapTerm::new(items(vec![3, 4]), |()| "foo");
    let mut sum = 0;
    let mut add = |x: u64| sum += x;
    let term = Chain::new(first, second).for_each(|x| add(x));
    assert_eq!(sum, 10);
    assert_eq!(term, (42, "foo"));
}

#[test]
fn chain_with_empty_first() {
    let (out, t) = drain(Chain::new(items(vec![]), items(vec![3, 4])));
    assert_eq!(out, vec![3, 4]);
    assert_eq!(t, ((), ()));
}

#[test]
fn map_items_applies_function() {
    let (out, _) = drain(MapItems::new(items(vec![1, 2, 3]), |x| x * 10));
    assert_eq!(out, vec![10, 20, 30]);
}

#[test]
fn map_term_changes_only_terminal() {
    let (out, t) = drain(MapTerm::new(items(vec![1, 2]), |()| 42));
    assert_eq!(out, vec![1, 2]);
    assert_eq!(t, 42);
}

#[test]
fn filter_keeps_accepted() {
    let (out, t) = drain(Filter::new(items(vec![1, 2, 3, 4, 5, 6]), |x: &u64| x % 2 == 0));
    assert_eq!(out, vec![2, 4, 6]);
    assert_eq!(t, ());
}

#[test]
fn filter_rejecting_all_reaches_terminal() {
    let (out, t) = drain(Filter::new(MapTerm::new(items(vec![1, 3]), |()| 9), |x: &u64| *x > 5));
    assert!(out.is_empty());
    assert_eq!(t, 9);
}

#[test]
fn filter_map_transforms_and_drops() {
    let f = |x: u64| if x % 3 == 0 { Some(x / 3) } else { None };
    let (out, _) = drain(FilterMap::new(items(vec![1, 3, 4, 6, 9, 10]), f));
    assert_eq!(out, vec![1, 2, 3]);
}

#[test]
fn skip_while_latches() {
    let (out, _) = drain(SkipWhile::new(items(vec![1, 2, 5, 1, 7]), |x: &u64| *x < 3));
    assert_eq!(out, vec![5, 1, 7]);
}

#[test]
fn skip_while_all_skipped() {
    let (out, t) = drain(SkipWhile::new(items(vec![1, 2]), |x: &u64| *x < 3));
    assert!(out.is_empty());
    assert_eq!(t, ());
}

#[test]
fn take_while_stops_and_drains() {
    let counted = MapTerm::new(items(vec![1, 2, 9, 3, 4]), |()| "end");
    let (out, t) = drain(TakeWhile::new(counted, |x: &u64| *x < 5));
    assert_eq!(out, vec![1, 2]);
    assert_eq!(t, "end");
}

#[test]
fn peekable_shows_pending_item() {
    let p = Peekable::new(items(vec![4, 5]));
    assert_eq!(p.peek(), Some(&4));
    let (p, x) = p.into_next().unwrap_next();
    assert_eq!(x, 4);
    assert_eq!(p.peek(), Some(&5));
    let (p, _) = p.into_next().unwrap_next();
    assert_eq!(p.peek(), None);
    p.into_next().unwrap_terminal();
}

#[test]
fn terminate_returns_terminal() {
    let it = MapTerm::new(items(vec![1, 2, 3]), |()| 42);
    assert_eq!(it.terminate(), 42);
}

#[test]
fn fold_combines_accumulator_and_terminal() {
    let it = MapTerm::new(items(vec![1, 2, 3]), |()| 100u64);
    let r = it.fold(0u64, |a, x| a + x, |a, t| a * t);
    assert_eq!(r, 600);
}

#[test]
fn combinators_over_empty_input() {
    let (out, t) = drain(Enumerate::new(items(vec![])));
    assert!(out.is_empty());
    assert_eq!(t, ());
    let (out, _) = drain(StepBy::new(items(vec![]), 2));
    assert!(out.is_empty());
    let (out, t) = drain(Chain::new(items(vec![]), items(vec![])));
    assert!(out.is_empty());
    assert_eq!(t, ((), ()));
    let (out, term) = drain(Zip::new(items(vec![]), items(vec![1])));
    assert!(out.is_empty());
    match term {
        ZipTerminal::LeftTerm((), (_, pending)) => assert_eq!(pending, 1),
        _ => panic!("expected the left side to end first"),
    }
    let p = Peekable::new(items(vec![]));
    assert_eq!(p.peek(), None);
}

#[test]
fn enumerate_keeps_terminal_value() {
    let it = Enumerate::new(MapTerm::new(items(vec![5]), |()| 'z'));
    let (out, t) = drain(it);
    assert_eq!(out, vec![(0, 5)]);
    assert_eq!(t, 'z');
}
