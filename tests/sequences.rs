use moveiter::{
    terminal_move_iterator_from_result_iterator, terminal_move_iterator_into_result_iterator,
    EndlessMoveIterator, FiniteMoveIterator, FiniteMoveIteratorExt, Iteration, MapTerm, TerminalMoveIterator,
    Successors, TerminalStdIter, VecItems,
};

#[test]
fn zero_to_three_unrolled_test() {
    let mi = VecItems::from_vec(vec![0usize, 1, 2]);
    let (s0, x0) = TerminalMoveIterator::into_next(mi).unwrap_next();
    assert_eq!(0, x0);
    let (s1, x1) = TerminalMoveIterator::into_next(s0).unwrap_next();
    assert_eq!(1, x1);
    let (s2, x2) = TerminalMoveIterator::into_next(s1).unwrap_next();
    assert_eq!(2, x2);
    TerminalMoveIterator::into_next(s2).unwrap_terminal();
}

#[test]
fn zero_to_three_loop_test() {
    let mut mi = VecItems::from_vec(vec![0usize, 1, 2]);
    for expected in 0..3 {
        let (nextmi, x) = TerminalMoveIterator::into_next(mi).unwrap_next();
        assert_eq!(expected, x);
        mi = nextmi;
    }
    TerminalMoveIterator::into_next(mi).unwrap_terminal();
}

#[test]
fn into_iter_test_loop() {
    let mi = VecItems::from_vec(vec![0usize, 1, 2]);
    let mut it = TerminalMoveIterator::into_iter(mi);
    let mut got = Vec::new();
    while let Some(x) = it.next() {
        got.push(x);
    }
    assert_eq!(got, vec![0, 1, 2]);
    assert_eq!(it.next(), None);
}

#[test]
fn finite_unrolled_test() {
    let mi = VecItems::from_vec(vec![0usize, 1, 2]);
    let (s0, x0) = FiniteMoveIterator::into_next(mi).unwrap();
    assert_eq!(0, x0);
    let (s1, x1) = FiniteMoveIterator::into_next(s0).unwrap();
    assert_eq!(1, x1);
    let (s2, x2) = FiniteMoveIterator::into_next(s1).unwrap();
    assert_eq!(2, x2);
    assert!(FiniteMoveIterator::into_next(s2).is_none());
}

#[test]
fn len_counts_remaining() {
    let mi = VecItems::from_vec(vec![5u8, 6]);
    assert_eq!(mi.len(), 2);
    let (rest, _) = FiniteMoveIterator::into_next(mi).unwrap();
    assert_eq!(rest.len(), 1);
}

fn round_trip_terminal(v: Vec<u32>) -> Vec<u32> {
    let mut it = TerminalStdIter::new(VecItems::from_vec(v));
    let mut got = Vec::new();
    while let Some(x) = it.next() {
        got.push(x);
    }
    got
}

fn round_trip_finite(v: Vec<u32>) -> Vec<u32> {
    let mut it = FiniteMoveIterator::into_iter(VecItems::from_vec(v));
    let mut got = Vec::new();
    while let Some(x) = it.next() {
        got.push(x);
    }
    assert_eq!(it.next(), None);
    got
}

#[test]
fn round_trip_empty() {
    assert_eq!(round_trip_terminal(vec![]), Vec::<u32>::new());
    assert_eq!(round_trip_finite(vec![]), Vec::<u32>::new());
}

#[test]
fn round_trip_one() {
    assert_eq!(round_trip_terminal(vec![7]), vec![7]);
    assert_eq!(round_trip_finite(vec![7]), vec![7]);
}

#[test]
fn round_trip_many() {
    let v: Vec<u32> = (0..100).collect();
    assert_eq!(round_trip_terminal(v.clone()), v);
    assert_eq!(round_trip_finite(v.clone()), v);
}

#[test]
fn terminal_value_seen_once() {
    let it = MapTerm::new(VecItems::from_vec(vec![1u8]), |()| 42);
    let (rest, _) = it.into_next().unwrap_next();
    match rest.into_next() {
        Iteration::Terminal(t) => assert_eq!(t, 42),
        Iteration::Next(_, _) => panic!("expected the terminal value"),
    }
}

#[test]
fn iteration_map_and_map_state() {
    let it: Iteration<u8, u8, &str> = Iteration::Next(1, 2);
    match it.map(|x| x + 10).map_state(|s| s * 3) {
        Iteration::Next(s, x) => assert_eq!((s, x), (3, 12)),
        Iteration::Terminal(_) => panic!("expected an item"),
    }
    let t: Iteration<u8, u8, &str> = Iteration::Terminal("end");
    assert_eq!(t.map(|x| x + 10).unwrap_terminal(), "end");
}

fn counter(start: u64) -> Successors<u64, impl Fn(&u64) -> u64> {
    Successors::new(start, |x: &u64| x + 1)
}

#[test]
fn counter_loop_test() {
    let mut c = counter(0);
    for expected in 0..1042 {
        let (nextc, x) = c.into_next();
        assert_eq!(expected, x);
        c = nextc;
    }
}

#[test]
fn endless_as_finite_and_terminal() {
    let f = counter(5).into_finite_move_iterator();
    let (f, x) = f.into_next().unwrap();
    assert_eq!(x, 5);
    assert_eq!(f.into_next().unwrap().1, 6);
    let t = counter(9).into_terminal_move_iterator();
    let (_, y) = t.into_next().unwrap_next();
    assert_eq!(y, 9);
    let mut it = counter(3).into_iter();
    assert_eq!(it.next(), Some(3));
    assert_eq!(it.next(), Some(4));
}

#[test]
fn finite_as_terminal() {
    let t = VecItems::from_vec(vec![1u8]).into_terminal_move_iterator();
    let (t, x) = t.into_next().unwrap_next();
    assert_eq!(x, 1);
    assert_eq!(t.into_next().unwrap_terminal(), ());
}

#[test]
fn result_sequence_stops_at_first_error() {
    let v: Vec<Result<u8, &str>> = vec![Ok(1), Ok(2), Err("bad"), Ok(3)];
    let it = terminal_move_iterator_from_result_iterator(VecItems::from_vec(v));
    let (it, a) = it.into_next().unwrap_next();
    let (it, b) = it.into_next().unwrap_next();
    assert_eq!((a, b), (1, 2));
    assert_eq!(it.into_next().unwrap_terminal(), Err("bad"));
}

#[test]
fn result_sequence_without_error_ends_ok() {
    let v: Vec<Result<u8, &str>> = vec![Ok(1)];
    let it = terminal_move_iterator_from_result_iterator(VecItems::from_vec(v));
    let (it, a) = it.into_next().unwrap_next();
    assert_eq!(a, 1);
    assert_eq!(it.into_next().unwrap_terminal(), Ok(()));
}

#[test]
fn result_round_trip_keeps_items_and_error() {
    let v: Vec<Result<u8, &str>> = vec![Ok(1), Err("bad"), Ok(3)];
    let tmi = terminal_move_iterator_from_result_iterator(VecItems::from_vec(v));
    let mut back = terminal_move_iterator_into_result_iterator(tmi);
    assert_eq!(back.next(), Some(Ok(1)));
    assert_eq!(back.next(), Some(Err("bad")));
    assert_eq!(back.next(), None);
    assert_eq!(back.next(), None);
}

#[test]
fn result_round_trip_ok_end() {
    let v: Vec<Result<u8, &str>> = vec![Ok(4), Ok(5)];
    let tmi = terminal_move_iterator_from_result_iterator(VecItems::from_vec(v));
    let mut back = terminal_move_iterator_into_result_iterator(tmi);
    assert_eq!(back.next(), Some(Ok(4)));
    assert_eq!(back.next(), Some(Ok(5)));
    assert_eq!(back.next(), None);
}

#[test]
fn count_test() {
    assert_eq!(3, VecItems::from_vec(vec![0usize, 1, 2]).count());
    assert_eq!(0, VecItems::<u8>::from_vec(vec![]).count());
}
