use pdfium_cli::syntax::{Interval, Intervals, IntervalsError};

fn pages(expr: &str, max: usize) -> Vec<usize> {
    let ivs = Intervals::from_str(expr).expect("a valid expression");
    let mut it = ivs.iter(max);
    let mut out = Vec::new();
    while let Some(p) = it.next() {
        out.push(p);
    }
    out
}

fn error(expr: &str) -> IntervalsError {
    match Intervals::from_str(expr) {
        Ok(_) => panic!("accepted {:?}", expr),
        Err(e) => e,
    }
}

#[test]
fn mixed_expression_against_ten() {
    assert_eq!(pages("2,4-6,9-", 10), vec![2, 4, 5, 6, 9, 10]);
}

#[test]
fn end_before_start_is_rejected() {
    assert_eq!(error("5-3"), IntervalsError::EndBeforeStart);
    assert_eq!(error("1,5-3,x"), IntervalsError::EndBeforeStart);
}

#[test]
fn closed_interval_ignores_the_maximum() {
    assert_eq!(pages("3-7", 7), vec![3, 4, 5, 6, 7]);
    assert_eq!(pages("3-7", 100), vec![3, 4, 5, 6, 7]);
    assert_eq!(pages("3-7", 1), vec![3, 4, 5, 6, 7]);
    assert_eq!(pages("4-4", 9), vec![4]);
}

#[test]
fn open_interval_runs_to_the_maximum() {
    assert_eq!(pages("4-", 6), vec![4, 5, 6]);
    assert_eq!(pages("4-", 8), vec![4, 5, 6, 7, 8]);
    assert_eq!(pages("4-", 4), vec![4]);
    assert_eq!(pages("4-", 3), Vec::<usize>::new());
}

#[test]
fn single_page() {
    assert_eq!(pages("12", 3), vec![12]);
    assert_eq!(pages("0", 3), vec![0]);
}

#[test]
fn order_is_kept_and_nothing_is_removed() {
    assert_eq!(pages("5,1-2,5,2-3", 9), vec![5, 1, 2, 5, 2, 3]);
}

#[test]
fn plus_sign_and_leading_zeros() {
    assert_eq!(pages("+2-+4", 9), vec![2, 3, 4]);
    assert_eq!(pages("007", 9), vec![7]);
}

#[test]
fn bad_numbers_are_rejected() {
    assert_eq!(error(""), IntervalsError::InvalidNumber);
    assert_eq!(error("a"), IntervalsError::InvalidNumber);
    assert_eq!(error("-3"), IntervalsError::InvalidNumber);
    assert_eq!(error("+"), IntervalsError::InvalidNumber);
    assert_eq!(error("1,,2"), IntervalsError::InvalidNumber);
    assert_eq!(error("1,"), IntervalsError::InvalidNumber);
    assert_eq!(error("1-2-3"), IntervalsError::InvalidNumber);
    assert_eq!(error("1 - 2"), IntervalsError::InvalidNumber);
    assert_eq!(error("1.5"), IntervalsError::InvalidNumber);
    assert_eq!(error("99999999999999999999999999999"), IntervalsError::InvalidNumber);
    assert_eq!(error("x,5-3"), IntervalsError::InvalidNumber);
}

#[test]
fn largest_page_number() {
    let text = format!("{}", usize::MAX);
    assert_eq!(pages(&text, 1), vec![usize::MAX]);
    let range = format!("{}-{}", usize::MAX - 1, usize::MAX);
    assert_eq!(pages(&range, 1), vec![usize::MAX - 1, usize::MAX]);
    assert_eq!(pages(&format!("{}-", usize::MAX), usize::MAX), vec![usize::MAX]);
}

#[test]
fn walk_can_be_started_again() {
    let ivs = Intervals::from_str("1-2,4-").expect("a valid expression");
    for max in [4usize, 5] {
        let mut it = ivs.iter(max);
        let mut out = Vec::new();
        while let Some(p) = it.next() {
            out.push(p);
        }
        let mut want = vec![1, 2];
        want.extend(4..=max);
        assert_eq!(out, want);
        assert_eq!(it.next(), None);
        assert_eq!(it.next(), None);
    }
}

#[test]
fn range_of_all_pages() {
    let all = Intervals::from_range(1, 3);
    let mut it = all.iter(3);
    assert_eq!(it.next(), Some(1));
    assert_eq!(it.next(), Some(2));
    assert_eq!(it.next(), Some(3));
    assert_eq!(it.next(), None);
    let none = Intervals::from_range(1, 0);
    assert_eq!(none.iter(0).next(), None);
}

#[test]
fn interval_value() {
    let iv = Interval { start: 2, end: None };
    assert_eq!(iv, Interval { start: 2, end: None });
    assert_ne!(iv, Interval { start: 2, end: Some(2) });
}

#[test]
fn copy_selects_the_same_pages() {
    let ivs = Intervals::from_str("3,1-2,7-").expect("a valid expression");
    let copy = ivs.clone();
    let mut a = ivs.iter(8);
    let mut b = copy.iter(8);
    loop {
        let x = a.next();
        assert_eq!(x, b.next());
        if x.is_none() {
            break;
        }
    }
}

#[test]
fn expression_parses_through_the_trait() {
    let ivs: Intervals = "2,4-".parse().expect("a valid expression");
    let mut it = ivs.iter(5);
    assert_eq!(it.next(), Some(2));
    assert_eq!(it.next(), Some(4));
    assert_eq!(it.next(), Some(5));
    assert_eq!(it.next(), None);
    assert_eq!("5-3".parse::<Intervals>().err(), Some(IntervalsError::EndBeforeStart));
}
