//! Page intervals: the expression language that selects pages, and the
//! sequence of page numbers that an expression stands for.
//!
//! An expression is a list of items separated by commas. An item is `N` (the
//! page N), `N-` (N up to a maximum given when the pages are walked) or `N-M`
//! (N up to M, with N <= M). Pages come out in the order in which the items
//! were written, with nothing removed and nothing sorted.

use vstd::prelude::*;
use vstd::string::*;

verus! {

/// One item of a page-interval expression. An `end` of `None` is open: it
/// stands for the maximum given when the pages are walked.
#[derive(Clone, Copy, Debug, PartialEq, Eq, Structural)]
pub struct Interval {
    pub start: usize,
    pub end: Option<usize>,
}

/// Why a page-interval expression was rejected.
#[derive(Clone, Copy, Debug, PartialEq, Eq, Structural)]
pub enum IntervalsError {
    /// A page number is missing, is not a decimal number, or does not fit.
    InvalidNumber,
    /// The end of an interval is less than its start.
    EndBeforeStart,
}

/// A parsed page-interval expression.
#[derive(Debug)]
pub struct Intervals {
    items: Vec<Interval>,
}

/// A walk over the pages of an [`Intervals`] against a fixed maximum.
pub struct IntervalsIterator<'a> {
    ivs: &'a Intervals,
    offset: usize,
    range: Option<(usize, usize)>,
    max: usize,
}

pub open spec fn is_digit(c: char) -> bool {
    '0' <= c && c <= '9'
}

pub open spec fn digit_value(c: char) -> nat {
    (c as u32 - '0' as u32) as nat
}

pub open spec fn all_digits(s: Seq<char>) -> bool {
    forall|i: int| 0 <= i < s.len() ==> is_digit(#[trigger] s[i])
}

/// The number that a run of decimal digits denotes.
pub open spec fn digits_value(s: Seq<char>) -> nat
    decreases s.len(),
{
    if s.len() == 0 {
        0
    } else {
        digits_value(s.drop_last()) * 10 + digit_value(s.last())
    }
}

/// The page number that a piece of text denotes: an optional `+`, then one or
/// more decimal digits and nothing else, with a value that fits in `usize`.
pub open spec fn parse_number(s: Seq<char>) -> Option<usize> {
    let body = if s.len() > 0 && s[0] == '+' {
        s.skip(1)
    } else {
        s
    };
    if body.len() > 0 && all_digits(body) && digits_value(body) <= usize::MAX {
        Some(digits_value(body) as usize)
    } else {
        None
    }
}

/// How many characters stand at `from` and after it before the first `c`, or
/// before the end where there is no `c`.
pub open spec fn run_len(s: Seq<char>, c: char, from: int) -> nat
    decreases s.len() - from,
{
    if from < 0 || from >= s.len() || s[from] == c {
        0
    } else {
        1 + run_len(s, c, from + 1)
    }
}

/// The interval that one item denotes.
pub open spec fn parse_interval(item: Seq<char>) -> Result<Interval, IntervalsError> {
    let dash = run_len(item, '-', 0) as int;
    match parse_number(item.subrange(0, dash)) {
        None => Err(IntervalsError::InvalidNumber),
        Some(start) => if dash >= item.len() {
            Ok(Interval { start, end: Some(start) })
        } else if dash + 1 == item.len() {
            Ok(Interval { start, end: None })
        } else {
            match parse_number(item.subrange(dash + 1, item.len() as int)) {
                None => Err(IntervalsError::InvalidNumber),
                Some(end) => if end < start {
                    Err(IntervalsError::EndBeforeStart)
                } else {
                    Ok(Interval { start, end: Some(end) })
                },
            }
        },
    }
}

/// The intervals that the items from position `from` on denote: each item in
/// turn, and the error of the first item that has one.
pub open spec fn parse_intervals_from(s: Seq<char>, from: int) -> Result<
    Seq<Interval>,
    IntervalsError,
>
    decreases s.len() - from,
{
    let comma = from + run_len(s, ',', from);
    if from < 0 || from > s.len() {
        Err(IntervalsError::InvalidNumber)
    } else {
        match parse_interval(s.subrange(from, comma)) {
            Err(e) => Err(e),
            Ok(iv) => if comma >= s.len() {
                Ok(seq![iv])
            } else {
                match parse_intervals_from(s, comma + 1) {
                    Err(e) => Err(e),
                    Ok(rest) => Ok(seq![iv] + rest),
                }
            },
        }
    }
}

/// The intervals that a whole expression denotes.
pub open spec fn parse_intervals(s: Seq<char>) -> Result<Seq<Interval>, IntervalsError> {
    parse_intervals_from(s, 0)
}

/// The numbers `lo`, `lo + 1`, ..., `hi`; none where `hi < lo`.
pub open spec fn range_seq(lo: usize, hi: usize) -> Seq<usize> {
    if lo <= hi {
        Seq::new((hi - lo + 1) as nat, |i: int| (lo + i) as usize)
    } else {
        Seq::empty()
    }
}

/// The pages of one interval against a maximum.
pub open spec fn interval_pages(iv: Interval, max: usize) -> Seq<usize> {
    match iv.end {
        Some(end) => range_seq(iv.start, end),
        None => range_seq(iv.start, max),
    }
}

/// The pages of the intervals from position `k` on, in the order written.
pub open spec fn pages_from(items: Seq<Interval>, k: int, max: usize) -> Seq<usize>
    decreases items.len() - k,
{
    if k < 0 || k >= items.len() {
        Seq::empty()
    } else {
        interval_pages(items[k], max) + pages_from(items, k + 1, max)
    }
}

/// The pages of a list of intervals against a maximum.
pub open spec fn pages_of(items: Seq<Interval>, max: usize) -> Seq<usize> {
    pages_from(items, 0, max)
}

proof fn lemma_digits_prefix(s: Seq<char>, k: int)
    requires
        0 <= k <= s.len(),
    ensures
        digits_value(s.subrange(0, k)) <= digits_value(s),
    decreases s.len(),
{
    if k < s.len() {
        assert(s.drop_last().subrange(0, k) =~= s.subrange(0, k));
        lemma_digits_prefix(s.drop_last(), k);
    } else {
        assert(s.subrange(0, k) =~= s);
    }
}

/// Reads the page number written in the characters `from..to` of `s`.
fn parse_number_in(s: &str, from: usize, to: usize) -> (res: Option<usize>)
    requires
        from <= to <= s@.len(),
    ensures
        res == parse_number(s@.subrange(from as int, to as int)),
{
    let ghost text = s@.subrange(from as int, to as int);
    let mut i: usize = from;
    if from < to && s.get_char(from) == '+' {
        i = from + 1;
    }
    let first: usize = i;
    let ghost body = s@.subrange(first as int, to as int);
    assert(body =~= if text.len() > 0 && text[0] == '+' {
        text.skip(1)
    } else {
        text
    });
    if first == to {
        return None;
    }
    let mut acc: usize = 0;
    while i < to
        invariant
            first <= i <= to <= s@.len(),
            body == s@.subrange(first as int, to as int),
            body.len() > 0,
            parse_number(s@.subrange(from as int, to as int)) == if all_digits(body)
                && digits_value(body) <= usize::MAX {
                Some(digits_value(body) as usize)
            } else {
                None
            },
            all_digits(body.subrange(0, i - first)),
            acc == digits_value(body.subrange(0, i - first)),
        decreases to - i,
    {
        let c = s.get_char(i);
        let ghost k = i - first;
        assert(body[k] == c);
        assert(body.subrange(0, k + 1).drop_last() =~= body.subrange(0, k));
        assert(body.subrange(0, k + 1).last() == c);
        if !('0' <= c && c <= '9') {
            return None;
        }
        let d: usize = (c as u32 - '0' as u32) as usize;
        proof {
            lemma_digits_prefix(body, k + 1);
        }
        let scaled = match acc.checked_mul(10) {
            Some(v) => v,
            None => {
                return None;
            },
        };
        acc = match scaled.checked_add(d) {
            Some(v) => v,
            None => {
                return None;
            },
        };
        i = i + 1;
        assert forall|j: int| 0 <= j < i - first implies is_digit(
            #[trigger] body.subrange(0, i - first)[j],
        ) by {
            if j < k {
                assert(body.subrange(0, k)[j] == body[j]);
            }
        }
    }
    assert(body.subrange(0, i - first) =~= body);
    Some(acc)
}

/// Finds the first `c` at `from` or after it in the characters before `to`.
pub(crate) fn find_in(s: &str, c: char, from: usize, to: usize) -> (res: usize)
    requires
        from <= to <= s@.len(),
    ensures
        from <= res <= to,
        res == from + run_len(s@.subrange(0, to as int), c, from as int),
{
    let ghost t = s@.subrange(0, to as int);
    let mut i: usize = from;
    while i < to && s.get_char(i) != c
        invariant
            from <= i <= to <= s@.len(),
            t == s@.subrange(0, to as int),
            from + run_len(t, c, from as int) == i + run_len(t, c, i as int),
        decreases to - i,
    {
        assert(t[i as int] == s@[i as int]);
        i = i + 1;
    }
    proof {
        if i < to {
            assert(t[i as int] == s@[i as int]);
        }
    }
    i
}

proof fn lemma_run_len_window(s: Seq<char>, c: char, from: int, to: int)
    requires
        0 <= from <= to <= s.len(),
    ensures
        run_len(s.subrange(from, to), c, 0) == run_len(s.subrange(0, to), c, from),
{
    let a = s.subrange(from, to);
    let b = s.subrange(0, to);
    lemma_run_len_shift(a, b, c, 0, from);
}

proof fn lemma_run_len_shift(a: Seq<char>, b: Seq<char>, c: char, i: int, shift: int)
    requires
        0 <= i <= a.len(),
        0 <= shift,
        b.len() == a.len() + shift,
        forall|j: int| 0 <= j < a.len() ==> a[j] == b[j + shift],
    ensures
        run_len(a, c, i) == run_len(b, c, i + shift),
    decreases a.len() - i,
{
    if i < a.len() && a[i] != c {
        lemma_run_len_shift(a, b, c, i + 1, shift);
    }
}

/// Reads the interval written in the characters `from..to` of `s`.
fn parse_interval_in(s: &str, from: usize, to: usize) -> (res: Result<Interval, IntervalsError>)
    requires
        from <= to <= s@.len(),
    ensures
        res == parse_interval(s@.subrange(from as int, to as int)),
{
    let ghost item = s@.subrange(from as int, to as int);
    let dash = find_in(s, '-', from, to);
    proof {
        lemma_run_len_window(s@, '-', from as int, to as int);
        assert(run_len(item, '-', 0) == dash - from);
        assert(item.subrange(0, dash - from) =~= s@.subrange(from as int, dash as int));
    }
    let start = match parse_number_in(s, from, dash) {
        Some(n) => n,
        None => {
            return Err(IntervalsError::InvalidNumber);
        },
    };
    if dash == to {
        Ok(Interval { start, end: Some(start) })
    } else if dash + 1 == to {
        Ok(Interval { start, end: None })
    } else {
        assert(item.subrange(dash - from + 1, item.len() as int) =~= s@.subrange(
            dash + 1,
            to as int,
        ));
        match parse_number_in(s, dash + 1, to) {
            None => Err(IntervalsError::InvalidNumber),
            Some(end) => if end < start {
                Err(IntervalsError::EndBeforeStart)
            } else {
                Ok(Interval { start, end: Some(end) })
            },
        }
    }
}

/// What a parse of the whole is, given the intervals already read and the
/// parse of what is left.
spec fn prepend(done: Seq<Interval>, rest: Result<Seq<Interval>, IntervalsError>) -> Result<
    Seq<Interval>,
    IntervalsError,
> {
    match rest {
        Err(e) => Err(e),
        Ok(r) => Ok(done + r),
    }
}

impl View for Intervals {
    type V = Seq<Interval>;

    closed spec fn view(&self) -> Seq<Interval> {
        self.items@
    }
}

impl Clone for Intervals {
    /// A copy with the same intervals in the same order.
    fn clone(&self) -> (res: Self)
        ensures
            res@ == self@,
    {
        let mut items: Vec<Interval> = Vec::new();
        let mut i: usize = 0;
        while i < self.items.len()
            invariant
                i <= self.items@.len(),
                items@ == self.items@.subrange(0, i as int),
            decreases self.items@.len() - i,
        {
            items.push(self.items[i]);
            assert(items@ =~= self.items@.subrange(0, i + 1));
            i = i + 1;
        }
        assert(items@ =~= self.items@);
        Intervals { items }
    }
}

impl std::str::FromStr for Intervals {
    type Err = IntervalsError;

    /// Parses a page-interval expression, as [`Intervals::from_str`] does.
    fn from_str(s: &str) -> (res: Result<Intervals, IntervalsError>)
        ensures
            match res {
                Ok(ivs) => parse_intervals(s@) == Ok::<Seq<Interval>, IntervalsError>(ivs@),
                Err(e) => parse_intervals(s@) == Err::<Seq<Interval>, IntervalsError>(e),
            },
    {
        Intervals::from_str(s)
    }
}

impl Intervals {
    /// Parses a page-interval expression. The result is exactly what
    /// [`parse_intervals`] gives: the intervals in the order written, or the
    /// error of the first item that is not an interval.
    pub fn from_str(s: &str) -> (res: Result<Intervals, IntervalsError>)
        ensures
            match res {
                Ok(ivs) => parse_intervals(s@) == Ok::<Seq<Interval>, IntervalsError>(ivs@),
                Err(e) => parse_intervals(s@) == Err::<Seq<Interval>, IntervalsError>(e),
            },
    {
        let n = s.unicode_len();
        let mut items: Vec<Interval> = Vec::new();
        let mut from: usize = 0;
        loop
            invariant
                n == s@.len(),
                from <= n,
                parse_intervals(s@) == prepend(items@, parse_intervals_from(s@, from as int)),
            decreases n - from,
        {
            let comma = find_in(s, ',', from, n);
            proof {
                assert(s@.subrange(0, n as int) =~= s@);
            }
            let iv = match parse_interval_in(s, from, comma) {
                Ok(iv) => iv,
                Err(e) => {
                    return Err(e);
                },
            };
            let ghost before = items@;
            items.push(iv);
            if comma >= n {
                assert(before + seq![iv] =~= items@);
                return Ok(Intervals { items });
            }
            proof {
                let rest = parse_intervals_from(s@, comma + 1);
                match rest {
                    Ok(r) => {
                        assert(before + (seq![iv] + r) =~= items@ + r);
                    },
                    Err(_) => {},
                }
            }
            from = comma + 1;
        }
    }

    /// The single closed interval `start..=end`; it has no pages where
    /// `end < start`.
    pub fn from_range(start: usize, end: usize) -> (res: Intervals)
        ensures
            res@ == seq![Interval { start, end: Some(end) }],
    {
        let mut items: Vec<Interval> = Vec::new();
        items.push(Interval { start, end: Some(end) });
        Intervals { items }
    }

    /// The pages that these intervals select against `max`.
    pub open spec fn pages(&self, max: usize) -> Seq<usize> {
        pages_of(self@, max)
    }

    /// Starts a walk over the pages against `max`. Each call starts anew.
    pub fn iter(&self, max: usize) -> (it: IntervalsIterator<'_>)
        ensures
            it@ == self.pages(max),
    {
        IntervalsIterator { ivs: self, offset: 0, range: None, max }
    }
}

impl<'a> View for IntervalsIterator<'a> {
    type V = Seq<usize>;

    /// The pages that the walk has yet to give, in order.
    closed spec fn view(&self) -> Seq<usize> {
        self.current() + pages_from(self.ivs@, self.offset as int, self.max)
    }
}

impl<'a> IntervalsIterator<'a> {
    #[verifier::type_invariant]
    spec fn well_formed(&self) -> bool {
        &&& self.offset <= self.ivs@.len()
        &&& match self.range {
            Some((lo, hi)) => lo <= hi,
            None => true,
        }
    }

    spec fn current(&self) -> Seq<usize> {
        match self.range {
            Some((lo, hi)) => range_seq(lo, hi),
            None => Seq::empty(),
        }
    }

    /// Gives the next page, or `None` when every page has been given.
    pub fn next(&mut self) -> (res: Option<usize>)
        ensures
            old(self)@.len() == 0 ==> res is None && final(self)@ == old(self)@,
            old(self)@.len() > 0 ==> res == Some(old(self)@[0]) && final(self)@ == old(self)@.skip(1),
    {
        proof {
            use_type_invariant(&*self);
        }
        loop
            invariant
                self.offset <= self.ivs@.len(),
                match self.range {
                    Some((lo, hi)) => lo <= hi,
                    None => true,
                },
                self@ == old(self)@,
                self.ivs == old(self).ivs,
                self.max == old(self).max,
            decreases self.ivs@.len() - self.offset, self.range is Some as int,
        {
            match self.range {
                Some((lo, hi)) => {
                    let ghost rest = pages_from(self.ivs@, self.offset as int, self.max);
                    if lo < hi {
                        self.range = Some((lo + 1, hi));
                        assert(range_seq(lo, hi).skip(1) =~= range_seq((lo + 1) as usize, hi));
                    } else {
                        self.range = None;
                        assert(range_seq(lo, hi).skip(1) =~= Seq::<usize>::empty());
                    }
                    assert(range_seq(lo, hi)[0] == lo);
                    assert((range_seq(lo, hi) + rest).skip(1) =~= range_seq(lo, hi).skip(1)
                        + rest);
                    return Some(lo);
                },
                None => {
                    if self.offset < self.ivs.items.len() {
                        let iv = self.ivs.items[self.offset];
                        let hi = match iv.end {
                            Some(end) => end,
                            None => self.max,
                        };
                        assert(interval_pages(iv, self.max) == range_seq(iv.start, hi));
                        self.offset = self.offset + 1;
                        if iv.start <= hi {
                            self.range = Some((iv.start, hi));
                        }
                    } else {
                        return None;
                    }
                },
            }
        }
    }
}

proof fn lemma_run_len_exact(s: Seq<char>, c: char, from: int, to: int)
    requires
        0 <= from <= to <= s.len(),
        forall|i: int| from <= i < to ==> s[i] != c,
        to < s.len() ==> s[to] == c,
    ensures
        run_len(s, c, from) == to - from,
    decreases to - from,
{
    if from < to {
        lemma_run_len_exact(s, c, from + 1, to);
    }
}

/// A text that denotes a page number holds nothing but digits and, in front,
/// at most one `+`.
proof fn lemma_number_chars(s: Seq<char>, i: int)
    requires
        parse_number(s) is Some,
        0 <= i < s.len(),
    ensures
        is_digit(s[i]) || s[i] == '+',
        s.len() > 0,
{
    if s[0] == '+' {
        if i > 0 {
            assert(s.skip(1)[i - 1] == s[i]);
        }
    }
}

/// The text `t` alone, with no comma in it, is one item.
proof fn lemma_single_item(t: Seq<char>)
    requires
        forall|i: int| 0 <= i < t.len() ==> t[i] != ',',
    ensures
        parse_intervals(t) == match parse_interval(t) {
            Ok(iv) => Ok::<Seq<Interval>, IntervalsError>(seq![iv]),
            Err(e) => Err(e),
        },
{
    lemma_run_len_exact(t, ',', 0, t.len() as int);
    assert(t.subrange(0, t.len() as int) =~= t);
}

/// The pages of a single interval are those of the interval.
proof fn lemma_single_pages(iv: Interval, max: usize)
    ensures
        pages_of(seq![iv], max) == interval_pages(iv, max),
{
    let items = seq![iv];
    assert(pages_from(items, 1, max) =~= Seq::<usize>::empty());
    assert(pages_from(items, 0, max) =~= interval_pages(iv, max));
}

/// A closed interval selects its own pages, whatever the maximum: where `ta`
/// denotes the number `a` and `tb` the number `b`, with `a <= b`, the
/// expression made of `ta`, a dash and `tb` parses to the one interval from
/// `a` to `b`, and its pages against any maximum are `a, a + 1, ..., b`.
pub proof fn lemma_closed_interval(ta: Seq<char>, tb: Seq<char>, a: usize, b: usize, max: usize)
    requires
        parse_number(ta) == Some(a),
        parse_number(tb) == Some(b),
        a <= b,
    ensures
        parse_intervals(ta + seq!['-'] + tb) == Ok::<Seq<Interval>, IntervalsError>(
            seq![Interval { start: a, end: Some(b) }],
        ),
        pages_of(seq![Interval { start: a, end: Some(b) }], max) == range_seq(a, b),
        pages_of(seq![Interval { start: a, end: Some(b) }], max).len() == b - a + 1,
        forall|i: int|
            0 <= i <= b - a ==> #[trigger] pages_of(
                seq![Interval { start: a, end: Some(b) }],
                max,
            )[i] == a + i,
{
    let t = ta + seq!['-'] + tb;
    let n = ta.len() as int;
    assert forall|i: int| 0 <= i < t.len() implies t[i] != ',' by {
        if i < n {
            lemma_number_chars(ta, i);
        } else if i > n {
            lemma_number_chars(tb, i - n - 1);
        }
    }
    lemma_single_item(t);
    assert forall|i: int| 0 <= i < n implies t[i] != '-' by {
        lemma_number_chars(ta, i);
    }
    lemma_run_len_exact(t, '-', 0, n);
    lemma_number_chars(tb, 0);
    assert(t.subrange(0, n) =~= ta);
    assert(t.subrange(n + 1, t.len() as int) =~= tb);
    lemma_single_pages(Interval { start: a, end: Some(b) }, max);
}

/// An open interval runs up to the maximum: where `ta` denotes the number `a`,
/// the expression made of `ta` and a dash parses to the one open interval
/// from `a`, and its pages against a maximum `max >= a` are
/// `a, a + 1, ..., max`. Another maximum changes the upper end and nothing
/// else.
pub proof fn lemma_open_interval(ta: Seq<char>, a: usize, max: usize)
    requires
        parse_number(ta) == Some(a),
        a <= max,
    ensures
        parse_intervals(ta + seq!['-']) == Ok::<Seq<Interval>, IntervalsError>(
            seq![Interval { start: a, end: None }],
        ),
        pages_of(seq![Interval { start: a, end: None }], max) == range_seq(a, max),
        pages_of(seq![Interval { start: a, end: None }], max).len() == max - a + 1,
        forall|i: int|
            0 <= i <= max - a ==> #[trigger] pages_of(seq![Interval { start: a, end: None }], max)[i]
                == a + i,
{
    let t = ta + seq!['-'];
    let n = ta.len() as int;
    assert forall|i: int| 0 <= i < t.len() implies t[i] != ',' by {
        if i < n {
            lemma_number_chars(ta, i);
        }
    }
    lemma_single_item(t);
    assert forall|i: int| 0 <= i < n implies t[i] != '-' by {
        lemma_number_chars(ta, i);
    }
    lemma_run_len_exact(t, '-', 0, n);
    assert(t.subrange(0, n) =~= ta);
    lemma_single_pages(Interval { start: a, end: None }, max);
}

/// The decimal digit for a value below ten.
pub open spec fn digit_char(d: nat) -> char
    recommends
        d < 10,
{
    if d == 0 {
        '0'
    } else if d == 1 {
        '1'
    } else if d == 2 {
        '2'
    } else if d == 3 {
        '3'
    } else if d == 4 {
        '4'
    } else if d == 5 {
        '5'
    } else if d == 6 {
        '6'
    } else if d == 7 {
        '7'
    } else if d == 8 {
        '8'
    } else {
        '9'
    }
}

/// A number written in decimal, without sign or leading zeros.
pub open spec fn decimal(n: nat) -> Seq<char>
    decreases n,
{
    if n < 10 {
        seq![digit_char(n)]
    } else {
        decimal(n / 10).push(digit_char(n % 10))
    }
}

proof fn lemma_decimal_digits(n: nat)
    ensures
        decimal(n).len() > 0,
        all_digits(decimal(n)),
        digits_value(decimal(n)) == n,
    decreases n,
{
    if n < 10 {
        let s = seq![digit_char(n)];
        assert(s.drop_last() =~= Seq::<char>::empty());
        assert(digits_value(s.drop_last()) == 0);
        assert(s.last() == digit_char(n));
    } else {
        lemma_decimal_digits(n / 10);
        let p = decimal(n / 10);
        let s = p.push(digit_char(n % 10));
        assert(s.drop_last() =~= p);
        assert(s.last() == digit_char(n % 10));
        assert forall|i: int| 0 <= i < s.len() implies is_digit(#[trigger] s[i]) by {
            if i < p.len() {
                assert(s[i] == p[i]);
            }
        }
    }
}

/// Every page number, written in decimal, denotes itself.
pub proof fn lemma_decimal_denotes(n: usize)
    ensures
        parse_number(decimal(n as nat)) == Some(n),
{
    lemma_decimal_digits(n as nat);
    let s = decimal(n as nat);
    assert(is_digit(s[0]));
}

/// Written in decimal, the expression `a-b` with `a <= b` selects exactly
/// the pages `a, a + 1, ..., b`, in this order, against every maximum.
pub proof fn lemma_closed_interval_decimal(a: usize, b: usize, max: usize)
    requires
        a <= b,
    ensures
        parse_intervals(decimal(a as nat) + seq!['-'] + decimal(b as nat)) == Ok::<
            Seq<Interval>,
            IntervalsError,
        >(seq![Interval { start: a, end: Some(b) }]),
        pages_of(seq![Interval { start: a, end: Some(b) }], max) == range_seq(a, b),
{
    lemma_decimal_denotes(a);
    lemma_decimal_denotes(b);
    lemma_closed_interval(decimal(a as nat), decimal(b as nat), a, b, max);
}

/// Written in decimal, the expression `a-` selects exactly the pages
/// `a, a + 1, ..., max` against a maximum `max >= a`: two maxima give the same
/// pages up to the lesser of them.
pub proof fn lemma_open_interval_decimal(a: usize, max: usize, other: usize)
    requires
        a <= max <= other,
    ensures
        parse_intervals(decimal(a as nat) + seq!['-']) == Ok::<Seq<Interval>, IntervalsError>(
            seq![Interval { start: a, end: None }],
        ),
        pages_of(seq![Interval { start: a, end: None }], max) == range_seq(a, max),
        pages_of(seq![Interval { start: a, end: None }], other) == range_seq(a, other),
        pages_of(seq![Interval { start: a, end: None }], max) == pages_of(
            seq![Interval { start: a, end: None }],
            other,
        ).subrange(0, max - a + 1),
{
    lemma_decimal_denotes(a);
    lemma_open_interval(decimal(a as nat), a, max);
    lemma_open_interval(decimal(a as nat), a, other);
    assert(range_seq(a, max) =~= range_seq(a, other).subrange(0, max - a + 1));
}

proof fn lemma_pages_from_concat(a: Seq<Interval>, b: Seq<Interval>, k: int, max: usize)
    requires
        0 <= k <= a.len(),
    ensures
        pages_from(a + b, k, max) == pages_from(a, k, max) + pages_of(b, max),
    decreases a.len() - k,
{
    if k < a.len() {
        lemma_pages_from_concat(a, b, k + 1, max);
        assert((a + b)[k] == a[k]);
        assert(pages_from(a + b, k, max) =~= pages_from(a, k, max) + pages_of(b, max));
    } else {
        lemma_pages_from_shift(a, b, 0, max);
        assert(pages_from(a, k, max) =~= Seq::<usize>::empty());
        assert(pages_from(a + b, k, max) =~= pages_from(a, k, max) + pages_of(b, max));
    }
}

proof fn lemma_pages_from_shift(a: Seq<Interval>, b: Seq<Interval>, k: int, max: usize)
    requires
        0 <= k <= b.len(),
    ensures
        pages_from(a + b, a.len() + k, max) == pages_from(b, k, max),
    decreases b.len() - k,
{
    if k < b.len() {
        lemma_pages_from_shift(a, b, k + 1, max);
        assert((a + b)[a.len() + k] == b[k]);
    }
}

/// Pages come in the order in which the intervals are written: the pages of
/// two lists of intervals, one after the other, are the pages of the first
/// followed by the pages of the second, with nothing removed or moved.
pub proof fn lemma_pages_in_order(a: Seq<Interval>, b: Seq<Interval>, max: usize)
    ensures
        pages_of(a + b, max) == pages_of(a, max) + pages_of(b, max),
{
    lemma_pages_from_concat(a, b, 0, max);
}

proof fn lemma_parse_from_shift(p: Seq<char>, y: Seq<char>, k: int)
    requires
        0 <= k <= y.len(),
    ensures
        parse_intervals_from(p + y, p.len() + k) == parse_intervals_from(y, k),
    decreases y.len() - k,
{
    let s = p + y;
    let n = p.len() as int;
    lemma_run_len_shift(y, s, ',', k, n);
    let comma = k + run_len(y, ',', k);
    lemma_run_len_exact_bound(y, ',', k);
    assert(s.subrange(n + k, n + comma) =~= y.subrange(k, comma));
    if comma < y.len() {
        lemma_parse_from_shift(p, y, comma + 1);
    }
}

proof fn lemma_run_len_exact_bound(s: Seq<char>, c: char, from: int)
    requires
        0 <= from <= s.len(),
    ensures
        from + run_len(s, c, from) <= s.len(),
    decreases s.len() - from,
{
    if from < s.len() && s[from] != c {
        lemma_run_len_exact_bound(s, c, from + 1);
    }
}

/// An expression is a list of items with commas between them: where `x` has
/// no comma, the expression made of `x`, a comma and `y` denotes the interval
/// of `x` followed by the intervals of `y`, and the first error among them
/// where there is one.
pub proof fn lemma_parse_list(x: Seq<char>, y: Seq<char>)
    requires
        forall|i: int| 0 <= i < x.len() ==> x[i] != ',',
    ensures
        parse_intervals(x + seq![','] + y) == match parse_interval(x) {
            Err(e) => Err::<Seq<Interval>, IntervalsError>(e),
            Ok(iv) => match parse_intervals(y) {
                Err(e) => Err(e),
                Ok(rest) => Ok(seq![iv] + rest),
            },
        },
{
    let p = x + seq![','];
    let s = p + y;
    let n = x.len() as int;
    lemma_run_len_exact(s, ',', 0, n);
    assert(s.subrange(0, n) =~= x);
    lemma_parse_from_shift(p, y, 0);
}

} // verus!
