//! Sizes, rectangles and points as they are written on the command line.
//!
//! This module cuts such a text into the pieces that hold its numbers. It
//! does not read the numbers: they are fractions, and the caller reads each
//! piece on its own.

use crate::syntax::{find_in, run_len};
use vstd::prelude::*;
use vstd::string::*;

verus! {

/// Whether a character is a number in the sense of Unicode (the general
/// categories Nd, Nl and No), as `char::is_numeric` decides it.
pub uninterp spec fn numeric(c: char) -> bool;

/// The lower-case form of a text, as `str::to_lowercase` gives it.
pub uninterp spec fn lowercase(s: Seq<char>) -> Seq<char>;

/// Whether a character belongs to a number: within ASCII the ten digits do,
/// beyond it whatever Unicode counts as a number. Every other character
/// separates two pieces.
pub open spec fn in_number(c: char) -> bool {
    if (c as u32) < 128 {
        '0' <= c && c <= '9'
    } else {
        numeric(c)
    }
}

/// Calls `char::is_numeric`. The contract names the answer.
#[verifier::external_body]
fn is_numeric(c: char) -> (res: bool)
    ensures
        res == numeric(c),
{
    c.is_numeric()
}

/// Decides whether a character belongs to a number.
pub fn is_in_number(c: char) -> (res: bool)
    ensures
        res == in_number(c),
{
    if (c as u32) < 128 {
        '0' <= c && c <= '9'
    } else {
        is_numeric(c)
    }
}

/// Calls `str::to_lowercase`. The contract names the result.
#[verifier::external_body]
fn to_lowercase(s: &str) -> (res: String)
    ensures
        res@ == lowercase(s@),
{
    s.to_lowercase()
}

/// How many characters of a number stand at `from` and after it before the
/// first character that separates, or before the end.
pub open spec fn numeric_run(s: Seq<char>, from: int) -> nat
    decreases s.len() - from,
{
    if from < 0 || from >= s.len() || !in_number(s[from]) {
        0
    } else {
        1 + numeric_run(s, from + 1)
    }
}

/// The four pieces of a rectangle `WxH+X+Y`, as text.
pub struct GeometryFields<'a> {
    pub width: &'a str,
    pub height: &'a str,
    pub x: &'a str,
    pub y: &'a str,
}

/// The four pieces of a rectangle, as sequences of characters.
pub struct GeometryText {
    pub width: Seq<char>,
    pub height: Seq<char>,
    pub x: Seq<char>,
    pub y: Seq<char>,
}

impl<'a> View for GeometryFields<'a> {
    type V = GeometryText;

    open spec fn view(&self) -> GeometryText {
        GeometryText { width: self.width@, height: self.height@, x: self.x@, y: self.y@ }
    }
}

/// The two pieces of a point `+X+Y`, as text.
pub struct CoordsFields<'a> {
    pub x: &'a str,
    pub y: &'a str,
}

/// The two pieces of a point, as sequences of characters.
pub struct CoordsText {
    pub x: Seq<char>,
    pub y: Seq<char>,
}

impl<'a> View for CoordsFields<'a> {
    type V = CoordsText;

    open spec fn view(&self) -> CoordsText {
        CoordsText { x: self.x@, y: self.y@ }
    }
}

/// The pieces of a size: the width, and the height where the text has an `x`.
pub struct SizeFields {
    pub width: String,
    pub height: Option<String>,
}

/// The pieces of a size, as sequences of characters.
pub struct SizeText {
    pub width: Seq<char>,
    pub height: Option<Seq<char>>,
}

impl View for SizeFields {
    type V = SizeText;

    open spec fn view(&self) -> SizeText {
        SizeText {
            width: self.width@,
            height: match self.height {
                Some(h) => Some(h@),
                None => None,
            },
        }
    }
}

/// The position of the first character at `from` or after it that
/// separates; the length of the text where there is none.
pub open spec fn separator_at(s: Seq<char>, from: int) -> int {
    from + numeric_run(s, from)
}

/// The pieces of a rectangle: the first three characters that belong to no
/// number separate them, and the last piece runs to the end. `None` where
/// the text has fewer than three such characters.
pub open spec fn geometry_text(s: Seq<char>) -> Option<GeometryText> {
    let size = separator_at(s, 0);
    let x = separator_at(s, size + 1);
    let y = separator_at(s, x + 1);
    if y < s.len() {
        Some(
            GeometryText {
                width: s.subrange(0, size),
                height: s.subrange(size + 1, x),
                x: s.subrange(x + 1, y),
                y: s.subrange(y + 1, s.len() as int),
            },
        )
    } else {
        None
    }
}

/// The pieces of a point: the first two characters that belong to no number
/// separate them, what stands before the first is dropped, and the last piece
/// runs to the end. `None` where the text has fewer than two such characters.
pub open spec fn coords_text(s: Seq<char>) -> Option<CoordsText> {
    let x = separator_at(s, 0);
    let y = separator_at(s, x + 1);
    if y < s.len() {
        Some(CoordsText { x: s.subrange(x + 1, y), y: s.subrange(y + 1, s.len() as int) })
    } else {
        None
    }
}

/// The pieces of a size in lower case: with an `x` in it, what stands before
/// the first `x` and what stands between it and the next `x` or the end;
/// without one, the whole text as the width.
pub open spec fn size_text(low: Seq<char>) -> SizeText {
    let i = run_len(low, 'x', 0) as int;
    if i >= low.len() {
        SizeText { width: low, height: None }
    } else {
        let j = i + 1 + run_len(low, 'x', i + 1);
        SizeText { width: low.subrange(0, i), height: Some(low.subrange(i + 1, j)) }
    }
}

/// Finds the first character at `from` or after it that separates.
fn find_separator(s: &str, from: usize, n: usize) -> (res: usize)
    requires
        n == s@.len(),
        from <= n,
    ensures
        from <= res <= n,
        res == separator_at(s@, from as int),
{
    let mut i: usize = from;
    while i < n && is_in_number(s.get_char(i))
        invariant
            from <= i <= n,
            n == s@.len(),
            separator_at(s@, from as int) == separator_at(s@, i as int),
        decreases n - i,
    {
        i = i + 1;
    }
    i
}

/// Cuts a rectangle `WxH+X+Y` into its four pieces.
pub fn split_geometry(s: &str) -> (res: Option<GeometryFields<'_>>)
    ensures
        match res {
            Some(f) => geometry_text(s@) == Some(f@),
            None => geometry_text(s@) is None,
        },
{
    let n = s.unicode_len();
    let size = find_separator(s, 0, n);
    if size >= n {
        return None;
    }
    let x = find_separator(s, size + 1, n);
    if x >= n {
        return None;
    }
    let y = find_separator(s, x + 1, n);
    if y >= n {
        return None;
    }
    Some(
        GeometryFields {
            width: s.substring_char(0, size),
            height: s.substring_char(size + 1, x),
            x: s.substring_char(x + 1, y),
            y: s.substring_char(y + 1, n),
        },
    )
}

/// Cuts a point `+X+Y` into its two pieces.
pub fn split_coords(s: &str) -> (res: Option<CoordsFields<'_>>)
    ensures
        match res {
            Some(f) => coords_text(s@) == Some(f@),
            None => coords_text(s@) is None,
        },
{
    let n = s.unicode_len();
    let x = find_separator(s, 0, n);
    if x >= n {
        return None;
    }
    let y = find_separator(s, x + 1, n);
    if y >= n {
        return None;
    }
    Some(CoordsFields { x: s.substring_char(x + 1, y), y: s.substring_char(y + 1, n) })
}

/// Cuts a size that is already in lower case into its pieces.
pub fn split_lowercase_size(low: &str) -> (res: SizeFields)
    ensures
        res@ == size_text(low@),
{
    let n = low.unicode_len();
    proof {
        assert(low@.subrange(0, n as int) =~= low@);
    }
    let i = find_in(low, 'x', 0, n);
    if i >= n {
        SizeFields { width: low.to_owned(), height: None }
    } else {
        let j = find_in(low, 'x', i + 1, n);
        SizeFields {
            width: low.substring_char(0, i).to_owned(),
            height: Some(low.substring_char(i + 1, j).to_owned()),
        }
    }
}

/// Cuts a size `WxH`, `W` or `xH` into its pieces, in lower case.
pub fn split_size(s: &str) -> (res: SizeFields)
    ensures
        res@ == size_text(lowercase(s@)),
{
    let low = to_lowercase(s);
    split_lowercase_size(low.as_str())
}

/// How the size of a picture follows from the sides that were read.
pub enum SizeRule<T> {
    /// Both sides were read: the picture has them.
    Both(T, T),
    /// Only the width was read: the height follows by the page's ratio.
    FromWidth(T),
    /// Only the height was read: the width follows by the page's ratio.
    FromHeight(T),
}

/// A size of which neither side could be read.
#[derive(Clone, Copy, Debug, PartialEq, Eq, Structural)]
pub struct SizeError;

/// The rule for a picture's size, given each side as far as it could be
/// read: both sides where both were read, the one that was read where only
/// one was, and a refusal where neither was.
pub open spec fn resolution_of<T>(width: Option<T>, height: Option<T>) -> Result<
    SizeRule<T>,
    SizeError,
> {
    match (width, height) {
        (Some(w), Some(h)) => Ok(SizeRule::Both(w, h)),
        (Some(w), None) => Ok(SizeRule::FromWidth(w)),
        (None, Some(h)) => Ok(SizeRule::FromHeight(h)),
        (None, None) => Err(SizeError),
    }
}

/// Decides how a picture's size follows from the two sides of a size, each
/// given as far as its piece could be read as a number. At least one side
/// must have been read: a size with neither is refused. The sides may be of
/// any type: they are moved, never read.
pub fn resolved_size<T>(width: Option<T>, height: Option<T>) -> (res: Result<
    SizeRule<T>,
    SizeError,
>)
    ensures
        res == resolution_of(width, height),
        res is Err <==> width is None && height is None,
{
    match (width, height) {
        (Some(w), Some(h)) => Ok(SizeRule::Both(w, h)),
        (Some(w), None) => Ok(SizeRule::FromWidth(w)),
        (None, Some(h)) => Ok(SizeRule::FromHeight(h)),
        (None, None) => Err(SizeError),
    }
}

} // verus!
