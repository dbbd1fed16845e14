//! The parameters of the commands, and what each command decides from them.

use crate::syntax::{decimal, digit_char, Interval, Intervals};
use vstd::prelude::*;
use vstd::string::*;

verus! {

/// Reports the number of pages of a document.
pub struct PageCountCommand {
    /// path to a PDF
    pub pdf: String,
}

/// Extracts the embedded images of a document as JPEG files.
pub struct ExtractImagesCommand {
    /// JPEG quality argument
    pub quality: u8,
    /// only images at least this wide are extracted
    pub min_width: i32,
    /// only images at least this high are extracted
    pub min_height: i32,
    /// only images with at least this area are extracted
    pub min_area: i32,
    /// path to a PDF
    pub pdf: String,
    /// path to a directory where the images will be written
    pub out_dir: String,
}

/// The text of one decimal digit.
fn digit_str(d: usize) -> (res: &'static str)
    requires
        d < 10,
    ensures
        res@ == seq![digit_char(d as nat)],
{
    proof {
        reveal_strlit("0");
        reveal_strlit("1");
        reveal_strlit("2");
        reveal_strlit("3");
        reveal_strlit("4");
        reveal_strlit("5");
        reveal_strlit("6");
        reveal_strlit("7");
        reveal_strlit("8");
        reveal_strlit("9");
    }
    let res = match d {
        0 => "0",
        1 => "1",
        2 => "2",
        3 => "3",
        4 => "4",
        5 => "5",
        6 => "6",
        7 => "7",
        8 => "8",
        _ => "9",
    };
    assert(res@ =~= seq![digit_char(d as nat)]);
    res
}

/// Writes a number in decimal.
pub fn decimal_string(n: usize) -> (res: String)
    ensures
        res@ == decimal(n as nat),
    decreases n,
{
    if n < 10 {
        String::from_str(digit_str(n))
    } else {
        let mut s = decimal_string(n / 10);
        s.append(digit_str(n % 10));
        assert(s@ =~= decimal((n / 10) as nat).push(digit_char((n % 10) as nat)));
        s
    }
}

/// The name of an output file without its extension: a stem, a separator
/// and a number in decimal.
pub open spec fn numbered_name(stem: Seq<char>, separator: Seq<char>, number: usize) -> Seq<char> {
    stem + separator + decimal(number as nat)
}

fn numbered(stem: &str, separator: &str, number: usize) -> (res: String)
    ensures
        res@ == numbered_name(stem@, separator@, number),
{
    let mut name = String::from_str(stem);
    name.append(separator);
    let digits = decimal_string(number);
    name.append(digits.as_str());
    name
}

/// The zero-based position of a page given by its number, which counts from
/// one. Page 0 has none.
pub fn page_position(page: usize) -> (res: Option<usize>)
    ensures
        page == 0 ==> res is None,
        page > 0 ==> res == Some((page - 1) as usize),
{
    if page == 0 {
        None
    } else {
        Some(page - 1)
    }
}

/// The engine's position of the page that an edit names by its number, which
/// counts from one. The least number of all has none.
pub fn native_page_index(page: i32) -> (res: Option<i32>)
    ensures
        page > i32::MIN ==> res == Some((page - 1) as i32),
        page == i32::MIN ==> res is None,
{
    page.checked_sub(1)
}

/// The pages that are rendered: those that were asked for, or all of them,
/// from the first to `page_count`, where none were.
pub fn pages_to_render(pages: Option<Intervals>, page_count: usize) -> (res: Intervals)
    ensures
        res@ == match pages {
            Some(p) => p@,
            None => seq![Interval { start: 1, end: Some(page_count) }],
        },
{
    match pages {
        Some(p) => p,
        None => Intervals::from_range(1, page_count),
    }
}

/// The name, without extension, of the picture of page `page` of the
/// document whose file name has the stem `stem`.
pub fn page_image_name(stem: &str, page: usize) -> (res: String)
    ensures
        res@ == numbered_name(stem@, seq!['_'], page),
{
    proof {
        reveal_strlit("_");
        assert("_"@ =~= seq!['_']);
    }
    numbered(stem, "_", page)
}

impl PageCountCommand {
    /// What the command prints for a document of `page_count` pages: the
    /// number in decimal and nothing else.
    pub fn output(&self, page_count: usize) -> (res: String)
        ensures
            res@ == decimal(page_count as nat),
    {
        decimal_string(page_count)
    }
}

impl ExtractImagesCommand {
    /// Whether an image of the given size passes the three limits.
    pub open spec fn admits(&self, width: i32, height: i32) -> bool {
        height >= self.min_height && width >= self.min_width && width * height >= self.min_area
    }

    /// Decides whether an image of the given size is extracted: it is unless
    /// it is lower than `min_height`, narrower than `min_width`, or smaller
    /// in area than `min_area`.
    pub fn keeps(&self, width: i32, height: i32) -> (res: bool)
        ensures
            res == self.admits(width, height),
    {
        if height < self.min_height || width < self.min_width {
            return false;
        }
        assert(-0x4000_0000_0000_0000 <= width * height <= 0x4000_0000_0000_0000)
            by (nonlinear_arith)
            requires
                -0x8000_0000 <= width <= 0x7fff_ffff,
                -0x8000_0000 <= height <= 0x7fff_ffff,
        ;
        let area: i64 = (width as i64) * (height as i64);
        area >= self.min_area as i64
    }

    /// One step of the walk over a document's images: given how many images
    /// were written so far and the size of the next image, the new count
    /// and, where the image is kept, the name without extension of its file.
    /// An image that is not kept leaves the count as it is; one that is kept
    /// is counted and named by its number, so that the names count from one
    /// without a gap.
    pub fn next_image(&self, written: usize, width: i32, height: i32, stem: &str) -> (res: (
        usize,
        Option<String>,
    ))
        requires
            written < usize::MAX,
        ensures
            !self.admits(width, height) ==> res.0 == written && res.1 is None,
            self.admits(width, height) ==> res.0 == written + 1 && res.1 is Some
                && res.1.unwrap()@ == numbered_name(
                stem@,
                "_image_"@,
                (written + 1) as usize,
            ),
    {
        if self.keeps(width, height) {
            let count: usize = written + 1;
            (count, Some(self.image_name(stem, count)))
        } else {
            (written, None)
        }
    }

    /// The name, without extension, of the file for the `count`-th image
    /// that is extracted from the document whose file name has the stem
    /// `stem`.
    pub fn image_name(&self, stem: &str, count: usize) -> (res: String)
        ensures
            res@ == numbered_name(stem@, "_image_"@, count),
    {
        numbered(stem, "_image_", count)
    }
}

} // verus!
