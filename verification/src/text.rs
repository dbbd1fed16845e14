//! Text as the engine's setter wants it: UTF-16, low byte first, closed by a
//! null code unit.

use utf16string::{LittleEndian, WString};
use vstd::prelude::*;

verus! {

/// The two bytes of a 16-bit code unit, low byte first.
pub open spec fn unit_le(u: int) -> Seq<u8> {
    seq![(u % 256) as u8, (u / 256) as u8]
}

/// One character in UTF-16, low byte first: one code unit for a character of
/// the basic plane, a surrogate pair for any other.
pub open spec fn utf16le_char(c: char) -> Seq<u8> {
    let cp = c as u32 as int;
    if cp < 0x10000 {
        unit_le(cp)
    } else {
        unit_le(0xD800 + (cp - 0x10000) / 0x400) + unit_le(0xDC00 + (cp - 0x10000) % 0x400)
    }
}

/// A text in UTF-16, low byte first.
pub open spec fn utf16le(s: Seq<char>) -> Seq<u8>
    decreases s.len(),
{
    if s.len() == 0 {
        Seq::empty()
    } else {
        utf16le(s.drop_last()) + utf16le_char(s.last())
    }
}

/// A text as the setter takes it: in UTF-16, low byte first, followed by two
/// null bytes.
pub open spec fn wide(s: Seq<char>) -> Seq<u8> {
    utf16le(s) + seq![0u8, 0u8]
}

/// The text that is handed to the setter in place of `s`: a single space for
/// the empty text, which the setter would not take, and `s` itself otherwise.
pub open spec fn settable(s: Seq<char>) -> Seq<char> {
    if s.len() == 0 {
        seq![' ']
    } else {
        s
    }
}

/// Calls utf16string's `WString::<LittleEndian>::from(&str)` and
/// `WString::into_bytes`. The conversion pushes the characters one by one,
/// each as one or two 16-bit code units written low byte first, and the bytes
/// of the string are handed out as they are.
#[verifier::external_body]
fn encode_utf16le(s: &str) -> (res: Vec<u8>)
    ensures
        res@ == utf16le(s@),
{
    WString::<LittleEndian>::from(s).into_bytes()
}

/// Encodes a text for the engine: UTF-16, low byte first, with a null code
/// unit at the end.
pub fn to_wide_string(s: &str) -> (res: Vec<u8>)
    ensures
        res@ == wide(s@),
{
    let mut bytes = encode_utf16le(s);
    bytes.push(0);
    bytes.push(0);
    assert(bytes@ =~= utf16le(s@) + seq![0u8, 0u8]);
    bytes
}

/// The bytes to hand to the engine's text setter for `text`. An empty text
/// is replaced by a single space.
pub fn set_text_bytes(text: &str) -> (res: Vec<u8>)
    ensures
        res@ == wide(settable(text@)),
        res@.len() >= 4,
{
    let chosen = if text.unicode_len() == 0 {
        proof {
            reveal_strlit(" ");
            assert(" "@ =~= seq![' ']);
        }
        " "
    } else {
        text
    };
    proof {
        lemma_utf16le_len(chosen@);
    }
    to_wide_string(chosen)
}

/// Every character takes two bytes or four.
pub proof fn lemma_utf16le_len(s: Seq<char>)
    ensures
        2 * s.len() <= utf16le(s).len() <= 4 * s.len(),
        utf16le(s).len() % 2 == 0,
    decreases s.len(),
{
    if s.len() > 0 {
        lemma_utf16le_len(s.drop_last());
    }
}

} // verus!
