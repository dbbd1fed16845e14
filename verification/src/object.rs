//! Page objects and the tag that tells their kinds apart.

use vstd::prelude::*;

verus! {

/// The type tag of an image object.
pub const FPDF_PAGEOBJ_IMAGE: i32 = 3;

/// Whether a type tag is that of an image.
pub fn is_image(type_tag: i32) -> (res: bool)
    ensures
        res == (type_tag == FPDF_PAGEOBJ_IMAGE),
{
    type_tag == FPDF_PAGEOBJ_IMAGE
}

/// Narrows an object to an image by its type tag. The object is taken over
/// either way: it comes back where the tag is that of an image, and is let go
/// where it is not.
pub fn into_image<T>(object: T, type_tag: i32) -> (res: Option<T>)
    ensures
        type_tag == FPDF_PAGEOBJ_IMAGE ==> res == Some(object),
        type_tag != FPDF_PAGEOBJ_IMAGE ==> res is None,
{
    if is_image(type_tag) {
        Some(object)
    } else {
        None
    }
}

} // verus!
