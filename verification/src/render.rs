//! How a page is turned when it is rendered.

use vstd::prelude::*;

verus! {

/// Whether a page rotation code stands for a quarter turn: 1 is 90 degrees
/// clockwise, 3 is 270 degrees clockwise.
pub open spec fn quarter_turn(rotation: i32) -> bool {
    rotation == 1 || rotation == 3
}

/// The rotation code that undoes a page's own rotation.
pub open spec fn counter_rotation(rotation: i32) -> int {
    if rotation > 0 {
        4 - rotation
    } else {
        0
    }
}

/// The width, the height and the rotation code with which a page is
/// rendered. With `rotate` set the page's own rotation is respected: the
/// sides stay and the code is 0. Without it the rotation is ignored for the
/// picture: a quarter turn swaps the sides, and the code undoes the page's
/// rotation.
pub open spec fn orientation<T>(width: T, height: T, rotation: i32, rotate: bool) -> (T, T, int) {
    if rotate {
        (width, height, 0)
    } else if quarter_turn(rotation) {
        (height, width, counter_rotation(rotation))
    } else {
        (width, height, counter_rotation(rotation))
    }
}

/// Decides the sides and the rotation code for rendering a page with the
/// given sides and rotation. The sides may be of any type: they are moved,
/// never read.
pub fn orient<T>(width: T, height: T, rotation: i32, rotate: bool) -> (res: (T, T, i32))
    ensures
        (res.0, res.1, res.2 as int) == orientation(width, height, rotation, rotate),
        !rotate && quarter_turn(rotation) ==> res.0 == height && res.1 == width,
        rotate || !quarter_turn(rotation) ==> res.0 == width && res.1 == height,
        0 <= rotation <= 3 ==> 0 <= res.2 <= 3,
{
    if rotate {
        (width, height, 0)
    } else {
        let code: i32 = if rotation > 0 {
            4 - rotation
        } else {
            0
        };
        if rotation == 1 || rotation == 3 {
            (height, width, code)
        } else {
            (width, height, code)
        }
    }
}

} // verus!
