//! Turning structured values into English text or fixed answers by pattern
//! matching.

use crate::enums::{plural_text, singular_text, RoughTime, TimeUnit};
use crate::text::{decimal_rep, push_decimal};
use vstd::prelude::*;

verus! {

/// The English rendering of a rough time.
pub open spec fn rough_time_text(rt: RoughTime) -> Seq<char> {
    match rt {
        RoughTime::InThePast(units, count) => decimal_rep(count as nat) + " "@ + plural_text(units)
            + " ago"@,
        RoughTime::JustNow => "just now"@,
        RoughTime::InTheFuture(units, count) => if count == 1 {
            "a "@ + singular_text(units) + " from now"@
        } else {
            decimal_rep(count as nat) + " "@ + plural_text(units) + " from now"@
        },
    }
}

/// Describe a rough time in English.
pub fn rough_time_to_english(rt: RoughTime) -> (s: String)
    ensures
        s@ == rough_time_text(rt),
{
    match rt {
        RoughTime::InThePast(units, count) => {
            let mut s = String::new();
            push_decimal(&mut s, count as u64);
            s.append(" ");
            s.append(units.plural());
            s.append(" ago");
            proof {
                assert(s@ =~= rough_time_text(rt));
            }
            s
        },
        RoughTime::JustNow => {
            let s = String::from_str("just now");
            s
        },
        RoughTime::InTheFuture(units, count) => {
            if count == 1 {
                let mut s = String::from_str("a ");
                s.append(units.singular());
                s.append(" from now");
                proof {
                    assert(s@ =~= rough_time_text(rt));
                }
                s
            } else {
                let mut s = String::new();
                push_decimal(&mut s, count as u64);
                s.append(" ");
                s.append(units.plural());
                s.append(" from now");
                proof {
                    assert(s@ =~= rough_time_text(rt));
                }
                s
            }
        },
    }
}

/// Where a point lies relative to the axes.
pub open spec fn point_description(x: i32, y: i32) -> Seq<char> {
    if x == 0 && y == 0 {
        "at the origin"@
    } else if y == 0 {
        "on the x axis"@
    } else if x == 0 {
        "on the y axis"@
    } else if x > 0 && y > 0 {
        "in the first quadrant"@
    } else if x < 0 && y > 0 {
        "in the second quadrant"@
    } else {
        "somewhere else"@
    }
}

/// Describe where a point lies relative to the axes.
pub fn describe_point(x: i32, y: i32) -> (s: &'static str)
    ensures
        s@ == point_description(x, y),
{
    if x == 0 && y == 0 {
        "at the origin"
    } else if y == 0 {
        "on the x axis"
    } else if x == 0 {
        "on the y axis"
    } else if x > 0 && y > 0 {
        "in the first quadrant"
    } else if x < 0 && y > 0 {
        "in the second quadrant"
    } else {
        "somewhere else"
    }
}

/// A toy colour conversion that only answers exactly for black and white:
/// zero lightness is black, full lightness is white, anything else is a
/// placeholder grey.
pub fn hsl_to_rgb(hsl: [u8; 3]) -> (rgb: [u8; 3])
    ensures
        hsl@[2] == 0 ==> rgb@ =~= seq![0u8, 0u8, 0u8],
        hsl@[2] == 255 ==> rgb@ =~= seq![255u8, 255u8, 255u8],
        (hsl@[2] != 0 && hsl@[2] != 255) ==> rgb@ =~= seq![1u8, 1u8, 1u8],
{
    let lightness = hsl[2];
    if lightness == 0 {
        [0, 0, 0]
    } else if lightness == 255 {
        [255, 255, 255]
    } else {
        [1, 1, 1]
    }
}

} // verus!
