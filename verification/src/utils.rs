//! Small helpers shared by the entities: ordering helpers, the conversion from
//! degrees to radians, the horizontal direction flag and text padding.

use vstd::prelude::*;
use vstd::std_specs::cmp::PartialOrdIs;
use vstd::std_specs::cmp::PartialOrdSpec;
use vstd::utf8::encode_utf8;
use crate::fixed::scaled;
use crate::fixed::scale;
use crate::fixed::ONE;

verus! {

/// Pi in fixed point, rounded to the sixth decimal place.
pub const PI: i64 = 3_141_593;

/// Half a turn in degrees, in fixed point.
pub const HALF_TURN: i64 = 180 * ONE;

/// The horizontal sense of travel.
#[derive(Clone, Copy, PartialEq, Eq, Structural, Debug)]
pub enum Direction {
    Left,
    Right,
}

/// The value of `clamp`: `lo` below the range, `hi` above it, else `value`.
pub open spec fn clamped<T: PartialOrd>(value: T, lo: T, hi: T) -> T {
    if value.is_lt(&lo) {
        lo
    } else if value.is_gt(&hi) {
        hi
    } else {
        value
    }
}

/// The value of `min`: `value` where it is strictly below `cap`, else `cap`.
pub open spec fn lesser<T: PartialOrd>(value: T, cap: T) -> T {
    if value.is_lt(&cap) {
        value
    } else {
        cap
    }
}

/// Confines `value` to the range from `lo` to `hi`.
///
/// The bounds are tested in this order: a value below `lo` gives `lo` even
/// where `lo` lies above `hi`. For every type the result follows the answers
/// of `<` and `>`; for a type whose comparisons are those of its order, it is
/// [`clamped`].
pub fn clamp<T: PartialOrd>(value: T, lo: T, hi: T) -> (r: T)
    ensures
        exists|below: bool|
            {
                &&& #[trigger] call_ensures(T::lt, (&value, &lo), below)
                &&& below ==> r == lo
                &&& !below ==> exists|above: bool|
                    {
                        &&& #[trigger] call_ensures(T::gt, (&value, &hi), above)
                        &&& r == if above {
                            hi
                        } else {
                            value
                        }
                    }
            },
        T::obeys_partial_cmp_spec() ==> r == clamped(value, lo, hi),
{
    if value < lo {
        lo
    } else if value > hi {
        hi
    } else {
        value
    }
}

/// The smaller of `value` and `cap`.
///
/// For every type the result follows the answer of `<`; for a type whose
/// comparisons are those of its order, it is [`lesser`].
pub fn min<T: PartialOrd>(value: T, cap: T) -> (r: T)
    ensures
        exists|below: bool|
            {
                &&& #[trigger] call_ensures(T::lt, (&value, &cap), below)
                &&& r == if below {
                    value
                } else {
                    cap
                }
            },
        T::obeys_partial_cmp_spec() ==> r == lesser(value, cap),
{
    if value < cap {
        value
    } else {
        cap
    }
}

/// The angle in radians of an angle in degrees: `degrees * PI / 180`.
pub open spec fn radians(degrees: int) -> int {
    scaled(degrees, PI as int, HALF_TURN as int)
}

/// Converts degrees to radians, both in fixed point.
pub fn to_radians(degrees: i64) -> (r: i64)
    ensures
        r == radians(degrees as int),
{
    scale(degrees, PI, HALF_TURN)
}

/// `count` blanks.
pub open spec fn blanks(count: nat) -> Seq<char> {
    Seq::new(count, |i: int| ' ')
}

/// A text padded with blanks on the left until it takes up `width` bytes. A
/// text that already takes up that many bytes is left as it is.
pub open spec fn left_justified(text: Seq<char>, width: nat) -> Seq<char> {
    let taken = encode_utf8(text).len();
    if taken >= width {
        text
    } else {
        blanks((width - taken) as nat) + text
    }
}

/// Pads `string` with blanks on the left to a width of `width` bytes.
pub fn left_justify_str(string: String, width: usize) -> (r: String)
    ensures
        r@ == left_justified(string@, width as nat),
{
    let taken = string.as_str().as_bytes().len();
    proof {
        broadcast use vstd::slice::axiom_spec_len;
    }
    if taken >= width {
        string
    } else {
        let missing = width - taken;
        let mut result = String::new();
        let mut count: usize = 0;
        while count < missing
            invariant
                count <= missing,
                result@ == blanks(count as nat),
            decreases missing - count,
        {
            result.append(" ");
            count += 1;
            proof {
                reveal_strlit(" ");
                assert(result@ =~= blanks(count as nat));
            }
        }
        result.append(string.as_str());
        result
    }
}

} // verus!
