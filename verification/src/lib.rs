pub mod dvs;
pub mod num;
pub mod serialize;
pub mod text;

use vstd::prelude::*;

verus! {

/// True when `c` is an ASCII decimal digit.
pub open spec fn is_digit(c: char) -> bool {
    48 <= c as u32 && c as u32 <= 57
}

} // verus!
