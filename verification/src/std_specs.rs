//! What this library takes on trust of the standard library: contracts for
//! two functions of `String`, stated as their documentation gives them and
//! not proved.

use vstd::prelude::*;

verus! {

/// `String::push`: the character is added at the end of the string.
pub assume_specification[ String::push ](text: &mut String, c: char)
    ensures
        final(text)@ == old(text)@.push(c),
;

/// `String::with_capacity`: an empty string with room for `capacity` bytes.
/// The call panics where the capacity exceeds `isize::MAX` bytes, so such a
/// capacity is left out.
pub assume_specification[ String::with_capacity ](capacity: usize) -> (text: String)
    requires
        capacity <= isize::MAX,
    ensures
        text@ == Seq::<char>::empty(),
;

} // verus!
