//! What this library takes on trust about `std::string::String`.

use vstd::prelude::*;

verus! {

/// `String::push` of the standard library, which vstd leaves without a
/// contract: it appends `c` to the end of `s` and changes nothing else.
/// This is assumed, not proved.
pub assume_specification[ String::push ](s: &mut String, c: char)
    ensures
        final(s)@ == old(s)@.push(c),
;

} // verus!
