//! What the strings of std do when a character is added or taken off.
//!
//! Both contracts are taken on trust from the documentation of std.

use vstd::prelude::*;

verus! {

/// `String::push` of std, which is documented to append the given character
/// to the end of the string. Trusted: afterwards the string is what it was,
/// with the character added at its end.
pub assume_specification[ String::push ](s: &mut String, ch: char)
    ensures
        final(s)@ == old(s)@.push(ch),
;

/// `String::pop` of std, which is documented to remove the last character
/// from the string and return it, and to return `None` if the string is
/// empty. Trusted: an empty string stays as it is and gives `None`; any other
/// loses its last character, which is returned.
pub assume_specification[ String::pop ](s: &mut String) -> (r: Option<char>)
    ensures
        old(s)@.len() == 0 ==> r is None && final(s)@ == old(s)@,
        old(s)@.len() > 0 ==> r == Some(old(s)@.last()) && final(s)@ == old(s)@.drop_last(),
;

} // verus!
