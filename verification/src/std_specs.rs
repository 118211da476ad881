//! Contracts for the functions of the standard library that the scanner calls
//! and that `vstd` does not specify. Verus takes each of them on trust.

use vstd::prelude::*;

verus! {

/// Whether `c` has the Unicode property `Alphabetic`.
///
/// The property is a table of the Unicode Character Database; nothing is said
/// here of which characters it holds.
pub uninterp spec fn char_is_alphabetic(c: char) -> bool;

/// Whether `c` has the Unicode property `White_Space`.
///
/// The property is a table of the Unicode Character Database; nothing is said
/// here of which characters it holds.
pub uninterp spec fn char_is_whitespace(c: char) -> bool;

/// The value of `c` as a digit: `0`-`9` count 0 to 9, and the letters `a`-`z`,
/// in either case, count 10 to 35. No other character is a digit.
pub open spec fn digit_value(c: char) -> Option<int> {
    if '0' <= c <= '9' {
        Some(c as int - '0' as int)
    } else if 'a' <= c <= 'z' {
        Some(c as int - 'a' as int + 10)
    } else if 'A' <= c <= 'Z' {
        Some(c as int - 'A' as int + 10)
    } else {
        None
    }
}

/// Whether `c` is a digit in base `radix`.
pub open spec fn char_is_digit(c: char, radix: u32) -> bool {
    digit_value(c) matches Some(d) && d < radix
}

/// `char::is_alphabetic` is a function of the character alone: it returns the
/// property that [`char_is_alphabetic`] names.
pub assume_specification[ char::is_alphabetic ](c: char) -> (r: bool)
    ensures
        r == char_is_alphabetic(c),
;

/// `char::is_whitespace` is a function of the character alone: it returns the
/// property that [`char_is_whitespace`] names.
pub assume_specification[ char::is_whitespace ](c: char) -> (r: bool)
    ensures
        r == char_is_whitespace(c),
;

/// `char::is_digit` accepts exactly `0`-`9`, `a`-`z` and `A`-`Z` whose value is
/// below the radix. It panics on a radix outside `2..=36`, which the
/// precondition excludes.
pub assume_specification[ char::is_digit ](c: char, radix: u32) -> (r: bool)
    requires
        2 <= radix <= 36,
    ensures
        r == char_is_digit(c, radix),
;

/// `String::push` appends the character to the end of the string.
pub assume_specification[ String::push ](s: &mut String, ch: char)
    ensures
        final(s)@ == old(s)@.push(ch),
;

/// Two string slices are equal exactly when they hold the same characters.
pub assume_specification[ <str as PartialEq>::eq ](a: &str, b: &str) -> (r: bool)
    ensures
        r == (a@ == b@),
;

} // verus!
