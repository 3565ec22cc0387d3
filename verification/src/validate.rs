//! Validation of NIF and NIE identifiers: format checks (length, character
//! class, prefix) followed by comparison of the recomputed check letter
//! against the one supplied.

use vstd::prelude::*;
use crate::checksum::spec_check_digit;
use crate::checksum::check_digit_nif;

verus! {

/// Why an identifier failed validation. Each variant carries the data a
/// caller needs to render a message of its own.
#[derive(Debug, Clone, Copy, PartialEq, Eq, Structural)]
pub enum Error {
    /// The input was not exactly 9 characters long; carries the observed length.
    BadLength(usize),
    /// A NIE began with a character other than X, Y or Z (carried as given).
    NieBadPrefix(char),
    /// A character of the numeric body is not an ASCII decimal digit; carries
    /// the character and its 1-based position.
    ExpectedNumeric(char, usize),
    /// The recomputed check letter differs from the supplied one; carries the
    /// expected letter and the supplied letter, uppercased.
    InvalidCheckNumber(char, char),
}

/// Whether a character is an ASCII decimal digit.
pub open spec fn is_dec_digit(c: char) -> bool {
    '0' <= c && c <= '9'
}

/// The numeric value of an ASCII decimal digit.
pub open spec fn digit_val(c: char) -> nat
    recommends
        is_dec_digit(c),
{
    (c as int - '0' as int) as nat
}

/// The value of a sequence of ASCII decimal digits read in base 10
/// (leading zeros permitted).
pub open spec fn digits_value(s: Seq<char>) -> nat
    decreases s.len(),
{
    if s.len() == 0 {
        0
    } else {
        digits_value(s.drop_last()) * 10 + digit_val(s.last())
    }
}

/// An ASCII lowercase letter mapped to its uppercase form; every other
/// character is left unchanged.
pub open spec fn to_upper(c: char) -> char {
    if 'a' <= c && c <= 'z' {
        (c as u32 - 32) as char
    } else {
        c
    }
}

/// The index of the first character that is not an ASCII decimal digit,
/// or `s.len()` if every character is one.
pub open spec fn first_non_digit(s: Seq<char>) -> int
    decreases s.len(),
{
    if s.len() == 0 {
        0
    } else if !is_dec_digit(s[0]) {
        0
    } else {
        1 + first_non_digit(s.skip(1))
    }
}

/// What validating a NIF returns: `BadLength` unless the input is exactly
/// 9 characters; `ExpectedNumeric` for the first of the leading 8 characters
/// that is not an ASCII digit, with its 1-based position; otherwise the check
/// letter of the 8-digit body is compared, case-insensitively, against the
/// 9th character, and a mismatch is `InvalidCheckNumber`.
pub open spec fn spec_validate_nif(s: Seq<char>) -> Result<(), Error> {
    if s.len() != 9 {
        Err(Error::BadLength(s.len() as usize))
    } else {
        let body = s.take(8);
        let k = first_non_digit(body);
        if k < 8 {
            Err(Error::ExpectedNumeric(body[k], (k + 1) as usize))
        } else {
            let expected = spec_check_digit(digits_value(body));
            let actual = to_upper(s[8]);
            if expected == actual {
                Ok(())
            } else {
                Err(Error::InvalidCheckNumber(expected, actual))
            }
        }
    }
}

/// The digit a NIE prefix stands for under INT/2058/2008, matched
/// case-insensitively: X is 0, Y is 1, Z is 2; anything else is no prefix.
pub open spec fn nie_prefix_digit(c: char) -> Option<char> {
    if c == 'X' || c == 'x' {
        Some('0')
    } else if c == 'Y' || c == 'y' {
        Some('1')
    } else if c == 'Z' || c == 'z' {
        Some('2')
    } else {
        None
    }
}

/// What validating a NIE returns: `BadLength` unless the input is exactly
/// 9 characters; `NieBadPrefix` (carrying the first character as given)
/// unless that character is X, Y or Z in either case; otherwise the result
/// of NIF validation on the prefix digit followed by the remaining
/// 8 characters.
pub open spec fn spec_validate_nie(s: Seq<char>) -> Result<(), Error> {
    if s.len() != 9 {
        Err(Error::BadLength(s.len() as usize))
    } else {
        match nie_prefix_digit(s[0]) {
            Some(d) => spec_validate_nif(seq![d] + s.skip(1)),
            None => Err(Error::NieBadPrefix(s[0])),
        }
    }
}

/// Ten to the power `k`.
spec fn pow10(k: nat) -> nat
    decreases k,
{
    if k == 0 {
        1
    } else {
        10 * pow10((k - 1) as nat)
    }
}

proof fn lemma_pow10_mono(a: nat, b: nat)
    requires
        a <= b,
    ensures
        pow10(a) <= pow10(b),
    decreases b,
{
    if a < b {
        lemma_pow10_mono(a, (b - 1) as nat);
        assert(pow10(b) == 10 * pow10((b - 1) as nat));
        assert(pow10((b - 1) as nat) >= 1) by {
            lemma_pow10_pos((b - 1) as nat);
        }
    }
}

proof fn lemma_pow10_pos(k: nat)
    ensures
        pow10(k) >= 1,
    decreases k,
{
    if k > 0 {
        lemma_pow10_pos((k - 1) as nat);
    }
}

proof fn lemma_first_non_digit_bounds(s: Seq<char>)
    ensures
        0 <= first_non_digit(s) <= s.len(),
        forall|j: int| 0 <= j < first_non_digit(s) ==> is_dec_digit(s[j]),
        first_non_digit(s) < s.len() ==> !is_dec_digit(s[first_non_digit(s)]),
    decreases s.len(),
{
    if s.len() == 0 {
    } else if !is_dec_digit(s[0]) {
    } else {
        lemma_first_non_digit_bounds(s.skip(1));
        assert forall|j: int| 0 <= j < first_non_digit(s) implies is_dec_digit(s[j]) by {
            if j >= 1 {
                assert(is_dec_digit(s.skip(1)[j - 1]));
                assert(s.skip(1)[j - 1] == s[j]);
            }
        }
        if first_non_digit(s) < s.len() {
            assert(s[first_non_digit(s)] == s.skip(1)[first_non_digit(s.skip(1))]);
        }
    }
}

/// If the first `i` characters are digits and the character at `i` is not,
/// the first non-digit stands exactly at `i`.
proof fn lemma_first_non_digit_at(s: Seq<char>, i: int)
    requires
        0 <= i < s.len(),
        forall|j: int| 0 <= j < i ==> is_dec_digit(s[j]),
        !is_dec_digit(s[i]),
    ensures
        first_non_digit(s) == i,
{
    lemma_first_non_digit_bounds(s);
    let k = first_non_digit(s);
    if k < i {
        assert(is_dec_digit(s[k]));
    }
    if k > i {
        assert(is_dec_digit(s[i]));
    }
}

/// If every character is a digit, the first non-digit stands at the end.
proof fn lemma_first_non_digit_all(s: Seq<char>)
    requires
        forall|j: int| 0 <= j < s.len() ==> is_dec_digit(s[j]),
    ensures
        first_non_digit(s) == s.len(),
{
    lemma_first_non_digit_bounds(s);
    let k = first_non_digit(s);
    if k < s.len() {
        assert(is_dec_digit(s[k]));
    }
}

fn is_digit_char(c: char) -> (r: bool)
    ensures
        r == is_dec_digit(c),
{
    '0' <= c && c <= '9'
}

fn to_upper_char(c: char) -> (r: char)
    ensures
        r == to_upper(c),
{
    if 'a' <= c && c <= 'z' {
        ((c as u8) - 32) as char
    } else {
        c
    }
}

/// Validates a NIF: 8 ASCII digits followed by the check letter of their
/// value, compared case-insensitively.
pub fn is_valid_nif(v: &str) -> (r: Result<(), Error>)
    ensures
        r == spec_validate_nif(v@),
{
    let len = v.unicode_len();
    if len != 9 {
        return Err(Error::BadLength(len));
    }
    let ghost body = v@.take(8);
    let mut n: u32 = 0;
    let mut i: usize = 0;
    while i < 8
        invariant
            v@.len() == 9,
            body == v@.take(8),
            i <= 8,
            forall|j: int| 0 <= j < i ==> is_dec_digit(v@[j]),
            n == digits_value(v@.take(i as int)),
            n < pow10(i as nat),
        decreases 8 - i,
    {
        let c = v.get_char(i);
        if !is_digit_char(c) {
            proof {
                assert(forall|j: int| 0 <= j < 8 ==> body[j] == v@[j]);
                lemma_first_non_digit_at(body, i as int);
            }
            return Err(Error::ExpectedNumeric(c, i + 1));
        }
        let d: u32 = (c as u32) - ('0' as u32);
        proof {
            lemma_pow10_mono(i as nat, 7);
            reveal_with_fuel(pow10, 9);
            assert(pow10(7) == 10000000);
            assert(v@.take(i + 1).drop_last() =~= v@.take(i as int));
            assert(v@.take(i + 1).last() == v@[i as int]);
        }
        n = n * 10 + d;
        i = i + 1;
    }
    proof {
        assert(forall|j: int| 0 <= j < 8 ==> body[j] == v@[j]);
        lemma_first_non_digit_all(body);
        assert(v@.take(8) == body);
    }
    let expected = check_digit_nif(n);
    let letter = to_upper_char(v.get_char(8));
    if expected == letter {
        Ok(())
    } else {
        Err(Error::InvalidCheckNumber(expected, letter))
    }
}

/// Validates a NIE: an X/Y/Z prefix (either case) standing for 0/1/2,
/// 7 ASCII digits, and a check letter; after the prefix is replaced by its
/// digit, validation proceeds exactly as for a NIF.
pub fn is_valid_nie(v: &str) -> (r: Result<(), Error>)
    ensures
        r == spec_validate_nie(v@),
{
    let len = v.unicode_len();
    if len != 9 {
        return Err(Error::BadLength(len));
    }
    let first = v.get_char(0);
    let prefix: &str = if first == 'X' || first == 'x' {
        "0"
    } else if first == 'Y' || first == 'y' {
        "1"
    } else if first == 'Z' || first == 'z' {
        "2"
    } else {
        return Err(Error::NieBadPrefix(first));
    };
    proof {
        reveal_strlit("0");
        reveal_strlit("1");
        reveal_strlit("2");
        assert(prefix@ =~= seq![nie_prefix_digit(v@[0]).unwrap()]);
    }
    let rest = v.substring_char(1, 9);
    let synthetic = prefix.to_owned().concat(rest);
    proof {
        assert(synthetic@ =~= seq![nie_prefix_digit(v@[0]).unwrap()] + v@.skip(1));
    }
    is_valid_nif(synthetic.as_str())
}

/// Both validators reject every input that is not exactly 9 characters
/// long, with `BadLength` carrying the observed length.
pub proof fn lemma_bad_length(s: Seq<char>)
    requires
        s.len() != 9,
    ensures
        spec_validate_nif(s) == Err::<(), Error>(Error::BadLength(s.len() as usize)),
        spec_validate_nie(s) == Err::<(), Error>(Error::BadLength(s.len() as usize)),
{
}

/// NIF validation is case-insensitive in the check letter: replacing the
/// last character by its uppercase form does not change the outcome.
pub proof fn lemma_nif_case_insensitive(s: Seq<char>)
    requires
        s.len() == 9,
    ensures
        spec_validate_nif(s.update(8, to_upper(s[8]))) == spec_validate_nif(s),
{
    let t = s.update(8, to_upper(s[8]));
    assert(t.take(8) =~= s.take(8));
    assert(to_upper(t[8]) == to_upper(s[8]));
}

/// A non-digit anywhere in the numeric body of a 9-character input fails
/// NIF validation with `ExpectedNumeric` naming the first offending
/// character and its 1-based position.
pub proof fn lemma_non_digit_reported(s: Seq<char>, i: int)
    requires
        s.len() == 9,
        0 <= i < 8,
        !is_dec_digit(s[i]),
        forall|j: int| 0 <= j < i ==> is_dec_digit(s[j]),
    ensures
        spec_validate_nif(s) == Err::<(), Error>(Error::ExpectedNumeric(s[i], (i + 1) as usize)),
{
    assert(forall|j: int| 0 <= j < 8 ==> s.take(8)[j] == s[j]);
    lemma_first_non_digit_at(s.take(8), i);
}

/// Validation is a pure function of the character sequence: there is no
/// hidden state, so validating the same string twice yields the same result.
pub proof fn lemma_validation_deterministic(s: Seq<char>, t: Seq<char>)
    requires
        s == t,
    ensures
        spec_validate_nif(s) == spec_validate_nif(t),
        spec_validate_nie(s) == spec_validate_nie(t),
{
}

} // verus!
