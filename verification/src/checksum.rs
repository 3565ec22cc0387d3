//! The modulo-23 check-digit lookup shared by NIF and NIE validation
//! (the table fixed by the INT/2058/2008 regulation).

use vstd::prelude::*;

verus! {

/// The fixed 23-letter checksum table, indexed by the remainder modulo 23.
pub open spec fn nif_letters() -> Seq<char> {
    seq![
        'T', 'R', 'W', 'A', 'G', 'M', 'Y', 'F', 'P', 'D', 'X', 'B', 'N', 'J', 'Z', 'S', 'Q',
        'V', 'H', 'L', 'C', 'K', 'E',
    ]
}

/// The check letter of a numeric body: the table entry at position `n` modulo 23.
pub open spec fn spec_check_digit(n: nat) -> char {
    nif_letters()[(n % 23) as int]
}

/// Calculates the check digit of a numeric identifier body.
///
/// Total over all of `u32`: every value has a check letter.
pub fn check_digit_nif(val: u32) -> (c: char)
    ensures
        c == spec_check_digit(val as nat),
{
    let remainder: u32 = val % 23;
    proof {
        assert(remainder == (val as nat) % 23);
    }
    match remainder {
        0 => 'T',
        1 => 'R',
        2 => 'W',
        3 => 'A',
        4 => 'G',
        5 => 'M',
        6 => 'Y',
        7 => 'F',
        8 => 'P',
        9 => 'D',
        10 => 'X',
        11 => 'B',
        12 => 'N',
        13 => 'J',
        14 => 'Z',
        15 => 'S',
        16 => 'Q',
        17 => 'V',
        18 => 'H',
        19 => 'L',
        20 => 'C',
        21 => 'K',
        _ => 'E',
    }
}

/// The check digit is periodic: adding 23 to the numeric body leaves it unchanged.
pub proof fn lemma_check_digit_periodic(n: nat)
    ensures
        spec_check_digit(n + 23) == spec_check_digit(n),
{
    assert((n + 23) % 23 == n % 23) by {
        vstd::arithmetic::div_mod::lemma_mod_add_multiples_vanish(n as int, 23);
    }
}

} // verus!
