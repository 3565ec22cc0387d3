use nif_validator::check_digit_nif;
use nif_validator::is_valid_nie;
use nif_validator::is_valid_nif;
use nif_validator::Error;

#[test]
fn test_valid_check_digit_nif() {
    assert_eq!(check_digit_nif(54878787), 'M');
    assert_eq!(check_digit_nif(98457021), 'R');
    assert_eq!(check_digit_nif(47894211), 'T');
    assert_eq!(check_digit_nif(00000000), 'T');
}

#[test]
fn test_invalid_check_digit_nif() {
    assert_ne!(check_digit_nif(54878787), 'X');
    assert_ne!(check_digit_nif(98457021), 'T');
    assert_ne!(check_digit_nif(47894211), 'V');
    assert_ne!(check_digit_nif(00000000), 'D');
}

#[test]
fn test_valid_nif() {
    is_valid_nif("24591177Z").unwrap();
    is_valid_nif("21178533h").unwrap();
    is_valid_nif("84731432F").unwrap();
    is_valid_nif("65553805X").unwrap();
    is_valid_nif("97294190g").unwrap();
}

#[test]
fn test_invalid_nif() {
    is_valid_nif("").unwrap_err();
    is_valid_nif("5393710G ").unwrap_err();
    is_valid_nif("53493710G").unwrap_err();
    is_valid_nif("6\u{b4}420582W").unwrap_err();
    is_valid_nif("X6725600C").unwrap_err();
    is_valid_nif("01675401Z").unwrap_err();
    is_valid_nif("946967460D").unwrap_err();
}

#[test]
fn test_valid_nie() {
    is_valid_nie("Y5937943R").unwrap();
    is_valid_nie("Z4132550F").unwrap();
    is_valid_nie("X9675401Z").unwrap();
    is_valid_nie("x9675401Z").unwrap();
}

#[test]
fn test_invalid_nie() {
    is_valid_nie("Y59-7943R").unwrap_err();
    is_valid_nie("096754014Z").unwrap_err();
    is_valid_nie("Z6843868E").unwrap_err();
}

#[test]
fn check_digit_periodic_samples() {
    assert_eq!(check_digit_nif(0), check_digit_nif(23));
    assert_eq!(check_digit_nif(1), check_digit_nif(24));
    assert_eq!(check_digit_nif(54878787), check_digit_nif(54878787 + 23));
    assert_eq!(check_digit_nif(98457021), check_digit_nif(98457021 + 23));
}

#[test]
fn bad_length_carries_observed_length() {
    assert_eq!(is_valid_nif(""), Err(Error::BadLength(0)));
    assert_eq!(is_valid_nif("12345678"), Err(Error::BadLength(8)));
    assert_eq!(is_valid_nif("1234567890"), Err(Error::BadLength(10)));
    assert_eq!(is_valid_nie(""), Err(Error::BadLength(0)));
    assert_eq!(is_valid_nie("X1234567"), Err(Error::BadLength(8)));
    assert_eq!(is_valid_nie("X123456789"), Err(Error::BadLength(10)));
}

#[test]
fn nif_check_letter_case_insensitive() {
    assert_eq!(is_valid_nif("24591177z"), Ok(()));
    assert_eq!(is_valid_nif("24591177Z"), Ok(()));
}

#[test]
fn nif_wrong_check_letter_names_both() {
    assert_eq!(is_valid_nif("53493710G"), Err(Error::InvalidCheckNumber('B', 'G')));
    // The supplied letter is reported uppercased.
    assert_eq!(is_valid_nif("53493710g"), Err(Error::InvalidCheckNumber('B', 'G')));
}

#[test]
fn nie_bad_prefix_carries_character_as_given() {
    assert_eq!(is_valid_nie("A9675401Z"), Err(Error::NieBadPrefix('A')));
    assert_eq!(is_valid_nie("a9675401Z"), Err(Error::NieBadPrefix('a')));
}

#[test]
fn non_digit_names_character_and_position() {
    assert_eq!(is_valid_nif("6 420582W"), Err(Error::ExpectedNumeric(' ', 2)));
    assert_eq!(is_valid_nif("1234567xZ"), Err(Error::ExpectedNumeric('x', 8)));
    // Non-ASCII numerals are rejected, not parsed.
    assert_eq!(is_valid_nif("2459117\u{661}Z"), Err(Error::ExpectedNumeric('\u{661}', 8)));
    // Only the first offending character is reported.
    assert_eq!(is_valid_nif("ab345678Z"), Err(Error::ExpectedNumeric('a', 1)));
}

#[test]
fn nie_delegates_failures_unchanged() {
    assert_eq!(is_valid_nie("Y59-7943R"), Err(Error::ExpectedNumeric('-', 4)));
    assert_eq!(is_valid_nie("Z6843868E"), Err(Error::InvalidCheckNumber('Q', 'E')));
}

#[test]
fn validation_is_idempotent() {
    for s in ["24591177Z", "53493710G", "X9675401Z", "A9675401Z", "", "6 420582W"] {
        assert_eq!(is_valid_nif(s), is_valid_nif(s));
        assert_eq!(is_valid_nie(s), is_valid_nie(s));
    }
}
