//! Validation of Spanish identity numbers.
//!
//! A NIF (Número de Identificación Fiscal) is 8 digits followed by a check
//! letter; a NIE (Número de Identidad de Extranjero) is an X/Y/Z prefix,
//! 7 digits and a check letter. The check letter is recomputed from the
//! numeric body by a modulo-23 table lookup and compared, case-insensitively,
//! against the letter supplied.

pub mod checksum;
pub mod validate;

pub use checksum::check_digit_nif;
pub use validate::Error;
pub use validate::is_valid_nie;
pub use validate::is_valid_nif;
