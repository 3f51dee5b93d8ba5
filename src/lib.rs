//! Greatest common divisors of machine integers, and parsing of
//! `<left><separator><right>` coordinate pairs such as `800x600` or `-1,1`.

pub mod gcd;
pub mod pair;
pub mod laws;
