//! A password generator: a request for a password of a given length with so
//! many capitals, digits and symbols is validated into a
//! [`requirements::PasswordRequirements`] record, and a password is drawn at
//! random to meet that record exactly.

pub mod charset;
pub mod generator;
pub mod random;
pub mod requirements;
