//! Telling people.
pub mod email;
