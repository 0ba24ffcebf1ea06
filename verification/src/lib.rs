//! Password validation with ordered, recoverable failures, and a few small
//! text utilities. Every fallible operation reports its failure as a value.

pub mod ascii;
pub mod certain;
pub mod decimal;
pub mod history;
pub mod lines;
pub mod password;
pub mod reading;
pub mod text;
