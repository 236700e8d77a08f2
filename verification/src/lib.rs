//! A multilingual greeting catalog: an immutable two-level table of
//! templates, keyed by language code and then by profanity level, with
//! exact placeholder substitution of the greeted name.

pub mod assoc;
pub mod catalog;
pub mod decimal;
pub mod subst;
