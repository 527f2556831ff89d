//! A rule-accurate engine for the Bao board game together with the building
//! blocks of an alpha-beta move search.
//!
//! Every executable function in this crate carries a contract that is checked
//! by Verus; the few places where the crate leans on code that Verus cannot
//! see are marked `external_body` and documented as such.
pub mod bao;
pub mod config;
pub mod error;
pub mod play;
pub mod search;
pub mod text;
