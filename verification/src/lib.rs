//! Review-annotation extraction for an API catalog.
//!
//! The library classifies changed lines of code-review diffs into semantic
//! categories (endpoint paths, lint suppressions, permission and audience
//! markers), aggregates the classified lines into per-pull-request review
//! records, and ranks pull requests by age or filters them by merge state.
//! Transport to the external review system is left to the caller; every
//! function here works on plain values and carries a proved contract.

pub mod classify;
pub mod model;
pub mod reporters;
pub mod reviews;
pub mod status;
pub mod text;
