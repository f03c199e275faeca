//! Reconciliation of an installed Python environment against a locked set of
//! requirements, with the URL identity rules that the comparison rests on.

pub mod canonical;
pub mod classify;
pub mod gitutil;
pub mod locator;
pub mod plan;
pub mod text;
pub mod url_parts;
