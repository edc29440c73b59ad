//! A filter for enabling individual diagnostic spans and events by their
//! source location: an exact `(module path, line)` or `(file path, line)`
//! pair.
//!
//! The filter holds two allow-lists of location keys, one keyed by logical
//! module path and one keyed by physical file path. A candidate record whose
//! reported location is an exact member of either list is unconditionally
//! admitted; otherwise the decision is delegated to an optional fallback
//! filter, and a record is rejected when no fallback is configured.

pub mod descriptor;
pub mod filter;
pub mod laws;
pub mod paths;

pub use filter::LineFilter;
pub use paths::BadPath;
