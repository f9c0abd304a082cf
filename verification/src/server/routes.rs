//! Route-level helpers.
pub mod export_import;
