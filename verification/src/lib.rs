//! A meta-search core: providers adapted to one capability interface, a
//! selector-driven result parser, and a dispatcher that merges per-provider
//! outcomes.
pub mod dispatcher;
pub mod engines;
pub mod models;
pub mod server;
pub mod text;
