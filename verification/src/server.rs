//! The server-facing rules that can be stated without the server: settings
//! sanitizing for the routes layer.
pub mod routes;
