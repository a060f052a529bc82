//! The rules of the web interface: what is answered to what.

pub mod errors;
pub mod jwt;
pub mod merge_routes;
