//! What the handlers share.

pub mod response;
