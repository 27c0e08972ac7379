//! The wire protocol: requests in, replies out.

pub mod decoder;
pub mod encoder;
