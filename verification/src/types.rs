//! The data that nodes keep about each other and send to each other.

pub mod client;
pub mod message;
