//! What a node does: greeting, heartbeats, spotting silent nodes, sharing
//! out jobs, and answering messages.

pub mod aux;
pub mod balance;
pub mod handler;
pub mod heartbeat;
pub mod scanner;
pub mod server;
