//! The heartbeat a node sends to the cluster.

use vstd::prelude::*;

use crate::types::message::{is_check, Message};
use crate::Escalon;

verus! {

impl<M> Escalon<M> {
    /// This node's heartbeat: its id and `jobs`, the number of jobs the
    /// application reports it holds.
    pub fn heartbeat_message(&self, jobs: usize) -> (m: Message)
        ensures
            is_check(m, self.id@, jobs),
    {
        Message::new_check(self.id.clone(), jobs)
    }
}

} // verus!
