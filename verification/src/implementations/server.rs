//! A node's greeting to the cluster when it starts listening.

use vstd::prelude::*;

use crate::types::message::{is_join, Message};
use crate::Escalon;

verus! {

impl<M> Escalon<M> {
    /// This node's announcement, sent to every node when it starts listening
    /// and in answer to nodes that do not know it: its id, address and start
    /// time.
    pub fn join_message(&self) -> (m: Message)
        ensures
            is_join(m, self.id@, self.address, self.start_time),
    {
        Message::new_join(self.id.clone(), self.address, self.start_time)
    }
}

} // verus!
