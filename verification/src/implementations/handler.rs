//! Answering the messages of other nodes.

use vstd::prelude::*;

use crate::net::SocketAddress;
use crate::types::message::{
    check_taken, done_taken, found_dead_taken, join_taken, take_answered, Action, CheckContent,
    DoneContent, FoundDeadContent, JoinContent, Message, Outgoing, TakeJobsContent,
};
use crate::{Escalon, JobTake};

verus! {

/// What answering a message leaves to be done: jobs for this node to take
/// over, and then an answer to send.
pub struct Reaction {
    pub take: Option<JobTake>,
    pub reply: Option<Outgoing>,
}

/// Answering `action`, sent by another node from `source` and received at
/// the time `now`, turned `before` into `after` and gave `r`: each kind of
/// message as its handler says.
pub open spec fn action_handled<M>(
    before: Escalon<M>,
    after: Escalon<M>,
    action: Action,
    source: SocketAddress,
    now: i64,
    r: Reaction,
) -> bool {
    match action {
        Action::Join(c) => r.take is None && join_taken(before, after, c, source, now, r.reply),
        Action::Check(c) => r.take is None && r.reply is None && check_taken(before, after, c, now),
        Action::FoundDead(c) => r.take is None && found_dead_taken(
            before,
            after,
            c,
            source,
            r.reply,
        ),
        Action::TakeJobs(c) => {
            &&& after == before
            &&& match (r.take, r.reply) {
                (Some(t), Some(out)) => take_answered(before, c, source, (t, out)),
                _ => false,
            }
        },
        Action::Done(c) => r.take is None && r.reply is None && done_taken(before, after, c),
    }
}

impl<M> Escalon<M> {
    /// Answers the message `msg`, received from `source` at the time `now`. A
    /// message this node sent itself is ignored; any other is answered by the
    /// handler of its kind. Gives back the jobs to take over and the answer to
    /// send, if any.
    pub fn handle_action(&mut self, msg: Message, source: SocketAddress, now: i64) -> (r: Reaction)
        ensures
            msg.action.spec_sender() == old(self).id@ ==> r.take is None && r.reply is None
                && *final(self) == *old(self),
            msg.action.spec_sender() != old(self).id@ ==> action_handled(
                *old(self),
                *final(self),
                msg.action,
                source,
                now,
                r,
            ),
    {
        if *msg.action.sender() == self.id {
            return Reaction { take: None, reply: None };
        }
        match &msg.action {
            Action::Join(c) => {
                let content = JoinContent {
                    sender_id: c.sender_id.clone(),
                    address: c.address,
                    start_time: c.start_time,
                };
                Reaction { take: None, reply: msg.handle_join(self, content, source, now) }
            },
            Action::Check(c) => {
                let content = CheckContent { sender_id: c.sender_id.clone(), jobs: c.jobs };
                msg.handle_check(self, content, now);
                Reaction { take: None, reply: None }
            },
            Action::FoundDead(c) => {
                let content = FoundDeadContent {
                    sender_id: c.sender_id.clone(),
                    dead_id: c.dead_id.clone(),
                };
                Reaction { take: None, reply: msg.handle_found_dead(self, content, source) }
            },
            Action::TakeJobs(c) => {
                let content = TakeJobsContent {
                    sender_id: c.sender_id.clone(),
                    dead_id: c.dead_id.clone(),
                    start_at: c.start_at,
                    jobs: c.jobs,
                };
                let (take, reply) = msg.handle_take_jobs(self, content, source);
                Reaction { take: Some(take), reply: Some(reply) }
            },
            Action::Done(c) => {
                let content = DoneContent {
                    sender_id: c.sender_id.clone(),
                    dead_id: c.dead_id.clone(),
                };
                msg.handle_done(self, content);
                Reaction { take: None, reply: None }
            },
        }
    }
}

} // verus!
