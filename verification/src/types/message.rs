//! The messages that nodes exchange.

use vstd::prelude::*;

use crate::net::SocketAddress;
use crate::time::Timestamp;
use crate::types::client::{ClientState, EscalonClient};
use crate::{same_identity, Distrib, Escalon, JobTake};

verus! {

/// A message between nodes.
#[derive(Clone, Debug, PartialEq)]
pub struct Message {
    pub action: Action,
}

/// What a message asks of its receiver.
#[derive(Clone, Debug, PartialEq)]
pub enum Action {
    /// A node announces itself.
    Join(JoinContent),
    /// A node reports that it is alive and how many jobs it holds.
    Check(CheckContent),
    /// A node reports that another one has gone silent.
    FoundDead(FoundDeadContent),
    /// A node asks the receiver to take over a range of a silent node's jobs.
    TakeJobs(TakeJobsContent),
    /// A node reports that it took over the jobs it was asked to.
    Done(DoneContent),
}

#[derive(Clone, Debug, PartialEq)]
pub struct JoinContent {
    pub sender_id: String,
    pub address: SocketAddress,
    pub start_time: Timestamp,
}

#[derive(Clone, Debug, PartialEq)]
pub struct CheckContent {
    pub sender_id: String,
    pub jobs: usize,
}

#[derive(Clone, Debug, PartialEq)]
pub struct FoundDeadContent {
    pub sender_id: String,
    pub dead_id: String,
}

#[derive(Clone, Debug, PartialEq)]
pub struct TakeJobsContent {
    pub sender_id: String,
    pub dead_id: String,
    pub start_at: usize,
    pub jobs: usize,
}

#[derive(Clone, Debug, PartialEq)]
pub struct DoneContent {
    pub sender_id: String,
    pub dead_id: String,
}

impl Action {
    /// The id of the node that sent the message.
    pub open spec fn spec_sender(self) -> Seq<char> {
        match self {
            Action::Join(c) => c.sender_id@,
            Action::Check(c) => c.sender_id@,
            Action::FoundDead(c) => c.sender_id@,
            Action::TakeJobs(c) => c.sender_id@,
            Action::Done(c) => c.sender_id@,
        }
    }

    /// The id of the node that sent the message.
    pub fn sender(&self) -> (id: &String)
        ensures
            id@ == self.spec_sender(),
    {
        match self {
            Action::Join(c) => &c.sender_id,
            Action::Check(c) => &c.sender_id,
            Action::FoundDead(c) => &c.sender_id,
            Action::TakeJobs(c) => &c.sender_id,
            Action::Done(c) => &c.sender_id,
        }
    }
}

impl Message {
    /// The announcement of a node: its id, address and start time.
    pub fn new_join(id: String, address: SocketAddress, start_time: Timestamp) -> (m: Self)
        ensures
            m.action == Action::Join(JoinContent { sender_id: id, address, start_time }),
    {
        Self { action: Action::Join(JoinContent { sender_id: id, address, start_time }) }
    }

    /// The heartbeat of a node: its id and how many jobs it holds.
    pub fn new_check(id: String, jobs: usize) -> (m: Self)
        ensures
            m.action == Action::Check(CheckContent { sender_id: id, jobs }),
    {
        Self { action: Action::Check(CheckContent { sender_id: id, jobs }) }
    }

    /// The report by node `id` that node `dead_id` has gone silent.
    pub fn new_found_dead(id: String, dead_id: String) -> (m: Self)
        ensures
            m.action == Action::FoundDead(FoundDeadContent { sender_id: id, dead_id }),
    {
        Self { action: Action::FoundDead(FoundDeadContent { sender_id: id, dead_id }) }
    }

    /// The request by node `id` to take `jobs` jobs of node `dead_id`,
    /// starting at position `start_at`.
    pub fn new_take_jobs(id: String, dead_id: String, start_at: usize, jobs: usize) -> (m: Self)
        ensures
            m.action == Action::TakeJobs(TakeJobsContent { sender_id: id, dead_id, start_at, jobs }),
    {
        Self { action: Action::TakeJobs(TakeJobsContent { sender_id: id, dead_id, start_at, jobs }) }
    }

    /// The report by node `id` that it took over the jobs of `dead_id` that it
    /// was asked to.
    pub fn new_done(id: String, dead_id: String) -> (m: Self)
        ensures
            m.action == Action::Done(DoneContent { sender_id: id, dead_id }),
    {
        Self { action: Action::Done(DoneContent { sender_id: id, dead_id }) }
    }
}

/// A message to send: to the given address, or to every node when none is
/// given.
pub type Outgoing = (Message, Option<SocketAddress>);

/// `m` is the announcement of node `id`, reachable at `address` and started
/// at `start_time`.
pub open spec fn is_join(m: Message, id: Seq<char>, address: SocketAddress, start_time: Timestamp) -> bool {
    match m.action {
        Action::Join(c) => c.sender_id@ == id && c.address == address && c.start_time == start_time,
        _ => false,
    }
}

/// `m` is the heartbeat of node `id`, holding `jobs` jobs.
pub open spec fn is_check(m: Message, id: Seq<char>, jobs: usize) -> bool {
    match m.action {
        Action::Check(c) => c.sender_id@ == id && c.jobs == jobs,
        _ => false,
    }
}

/// `m` is the report by node `id` that node `dead_id` went silent.
pub open spec fn is_found_dead(m: Message, id: Seq<char>, dead_id: Seq<char>) -> bool {
    match m.action {
        Action::FoundDead(c) => c.sender_id@ == id && c.dead_id@ == dead_id,
        _ => false,
    }
}

/// `m` is the report by node `id` that it took over the jobs of `dead_id` it
/// was asked to.
pub open spec fn is_done(m: Message, id: Seq<char>, dead_id: Seq<char>) -> bool {
    match m.action {
        Action::Done(c) => c.sender_id@ == id && c.dead_id@ == dead_id,
        _ => false,
    }
}

/// The client that a node becomes when it announces itself with `c` from the
/// address `source` at the time `now`: no jobs known yet.
pub open spec fn joined_client(c: JoinContent, source: SocketAddress, now: i64) -> EscalonClient {
    EscalonClient {
        address: source,
        last_seen: now,
        start_time: c.start_time,
        state: ClientState { jobs: 0 },
    }
}

/// What is known of the client `id` after its heartbeat `c` at the time
/// `now`: seen then, holding the jobs it reports.
pub open spec fn checked_client(old: EscalonClient, c: CheckContent, now: i64) -> EscalonClient {
    EscalonClient { last_seen: now, state: ClientState { jobs: c.jobs }, ..old }
}

/// A record of the distribution stays unless it is the share of `dead_id`'s
/// jobs handed to `sender`.
pub open spec fn not_done_by(sender: Seq<char>, dead_id: Seq<char>) -> spec_fn(Distrib) -> bool {
    |d: Distrib| !(d.client_id@ == sender && d.take_from@ == dead_id)
}

/// Taking in the announcement `c`, received from `source` at the time `now`,
/// turned `before` into `after` and gave `reply`: the sender becomes a known
/// client, reached at `source`, with no jobs and seen now, in place of what
/// was known of it; if it was not known, this node answers with its own
/// announcement, sent back to `source`.
pub open spec fn join_taken<M>(
    before: Escalon<M>,
    after: Escalon<M>,
    c: JoinContent,
    source: SocketAddress,
    now: i64,
    reply: Option<Outgoing>,
) -> bool {
    &&& same_identity(before, after)
    &&& after.clients@ == before.clients@.insert(c.sender_id@, joined_client(c, source, now))
    &&& after.distribution == before.distribution
    &&& match reply {
        Some(out) => !before.clients@.dom().contains(c.sender_id@) && is_join(
            out.0,
            before.id@,
            before.address,
            before.start_time,
        ) && out.1 == Some(source),
        None => before.clients@.dom().contains(c.sender_id@),
    }
}

/// Taking in the heartbeat `c`, received at the time `now`, turned `before`
/// into `after`: a known sender is marked seen now, with the jobs it reports;
/// an unknown one is ignored.
pub open spec fn check_taken<M>(before: Escalon<M>, after: Escalon<M>, c: CheckContent, now: i64) -> bool {
    &&& same_identity(before, after)
    &&& after.clients@ == (if before.clients@.dom().contains(c.sender_id@) {
        before.clients@.insert(c.sender_id@, checked_client(before.clients@[c.sender_id@], c, now))
    } else {
        before.clients@
    })
    &&& after.distribution == before.distribution
}

/// Taking in the report `c`, received from `source`, that a node went
/// silent, turned `before` into `after` and gave `reply`: if the silent node
/// is this one, it announces itself again, back to `source`; if the sender is
/// known and started before this node, the silent node is forgotten.
pub open spec fn found_dead_taken<M>(
    before: Escalon<M>,
    after: Escalon<M>,
    c: FoundDeadContent,
    source: SocketAddress,
    reply: Option<Outgoing>,
) -> bool {
    &&& same_identity(before, after)
    &&& after.clients@ == (if before.clients@.dom().contains(c.sender_id@)
        && before.clients@[c.sender_id@].start_time.precedes(before.start_time) {
        before.clients@.remove(c.dead_id@)
    } else {
        before.clients@
    })
    &&& after.distribution == before.distribution
    &&& match reply {
        Some(out) => c.dead_id@ == before.id@ && is_join(
            out.0,
            before.id@,
            before.address,
            before.start_time,
        ) && out.1 == Some(source),
        None => c.dead_id@ != before.id@,
    }
}

/// The answer of node `e` to the request `c`, received from `source`, to
/// take over jobs: the jobs to take over, `c.jobs` jobs of `c.dead_id` from
/// position `c.start_at`, and the report that it is done, sent back to
/// `source`.
pub open spec fn take_answered<M>(
    e: Escalon<M>,
    c: TakeJobsContent,
    source: SocketAddress,
    r: (JobTake, Outgoing),
) -> bool {
    &&& r.0.take_from@ == c.dead_id@
    &&& r.0.start_at == c.start_at
    &&& r.0.n_jobs == c.jobs
    &&& is_done(r.1.0, e.id@, c.dead_id@)
    &&& r.1.1 == Some(source)
}

/// Taking in the report `c` that a node took over its share of a silent
/// node's jobs turned `before` into `after`: the shares of those jobs handed
/// to the sender are forgotten, the others kept in order.
pub open spec fn done_taken<M>(before: Escalon<M>, after: Escalon<M>, c: DoneContent) -> bool {
    &&& same_identity(before, after)
    &&& after.clients == before.clients
    &&& after.distribution@ == before.distribution@.filter(not_done_by(c.sender_id@, c.dead_id@))
}

impl<M> Escalon<M> {
    /// Takes in the announcement `content`, received from `source` at the
    /// time `now`, as `join_taken` says.
    pub fn register_join(&mut self, content: JoinContent, source: SocketAddress, now: i64) -> (r:
        Option<Outgoing>)
        ensures
            join_taken(*old(self), *final(self), content, source, now, r),
    {
        let reply = if !self.clients.contains_key(&content.sender_id) {
            Some((self.join_message(), Some(source)))
        } else {
            None
        };
        let client = EscalonClient {
            address: source,
            last_seen: now,
            start_time: content.start_time,
            state: ClientState { jobs: 0 },
        };
        self.clients.insert(content.sender_id, client);
        reply
    }

    /// Takes in the heartbeat `content`, received at the time `now`, as
    /// `check_taken` says.
    pub fn record_check(&mut self, content: CheckContent, now: i64)
        ensures
            check_taken(*old(self), *final(self), content, now),
    {
        match self.clients.get(&content.sender_id) {
            Some(client) => {
                let updated = EscalonClient {
                    last_seen: now,
                    state: ClientState { jobs: content.jobs },
                    ..client
                };
                self.clients.insert(content.sender_id, updated);
            },
            None => {},
        }
    }

    /// Forgets the shares of `dead_id`'s jobs that were handed to `sender`,
    /// keeping the others in order.
    pub fn clear_distribution(&mut self, sender: &String, dead_id: &String)
        ensures
            final(self).distribution@ == old(self).distribution@.filter(
                not_done_by(sender@, dead_id@),
            ),
            same_identity(*old(self), *final(self)),
            final(self).clients == old(self).clients,
    {
        let ghost pred = not_done_by(sender@, dead_id@);
        let ghost before = self.distribution@;
        let mut kept: Vec<Distrib> = Vec::new();
        let mut rest = Vec::new();
        std::mem::swap(&mut rest, &mut self.distribution);
        let ghost mut k: int = 0;
        assert(before.take(0) =~= Seq::<Distrib>::empty());
        assert(Seq::<Distrib>::empty().filter(pred) =~= Seq::<Distrib>::empty()) by {
            reveal(Seq::filter);
        }
        while rest.len() > 0
            invariant
                0 <= k <= before.len(),
                rest@ == before.skip(k),
                kept@ == before.take(k).filter(pred),
                pred == not_done_by(sender@, dead_id@),
                self.distribution@.len() == 0,
                same_identity(*old(self), *self),
                self.clients == old(self).clients,
                before == old(self).distribution@,
            decreases rest@.len(),
        {
            assert(before.skip(k)[0] == before[k]);
            let d = rest.remove(0);
            assert(rest@ =~= before.skip(k + 1));
            assert(before.take(k + 1) =~= before.take(k).push(before[k]));
            proof {
                before.take(k).lemma_filter_push(before[k], pred);
            }
            if !(d.client_id == *sender && d.take_from == *dead_id) {
                kept.push(d);
            }
            proof {
                k = k + 1;
            }
        }
        assert(before.take(k) =~= before);
        self.distribution = kept;
    }
}

impl Message {
    /// Answers the announcement `content`, received from `source` at the time
    /// `now`, as `join_taken` says.
    pub fn handle_join<M>(
        &self,
        escalon: &mut Escalon<M>,
        content: JoinContent,
        source: SocketAddress,
        now: i64,
    ) -> (r: Option<Outgoing>)
        ensures
            join_taken(*old(escalon), *final(escalon), content, source, now, r),
    {
        escalon.register_join(content, source, now)
    }

    /// Answers the heartbeat `content`, received at the time `now`, as
    /// `check_taken` says.
    pub fn handle_check<M>(&self, escalon: &mut Escalon<M>, content: CheckContent, now: i64)
        ensures
            check_taken(*old(escalon), *final(escalon), content, now),
    {
        escalon.record_check(content, now);
    }

    /// Answers the report `content`, received from `source`, that a node went
    /// silent, as `found_dead_taken` says.
    pub fn handle_found_dead<M>(
        &self,
        escalon: &mut Escalon<M>,
        content: FoundDeadContent,
        source: SocketAddress,
    ) -> (r: Option<Outgoing>)
        ensures
            found_dead_taken(*old(escalon), *final(escalon), content, source, r),
    {
        let reply = if content.dead_id == escalon.id {
            Some((escalon.join_message(), Some(source)))
        } else {
            None
        };
        match escalon.clients.get(&content.sender_id) {
            Some(sender) => {
                if sender.start_time.is_before(&escalon.start_time) {
                    escalon.clients.remove(&content.dead_id);
                }
            },
            None => {},
        }
        reply
    }

    /// Answers the request `content`, received from `source`, to take over
    /// jobs, as `take_answered` says.
    pub fn handle_take_jobs<M>(
        &self,
        escalon: &Escalon<M>,
        content: TakeJobsContent,
        source: SocketAddress,
    ) -> (r: (JobTake, Outgoing))
        ensures
            take_answered(*escalon, content, source, r),
    {
        let take = JobTake {
            take_from: content.dead_id.clone(),
            start_at: content.start_at,
            n_jobs: content.jobs,
        };
        let message = Message::new_done(escalon.id.clone(), content.dead_id);
        (take, (message, Some(source)))
    }

    /// Answers the report `content` that a node took over its share of a
    /// silent node's jobs, as `done_taken` says.
    pub fn handle_done<M>(&self, escalon: &mut Escalon<M>, content: DoneContent)
        ensures
            done_taken(*old(escalon), *final(escalon), content),
    {
        escalon.clear_distribution(&content.sender_id, &content.dead_id);
    }
}

} // verus!
