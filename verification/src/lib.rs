//! Escalon: a small cluster of peer nodes that watch each other over
//! heartbeats and hand the jobs of a node that went silent to the others.
//!
//! This crate holds what a node decides; the program that runs a node does
//! the network and the timing around it.

pub mod builder;
pub mod constants;
pub mod implementations;
pub mod laws;
pub mod net;
pub mod plan;
pub mod time;
pub mod types;

pub use crate::implementations::aux::{Handout, Redistribution};
pub use crate::implementations::handler::Reaction;
pub use crate::builder::{Addr, Id, Manager, NoAddr, NoId, NoManager, NoPort, NoService, Port, Service};
pub use crate::net::{IpAddress, SocketAddress};
pub use crate::time::Timestamp;
pub use crate::types::client::{ClientState, ClientTable, EscalonClient};
pub use crate::types::message::{
    Action, CheckContent, DoneContent, FoundDeadContent, JoinContent, Message, Outgoing,
    TakeJobsContent,
};

use vstd::prelude::*;

verus! {

/// A share of another node's jobs that this node asked `client_id` to take
/// over: `n_jobs` jobs of `take_from`, starting at position `start_at`.
#[derive(Debug)]
pub struct Distrib {
    pub client_id: String,
    pub take_from: String,
    pub start_at: usize,
    pub n_jobs: usize,
    pub done: bool,
}

/// Jobs that this node takes over itself: `n_jobs` jobs of `take_from`,
/// starting at position `start_at`. The application that holds this node's
/// jobs carries it out.
#[derive(Debug, PartialEq, Eq)]
pub struct JobTake {
    pub take_from: String,
    pub start_at: usize,
    pub n_jobs: usize,
}

/// The state of one node: who it is, which other nodes it knows, and which
/// shares of jobs it has asked others to take over and not yet heard back of.
pub struct Escalon<M> {
    pub id: String,
    /// The address this node announces: this machine's address and the port
    /// it was built with.
    pub address: SocketAddress,
    /// The address this node's socket is bound to, as the socket reports it.
    pub bound_address: SocketAddress,
    pub start_time: Timestamp,
    pub clients: ClientTable,
    /// The shares of jobs handed out and not yet reported done.
    pub distribution: Vec<Distrib>,
    /// The application that holds this node's jobs.
    pub manager: M,
    /// The address the cluster is served on.
    pub service: IpAddress,
}

/// A failure that stops a node's step.
#[derive(Clone, Copy, Debug, PartialEq, Eq)]
pub enum EscalonError {
    /// A count of jobs does not fit in a `usize`.
    Overflow,
    /// A client holds more jobs than the average while jobs remain to be
    /// handed out, so no share can be computed for it.
    AboveAverage,
    /// This node is said to hold clearly more jobs than the average, but holds
    /// fewer, so its excess cannot be computed.
    BelowAverage,
}

/// `after` has the identity and application of `before`.
pub open spec fn same_identity<M>(before: Escalon<M>, after: Escalon<M>) -> bool {
    &&& after.id == before.id
    &&& after.address == before.address
    &&& after.bound_address == before.bound_address
    &&& after.start_time == before.start_time
    &&& after.manager == before.manager
    &&& after.service == before.service
}

impl Escalon<NoManager> {
    /// A builder with nothing set yet.
    pub fn new() -> (b: EscalonBuilder<NoId, NoAddr, NoService, NoPort, NoManager>)
        ensures
            b.id == NoId,
            b.addr == NoAddr,
            b.svc == NoService,
            b.port == NoPort,
            b.manager == NoManager,
    {
        EscalonBuilder { id: NoId, addr: NoAddr, svc: NoService, port: NoPort, manager: NoManager }
    }
}

/// Gathers what a node needs before it starts: its id, the address and port
/// to listen on, the address the cluster is served on, and the application
/// that holds its jobs. Each parameter says whether its part is set.
pub struct EscalonBuilder<I, A, S, P, F> {
    pub id: I,
    pub addr: A,
    pub svc: S,
    pub port: P,
    pub manager: F,
}

impl<M> EscalonBuilder<Id, Addr, Service, Port, Manager<M>> {
    /// The address and port to listen on.
    pub fn bind_address(&self) -> (a: SocketAddress)
        ensures
            a == (SocketAddress { ip: self.addr.0, port: self.port.0 }),
    {
        SocketAddress { ip: self.addr.0, port: self.port.0 }
    }

    /// The node that the builder describes, reachable at `local_ip` on the
    /// builder's port, with its socket bound to `bound_address`, and started
    /// at `start_time`.
    pub fn build(self, local_ip: IpAddress, bound_address: SocketAddress, start_time: Timestamp) -> (e: Escalon<M>)
        ensures
            e.id@ == self.id.0@,
            e.address == (SocketAddress { ip: local_ip, port: self.port.0 }),
            e.bound_address == bound_address,
            e.start_time == start_time,
            e.service == self.svc.0,
            e.manager == self.manager.0,
            e.clients@ == Map::<Seq<char>, EscalonClient>::empty(),
            e.clients.entries().len() == 0,
            e.distribution@.len() == 0,
    {
        let port = self.port.0;
        Escalon {
            id: self.id.0,
            address: SocketAddress { ip: local_ip, port },
            bound_address,
            start_time,
            clients: ClientTable::new(),
            distribution: Vec::new(),
            manager: self.manager.0,
            service: self.svc.0,
        }
    }
}

} // verus!
