//! The parts of a node's builder, each either missing or set.

use vstd::prelude::*;

use crate::net::IpAddress;
use crate::EscalonBuilder;

verus! {

/// The id is not set yet.
#[derive(Debug, PartialEq, Eq, Structural)]
pub struct NoId;

/// The node's id.
#[derive(Debug)]
pub struct Id(pub String);

/// The listening address is not set yet.
#[derive(Debug, PartialEq, Eq, Structural)]
pub struct NoAddr;

/// The address to listen on.
#[derive(Debug)]
pub struct Addr(pub IpAddress);

/// The service address is not set yet.
#[derive(Debug, PartialEq, Eq, Structural)]
pub struct NoService;

/// The address the cluster is served on.
#[derive(Debug)]
pub struct Service(pub IpAddress);

/// The port is not set yet.
#[derive(Debug, PartialEq, Eq, Structural)]
pub struct NoPort;

/// The port to listen on.
#[derive(Debug)]
pub struct Port(pub u16);

/// The application is not set yet.
#[derive(Debug, PartialEq, Eq, Structural)]
pub struct NoManager;

/// The application that holds the node's jobs.
pub struct Manager<M>(pub M);

impl<I, A, S, P, F> EscalonBuilder<I, A, S, P, F> {
    /// Sets the node's id.
    pub fn set_id(self, id: String) -> (b: EscalonBuilder<Id, A, S, P, F>)
        ensures
            b.id == Id(id),
            b.addr == self.addr,
            b.svc == self.svc,
            b.port == self.port,
            b.manager == self.manager,
    {
        EscalonBuilder { id: Id(id), addr: self.addr, svc: self.svc, port: self.port, manager: self.manager }
    }

    /// Sets the address to listen on.
    pub fn set_addr(self, addr: IpAddress) -> (b: EscalonBuilder<I, Addr, S, P, F>)
        ensures
            b.id == self.id,
            b.addr == Addr(addr),
            b.svc == self.svc,
            b.port == self.port,
            b.manager == self.manager,
    {
        EscalonBuilder { id: self.id, addr: Addr(addr), svc: self.svc, port: self.port, manager: self.manager }
    }

    /// Sets the address the cluster is served on.
    pub fn set_svc(self, svc: IpAddress) -> (b: EscalonBuilder<I, A, Service, P, F>)
        ensures
            b.id == self.id,
            b.addr == self.addr,
            b.svc == Service(svc),
            b.port == self.port,
            b.manager == self.manager,
    {
        EscalonBuilder { id: self.id, addr: self.addr, svc: Service(svc), port: self.port, manager: self.manager }
    }

    /// Sets the port to listen on.
    pub fn set_port(self, port: u16) -> (b: EscalonBuilder<I, A, S, Port, F>)
        ensures
            b.id == self.id,
            b.addr == self.addr,
            b.svc == self.svc,
            b.port == Port(port),
            b.manager == self.manager,
    {
        EscalonBuilder { id: self.id, addr: self.addr, svc: self.svc, port: Port(port), manager: self.manager }
    }

    /// Sets the application that holds the node's jobs.
    pub fn set_manager<M>(self, manager: M) -> (b: EscalonBuilder<I, A, S, P, Manager<M>>)
        ensures
            b.id == self.id,
            b.addr == self.addr,
            b.svc == self.svc,
            b.port == self.port,
            b.manager == Manager(manager),
    {
        EscalonBuilder { id: self.id, addr: self.addr, svc: self.svc, port: self.port, manager: Manager(manager) }
    }
}

} // verus!
