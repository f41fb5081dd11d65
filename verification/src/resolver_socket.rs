//! The resolver UDP shim: a datagram-socket-shaped adapter that routes a
//! resolver library's sends and receives through the engine's datagram
//! session factories. Factories register in a process-wide table under an
//! integer id, and that id travels to the resolver encoded as a synthetic
//! IPv4 address; a send to such an address binds a session through the
//! matching factory.

use vstd::prelude::*;

use crate::flow::{DestinationAddr, FlowContext, HostName, IpAddress, SocketAddress};
use crate::registry::{PartialPluginSet, WeakHandle};

verus! {

/// One registered outbound factory: its id and its weak handle.
pub struct FactoryEntry {
    pub id: u32,
    pub factory: WeakHandle,
}

/// Look an id up; a later registration under the same id would override
/// an earlier one, but ids are handed out fresh.
pub open spec fn spec_factory_lookup(s: Seq<FactoryEntry>, id: u32) -> Option<WeakHandle>
    decreases s.len(),
{
    if s.len() == 0 {
        None
    } else if s.last().id == id {
        Some(s.last().factory)
    } else {
        spec_factory_lookup(s.drop_last(), id)
    }
}

/// The process-wide table from factory id to weak factory handle.
pub struct UdpFactoryRegistry {
    pub next_id: u32,
    pub entries: Vec<FactoryEntry>,
}

impl UdpFactoryRegistry {
    pub fn new() -> (r: UdpFactoryRegistry)
        ensures
            r.next_id == 0,
            r.entries@ == Seq::<FactoryEntry>::empty(),
    {
        UdpFactoryRegistry { next_id: 0, entries: Vec::new() }
    }

    /// Register an outbound factory under a fresh id; the id is what gets
    /// encoded towards the resolver as a synthetic IPv4 address.
    pub fn register(&mut self, factory: WeakHandle) -> (id: u32)
        requires
            old(self).next_id < u32::MAX,
        ensures
            id == old(self).next_id,
            final(self).next_id == old(self).next_id + 1,
            final(self).entries@ == old(self).entries@.push(FactoryEntry { id, factory }),
            spec_factory_lookup(final(self).entries@, id) == Some(factory),
            forall|other: u32|
                other != id ==> spec_factory_lookup(final(self).entries@, other)
                    == spec_factory_lookup(old(self).entries@, other),
    {
        let id = self.next_id;
        self.next_id = self.next_id + 1;
        self.entries.push(FactoryEntry { id, factory });
        proof {
            assert(self.entries@.drop_last() =~= old(self).entries@);
        }
        id
    }

    /// Resolve an id to the registered weak handle.
    pub fn lookup(&self, id: u32) -> (r: Option<WeakHandle>)
        ensures
            r == spec_factory_lookup(self.entries@, id),
    {
        let mut i: usize = self.entries.len();
        assert(self.entries@.take(i as int) =~= self.entries@);
        while i > 0
            invariant
                i <= self.entries@.len(),
                spec_factory_lookup(self.entries@, id) == spec_factory_lookup(
                    self.entries@.take(i as int),
                    id,
                ),
            decreases i,
        {
            i = i - 1;
            assert(self.entries@.take(i + 1).drop_last() =~= self.entries@.take(i as int));
            assert(self.entries@.take(i + 1).last() == self.entries@[i as int]);
            if self.entries[i].id == id {
                return Some(self.entries[i].factory);
            }
        }
        assert(self.entries@.take(0) =~= Seq::<FactoryEntry>::empty());
        None
    }

    /// Remove an id when its factory is destroyed; every other
    /// registration keeps resolving as before.
    pub fn deregister(&mut self, id: u32)
        ensures
            final(self).next_id == old(self).next_id,
            spec_factory_lookup(final(self).entries@, id) is None,
            forall|other: u32|
                other != id ==> spec_factory_lookup(final(self).entries@, other)
                    == spec_factory_lookup(old(self).entries@, other),
    {
        let mut kept: Vec<FactoryEntry> = Vec::new();
        let mut i: usize = 0;
        assert(self.entries@.take(0) =~= Seq::<FactoryEntry>::empty());
        while i < self.entries.len()
            invariant
                i <= self.entries@.len(),
                spec_factory_lookup(kept@, id) is None,
                forall|other: u32|
                    other != id ==> spec_factory_lookup(kept@, other) == spec_factory_lookup(
                        self.entries@.take(i as int),
                        other,
                    ),
            decreases self.entries@.len() - i,
        {
            assert(self.entries@.take(i + 1).drop_last() =~= self.entries@.take(i as int));
            assert(self.entries@.take(i + 1).last() == self.entries@[i as int]);
            let ghost kept0 = kept@;
            let e = &self.entries[i];
            if e.id != id {
                kept.push(FactoryEntry { id: e.id, factory: e.factory });
                proof {
                    assert(kept@.drop_last() =~= kept0);
                }
            }
            proof {
                assert forall|other: u32|
                    other != id implies spec_factory_lookup(kept@, other) == spec_factory_lookup(
                    self.entries@.take(i + 1),
                    other,
                ) by {
                    assert(spec_factory_lookup(kept0, other) == spec_factory_lookup(
                        self.entries@.take(i as int),
                        other,
                    ));
                }
            }
            i = i + 1;
        }
        proof {
            assert(self.entries@.take(self.entries@.len() as int) =~= self.entries@);
        }
        self.entries = kept;
    }
}

/// The errors the shim maps onto the resolver's socket interface.
#[derive(Clone, Copy, PartialEq, Eq, Structural, Debug)]
pub enum ShimError {
    /// No session and nothing to bind one from.
    NotConnected,
    /// The synthetic address names no registered factory.
    NotFound,
    /// The bound session could not be established.
    ConnectionRefused,
    /// The factory's weak handle no longer upgrades.
    ConnectionAborted,
    /// The session closed while a receive was pending.
    ConnectionReset,
}

/// What the event loop must do next for this socket.
pub enum ShimPlan {
    /// Kick the factory's bind off with this context.
    StartBind(FlowContext),
    /// Keep driving the pending bind to completion.
    AwaitBind,
    /// Session ready: transfer via it (send to the given destination, or
    /// receive).
    UseSession(DestinationAddr),
}

/// Where the socket stands: no session yet, a bind in flight to factory
/// `id`, or a session bound through factory `id`.
#[derive(Clone, Copy, PartialEq, Eq, Structural, Debug)]
pub enum ShimSessionState {
    Unbound,
    Binding(u32),
    Ready(u32),
}

/// The engine-backed datagram socket handed to the resolver library.
pub struct FlowDatagramSocket {
    pub state: ShimSessionState,
}

impl FlowDatagramSocket {
    /// A fresh socket: the resolver's bind call makes no session yet.
    pub fn bind() -> (s: FlowDatagramSocket)
        ensures
            s.state is Unbound,
    {
        FlowDatagramSocket { state: ShimSessionState::Unbound }
    }

    /// Decide one `poll_send_to(target)` step. On the first send the
    /// factory id is read out of the synthetic IPv4 target, looked up and
    /// upgraded, and the bind starts with the target as local peer and
    /// port 53 at the same synthetic address as remote peer.
    pub fn on_send_to(
        &mut self,
        target: SocketAddress,
        reg: &UdpFactoryRegistry,
        set: &PartialPluginSet,
    ) -> (r: Result<ShimPlan, ShimError>)
        ensures
            match old(self).state {
                ShimSessionState::Unbound => match target.ip {
                    IpAddress::V4(id) => match spec_factory_lookup(reg.entries@, id) {
                        None => r == Result::<ShimPlan, ShimError>::Err(ShimError::NotFound)
                            && final(self).state is Unbound,
                        Some(h) => if set.fully_constructed@.contains(h) {
                            final(self).state == ShimSessionState::Binding(id) && (r matches Ok(
                                p,
                            ) && (p matches ShimPlan::StartBind(ctx) && ctx.local_peer == target
                                && ctx.remote_peer.port == 53 && ctx.remote_peer.host
                                == HostName::Ip(IpAddress::V4(id))))
                        } else {
                            r == Result::<ShimPlan, ShimError>::Err(ShimError::ConnectionAborted)
                                && final(self).state is Unbound
                        },
                    },
                    IpAddress::V6(_) => r == Result::<ShimPlan, ShimError>::Err(
                        ShimError::NotConnected,
                    ) && final(self).state is Unbound,
                },
                ShimSessionState::Binding(id) => (r matches Ok(p) && p is AwaitBind)
                    && final(self).state == old(self).state,
                ShimSessionState::Ready(id) => (r matches Ok(p) && (p
                    matches ShimPlan::UseSession(d) && d.host == HostName::Ip(target.ip) && d.port
                    == target.port)) && final(self).state == old(self).state,
            },
    {
        match self.state {
            ShimSessionState::Unbound => {
                match target.ip {
                    IpAddress::V4(id) => {
                        match reg.lookup(id) {
                            None => Err(ShimError::NotFound),
                            Some(h) => {
                                if set.upgrade(h) {
                                    self.state = ShimSessionState::Binding(id);
                                    Ok(
                                        ShimPlan::StartBind(
                                            FlowContext {
                                                local_peer: target,
                                                remote_peer: DestinationAddr {
                                                    host: HostName::Ip(IpAddress::V4(id)),
                                                    port: 53,
                                                },
                                            },
                                        ),
                                    )
                                } else {
                                    Err(ShimError::ConnectionAborted)
                                }
                            },
                        }
                    },
                    IpAddress::V6(_) => Err(ShimError::NotConnected),
                }
            },
            ShimSessionState::Binding(_) => Ok(ShimPlan::AwaitBind),
            ShimSessionState::Ready(_) => Ok(
                ShimPlan::UseSession(
                    DestinationAddr { host: HostName::Ip(target.ip), port: target.port },
                ),
            ),
        }
    }

    /// Decide one `poll_recv_from` step: without a session the receive
    /// fails, a pending bind is driven, a ready session is read.
    pub fn on_recv_from(&self) -> (r: Result<ShimPlan, ShimError>)
        ensures
            match self.state {
                ShimSessionState::Unbound => r == Result::<ShimPlan, ShimError>::Err(
                    ShimError::NotConnected,
                ),
                ShimSessionState::Binding(_) => r matches Ok(p) && p is AwaitBind,
                ShimSessionState::Ready(id) => r matches Ok(p) && (p matches ShimPlan::UseSession(
                    d,
                ) && d.host == HostName::Ip(IpAddress::V4(id)) && d.port == 53),
            },
    {
        match self.state {
            ShimSessionState::Unbound => Err(ShimError::NotConnected),
            ShimSessionState::Binding(_) => Ok(ShimPlan::AwaitBind),
            ShimSessionState::Ready(id) => Ok(
                ShimPlan::UseSession(
                    DestinationAddr { host: HostName::Ip(IpAddress::V4(id)), port: 53 },
                ),
            ),
        }
    }

    /// Settle the pending bind: the session is installed, or the failure
    /// surfaces as `ConnectionRefused` and the socket returns to unbound.
    pub fn on_bind_complete(&mut self, ok: bool) -> (r: Result<(), ShimError>)
        requires
            old(self).state is Binding,
        ensures
            ok ==> r is Ok && final(self).state == ShimSessionState::Ready(
                old(self).state->Binding_0,
            ),
            !ok ==> r == Result::<(), ShimError>::Err(ShimError::ConnectionRefused)
                && final(self).state is Unbound,
    {
        match self.state {
            ShimSessionState::Binding(id) => {
                if ok {
                    self.state = ShimSessionState::Ready(id);
                    Ok(())
                } else {
                    self.state = ShimSessionState::Unbound;
                    Err(ShimError::ConnectionRefused)
                }
            },
            _ => Err(ShimError::NotConnected),
        }
    }

    /// What one received packet means to the resolver: the payload length
    /// and a source synthesized from the factory id, so the resolver sees
    /// the packet coming from the peer it sent to. A closed session reads
    /// as a connection reset.
    pub fn on_recv_packet(&self, pkt: Option<(DestinationAddr, Vec<u8>)>) -> (r: Result<
        (usize, SocketAddress),
        ShimError,
    >)
        requires
            self.state is Ready,
        ensures
            match pkt {
                Some(p) => r == Result::<(usize, SocketAddress), ShimError>::Ok(
                    (
                        p.1.len() as usize,
                        SocketAddress { ip: IpAddress::V4(self.state->Ready_0), port: 53 },
                    ),
                ),
                None => r == Result::<(usize, SocketAddress), ShimError>::Err(
                    ShimError::ConnectionReset,
                ),
            },
    {
        match self.state {
            ShimSessionState::Ready(id) => match pkt {
                Some((_dest, chunk)) => Ok(
                    (chunk.len(), SocketAddress { ip: IpAddress::V4(id), port: 53 }),
                ),
                None => Err(ShimError::ConnectionReset),
            },
            _ => Err(ShimError::NotConnected),
        }
    }

    /// Whether dropping the socket must schedule a best-effort shutdown:
    /// only an established session has one pending.
    pub fn shutdown_on_drop(&self) -> (r: bool)
        ensures
            r == (self.state is Ready),
    {
        matches!(self.state, ShimSessionState::Ready(_))
    }
}

} // verus!
