//! Model of a packet-oriented session, as plain data: a script of the
//! datagrams that will arrive (the session counts as closed once they are
//! exhausted) and a record of the datagrams sent out through it.

use vstd::prelude::*;

use crate::flow::{DestinationAddr, FlowContext, FlowError};

verus! {

/// One datagram: where it came from or goes to, and its payload.
pub struct DatagramPacket {
    pub addr: DestinationAddr,
    pub data: Vec<u8>,
}

/// A datagram session. `incoming` holds the packets still to arrive, in
/// arrival order; once it is empty the session reads as closed.
pub struct DatagramSessionModel {
    pub incoming: Vec<DatagramPacket>,
    pub sent: Vec<DatagramPacket>,
    pub shutdowns: u32,
}

impl DatagramSessionModel {
    /// A fresh session that will deliver `incoming` then close.
    pub fn new(incoming: Vec<DatagramPacket>) -> (s: DatagramSessionModel)
        ensures
            s.incoming == incoming,
            s.sent@ == Seq::<DatagramPacket>::empty(),
            s.shutdowns == 0,
    {
        DatagramSessionModel { incoming, sent: Vec::new(), shutdowns: 0 }
    }

    /// Receive the next packet, or learn that the session closed.
    pub fn poll_recv_from(&mut self) -> (r: Option<DatagramPacket>)
        ensures
            final(self).sent == old(self).sent,
            final(self).shutdowns == old(self).shutdowns,
            old(self).incoming@.len() == 0 ==> r is None && final(self).incoming == old(
                self,
            ).incoming,
            old(self).incoming@.len() > 0 ==> (r matches Some(p) && p == old(self).incoming@[0]
                && final(self).incoming@ == old(self).incoming@.skip(1)),
    {
        if self.incoming.len() == 0 {
            None
        } else {
            let p = self.incoming.remove(0);
            assert(self.incoming@ =~= old(self).incoming@.skip(1));
            Some(p)
        }
    }

    /// The model transport is always ready to send.
    pub fn poll_send_ready(&mut self)
        ensures
            *final(self) == *old(self),
    {
    }

    /// Send one packet (fire and forget at this level).
    pub fn send_to(&mut self, addr: DestinationAddr, data: Vec<u8>)
        ensures
            final(self).incoming == old(self).incoming,
            final(self).shutdowns == old(self).shutdowns,
            final(self).sent@ == old(self).sent@.push(DatagramPacket { addr, data }),
    {
        self.sent.push(DatagramPacket { addr, data });
    }

    /// Shut the session down.
    pub fn poll_shutdown(&mut self) -> (r: Result<(), FlowError>)
        requires
            old(self).shutdowns < u32::MAX,
        ensures
            final(self).incoming == old(self).incoming,
            final(self).sent == old(self).sent,
            final(self).shutdowns == old(self).shutdowns + 1,
            r is Ok,
    {
        self.shutdowns = self.shutdowns + 1;
        Ok(())
    }
}

/// Model of a datagram session factory: `bind` yields a scripted session or
/// refuses. The script is consumed: a model factory binds once.
pub struct DatagramFactoryModel {
    pub accepts: bool,
    pub lower_incoming: Vec<DatagramPacket>,
}

impl DatagramFactoryModel {
    /// Bind the outbound session for `ctx`, or refuse.
    pub fn bind(&mut self, _ctx: &FlowContext) -> (r: Result<DatagramSessionModel, FlowError>)
        ensures
            final(self).accepts == old(self).accepts,
            old(self).accepts ==> (r matches Ok(s) && {
                &&& s.incoming == old(self).lower_incoming
                &&& s.sent@ == Seq::<DatagramPacket>::empty()
                &&& s.shutdowns == 0
            }),
            !old(self).accepts ==> r == Result::<DatagramSessionModel, FlowError>::Err(
                FlowError::Other,
            ),
    {
        if self.accepts {
            let mut incoming: Vec<DatagramPacket> = Vec::new();
            core::mem::swap(&mut incoming, &mut self.lower_incoming);
            Ok(DatagramSessionModel::new(incoming))
        } else {
            Err(FlowError::Other)
        }
    }
}

} // verus!
