//! The trojan plugin factory: a stream outbound factory that wraps a lower
//! TLS stream outbound with its wire-format framing. Here only its place in
//! the plugin graph is modelled: what it requires, what it provides, and
//! how its edge to the lower outbound is wired.

use vstd::prelude::*;

use crate::registry::{
    spec_lookup, AccessPointType, Descriptor, ParsedPlugin, PartialPluginSet, WeakHandle,
    NULL_FACTORY_HANDLE,
};
use crate::simple_dispatcher::resolve_handle;

verus! {

/// The trojan plugin's configuration: the password bytes and the name of
/// the stream outbound factory that supplies the TLS transport under it.
pub struct TrojanFactory {
    pub password: Vec<u8>,
    pub tls_next: String,
}

impl TrojanFactory {
    /// Parse the plugin record named `name`: it requires `tls_next` as a
    /// stream outbound factory and provides `<name>.tcp` as one. Datagram
    /// support is an open gap of the wire protocol here, so nothing else
    /// is provided.
    pub fn parse(&self, name: &String) -> (r: ParsedPlugin)
        ensures
            r.requires@.len() == 1,
            r.requires@[0].descriptor@ == self.tls_next@,
            r.requires@[0].ap_type == AccessPointType::StreamOutboundFactory,
            r.provides@.len() == 1,
            r.provides@[0].descriptor@ == name@ + ".tcp"@,
            r.provides@[0].ap_type == AccessPointType::StreamOutboundFactory,
    {
        let mut requires_list: Vec<Descriptor> = Vec::new();
        requires_list.push(
            Descriptor {
                descriptor: self.tls_next.clone(),
                ap_type: AccessPointType::StreamOutboundFactory,
            },
        );
        let mut provides_list: Vec<Descriptor> = Vec::new();
        provides_list.push(
            Descriptor {
                descriptor: name.clone().concat(".tcp"),
                ap_type: AccessPointType::StreamOutboundFactory,
            },
        );
        ParsedPlugin { requires: requires_list, provides: provides_list }
    }

    /// Wire the trojan node named `plugin_name`: publish (or claim) its
    /// own `<name>.tcp` outbound handle, resolve the lower TLS outbound —
    /// degrading to the null factory on failure, with the error recorded —
    /// and install the strong reference. Returns the wired lower edge.
    pub fn load(&self, plugin_name: &String, set: &mut PartialPluginSet) -> (r: WeakHandle)
        requires
            old(set).next_handle < WeakHandle::MAX,
        ensures
            final(set).provides(plugin_name@ + ".tcp"@, AccessPointType::StreamOutboundFactory),
            final(set).next_handle <= old(set).next_handle + 1,
            final(set).stream_handlers == old(set).stream_handlers,
            final(set).datagram_handlers == old(set).datagram_handlers,
            final(set).datagram_outbounds == old(set).datagram_outbounds,
            r == resolve_handle(
                final(set).stream_outbounds.entries@,
                self.tls_next@,
                NULL_FACTORY_HANDLE,
            ),
            final(set).provides(self.tls_next@, AccessPointType::StreamOutboundFactory)
                || final(set).has_error_for(self.tls_next@),
            forall|n: Seq<char>, t: AccessPointType|
                old(set).provides(n, t) ==> final(set).provides(n, t),
            crate::registry::errors_extend(old(set).errors@, final(set).errors@),
            final(set).fully_constructed@.len() == old(set).fully_constructed@.len() + 1,
            spec_lookup(final(set).stream_outbounds.entries@, plugin_name@ + ".tcp"@) == Some(
                final(set).fully_constructed@.last(),
            ),
    {
        let h_tcp = set.publish_or_claim(
            AccessPointType::StreamOutboundFactory,
            plugin_name.clone().concat(".tcp"),
        );
        let tls = set.resolve_or_sentinel(
            AccessPointType::StreamOutboundFactory,
            &self.tls_next,
            NULL_FACTORY_HANDLE,
        );
        set.install_strong(h_tcp);
        tls
    }
}

} // verus!
