//! The simple-dispatcher plugin factory: its configuration record, the
//! descriptors it requires and provides, and the cycle-safe construction of
//! its two dispatcher nodes.

use vstd::prelude::*;

use crate::dispatch::{Condition, DispatchRule, SimpleDatagramDispatcher, SimpleStreamDispatcher};
use crate::registry::{
    errors_extend, errors_has, lemma_errors_extend_has, spec_lookup, AccessPointType, ApEntry,
    Descriptor, ParsedPlugin, PartialPluginSet, WeakHandle, REJECT_HANDLE,
};

verus! {

/// One configured routing rule: conditions on the flow's peers, whether it
/// applies to datagram flows, and the descriptor name of the next handler.
pub struct Rule {
    pub src: Condition,
    pub dst: Condition,
    pub is_udp: bool,
    pub next: String,
}

/// The access-point type a rule's next handler must have.
pub open spec fn rule_ap_type(is_udp: bool) -> AccessPointType {
    if is_udp {
        AccessPointType::DatagramSessionHandler
    } else {
        AccessPointType::StreamHandler
    }
}

/// The simple dispatcher's configuration: rules in input order and the two
/// fallback handler names.
pub struct SimpleDispatcherFactory {
    pub rules: Vec<Rule>,
    pub fallback_tcp: String,
    pub fallback_udp: String,
}

/// The handle a rule scan will be wired to: the handler published under
/// `name`, or the given sentinel when the name does not resolve.
pub open spec fn resolve_handle(map: Seq<ApEntry>, name: Seq<char>, sentinel: WeakHandle) -> WeakHandle {
    match spec_lookup(map, name) {
        Some(h) => h,
        None => sentinel,
    }
}

/// The wired rules of one dispatcher side: the configured rules of that
/// kind (`is_udp` matching `udp`), in input order, each resolved against
/// the handler map or degraded to the sentinel.
pub open spec fn spec_built_rules(
    rules: Seq<Rule>,
    i: int,
    udp: bool,
    map: Seq<ApEntry>,
) -> Seq<DispatchRule>
    decreases rules.len() - i,
    when 0 <= i
{
    if i >= rules.len() {
        Seq::empty()
    } else if rules[i].is_udp == udp {
        seq![
            DispatchRule {
                src_cond: rules[i].src,
                dst_cond: rules[i].dst,
                next: resolve_handle(map, rules[i].next@, REJECT_HANDLE),
            },
        ] + spec_built_rules(rules, i + 1, udp, map)
    } else {
        spec_built_rules(rules, i + 1, udp, map)
    }
}

impl SimpleDispatcherFactory {
    /// Parse the plugin record named `name`: it requires its two fallbacks
    /// and each rule's next handler, at the rule's type, and provides
    /// `<name>.tcp` as a stream handler and `<name>.udp` as a datagram
    /// session handler.
    pub fn parse(&self, name: &String) -> (r: ParsedPlugin)
        ensures
            r.requires@.len() == 2 + self.rules@.len(),
            r.requires@[0].descriptor@ == self.fallback_tcp@,
            r.requires@[0].ap_type == AccessPointType::StreamHandler,
            r.requires@[1].descriptor@ == self.fallback_udp@,
            r.requires@[1].ap_type == AccessPointType::DatagramSessionHandler,
            forall|i: int|
                0 <= i < self.rules@.len() ==> {
                    &&& (#[trigger] r.requires@[2 + i]).descriptor@ == self.rules@[i].next@
                    &&& r.requires@[2 + i].ap_type == rule_ap_type(self.rules@[i].is_udp)
                },
            r.provides@.len() == 2,
            r.provides@[0].descriptor@ == name@ + ".tcp"@,
            r.provides@[0].ap_type == AccessPointType::StreamHandler,
            r.provides@[1].descriptor@ == name@ + ".udp"@,
            r.provides@[1].ap_type == AccessPointType::DatagramSessionHandler,
    {
        let mut requires_list: Vec<Descriptor> = Vec::new();
        requires_list.push(
            Descriptor {
                descriptor: self.fallback_tcp.clone(),
                ap_type: AccessPointType::StreamHandler,
            },
        );
        requires_list.push(
            Descriptor {
                descriptor: self.fallback_udp.clone(),
                ap_type: AccessPointType::DatagramSessionHandler,
            },
        );
        let mut i: usize = 0;
        while i < self.rules.len()
            invariant
                i <= self.rules@.len(),
                requires_list@.len() == 2 + i,
                requires_list@[0].descriptor@ == self.fallback_tcp@,
                requires_list@[0].ap_type == AccessPointType::StreamHandler,
                requires_list@[1].descriptor@ == self.fallback_udp@,
                requires_list@[1].ap_type == AccessPointType::DatagramSessionHandler,
                forall|j: int|
                    0 <= j < i ==> {
                        &&& (#[trigger] requires_list@[2 + j]).descriptor@ == self.rules@[j].next@
                        &&& requires_list@[2 + j].ap_type == rule_ap_type(self.rules@[j].is_udp)
                    },
            decreases self.rules@.len() - i,
        {
            let rule = &self.rules[i];
            let ap_type = if rule.is_udp {
                AccessPointType::DatagramSessionHandler
            } else {
                AccessPointType::StreamHandler
            };
            requires_list.push(Descriptor { descriptor: rule.next.clone(), ap_type });
            i = i + 1;
        }
        let mut provides_list: Vec<Descriptor> = Vec::new();
        provides_list.push(
            Descriptor {
                descriptor: name.clone().concat(".tcp"),
                ap_type: AccessPointType::StreamHandler,
            },
        );
        provides_list.push(
            Descriptor {
                descriptor: name.clone().concat(".udp"),
                ap_type: AccessPointType::DatagramSessionHandler,
            },
        );
        ParsedPlugin { requires: requires_list, provides: provides_list }
    }

    /// Build the two dispatcher nodes for the plugin named `plugin_name`.
    ///
    /// The node's own weak handles are published (or claimed, when the
    /// load phase pre-published them) before its requirements are
    /// resolved, so rules may point back at this very dispatcher. Every
    /// resolution failure is recorded and the affected edge degrades to
    /// the reject sentinel; the load never aborts on the first error.
    pub fn load(&self, plugin_name: &String, set: &mut PartialPluginSet) -> (r: (
        SimpleDatagramDispatcher,
        SimpleStreamDispatcher,
    ))
        requires
            old(set).next_handle + 2 <= WeakHandle::MAX,
        ensures
            final(set).provides(plugin_name@ + ".udp"@, AccessPointType::DatagramSessionHandler),
            final(set).provides(plugin_name@ + ".tcp"@, AccessPointType::StreamHandler),
            final(set).next_handle <= old(set).next_handle + 2,
            final(set).stream_outbounds == old(set).stream_outbounds,
            final(set).datagram_outbounds == old(set).datagram_outbounds,
            r.0.rules@ == spec_built_rules(
                self.rules@,
                0,
                true,
                final(set).datagram_handlers.entries@,
            ),
            r.0.fallback == resolve_handle(
                final(set).datagram_handlers.entries@,
                self.fallback_udp@,
                REJECT_HANDLE,
            ),
            r.1.rules@ == spec_built_rules(
                self.rules@,
                0,
                false,
                final(set).stream_handlers.entries@,
            ),
            r.1.fallback == resolve_handle(
                final(set).stream_handlers.entries@,
                self.fallback_tcp@,
                REJECT_HANDLE,
            ),
            final(set).provides(self.fallback_udp@, AccessPointType::DatagramSessionHandler)
                || final(set).has_error_for(self.fallback_udp@),
            final(set).provides(self.fallback_tcp@, AccessPointType::StreamHandler)
                || final(set).has_error_for(self.fallback_tcp@),
            forall|i: int|
                0 <= i < self.rules@.len() ==> final(set).provides(
                    (#[trigger] self.rules@[i]).next@,
                    rule_ap_type(self.rules@[i].is_udp),
                ) || final(set).has_error_for(self.rules@[i].next@),
            forall|n: Seq<char>, t: AccessPointType|
                old(set).provides(n, t) ==> final(set).provides(n, t),
            errors_extend(old(set).errors@, final(set).errors@),
            final(set).fully_constructed@.len() == old(set).fully_constructed@.len() + 2,
            spec_lookup(final(set).datagram_handlers.entries@, plugin_name@ + ".udp"@) == Some(
                final(set).fully_constructed@[old(set).fully_constructed@.len() as int],
            ),
            spec_lookup(final(set).stream_handlers.entries@, plugin_name@ + ".tcp"@) == Some(
                final(set).fully_constructed@.last(),
            ),
    {
        // Datagram side first: publish its own handle, then resolve what
        // it requires, degrading failures to the reject sentinel.
        let h_udp = set.publish_or_claim(
            AccessPointType::DatagramSessionHandler,
            plugin_name.clone().concat(".udp"),
        );
        let udp_fallback = set.resolve_or_sentinel(
            AccessPointType::DatagramSessionHandler,
            &self.fallback_udp,
            REJECT_HANDLE,
        );
        let udp_rules = self.build_side(true, set);
        let udp_dispatcher = SimpleDatagramDispatcher { rules: udp_rules, fallback: udp_fallback };
        // Stream side second, in the same shape.
        let h_tcp = set.publish_or_claim(
            AccessPointType::StreamHandler,
            plugin_name.clone().concat(".tcp"),
        );
        let tcp_fallback = set.resolve_or_sentinel(
            AccessPointType::StreamHandler,
            &self.fallback_tcp,
            REJECT_HANDLE,
        );
        let tcp_rules = self.build_side(false, set);
        let tcp_dispatcher = SimpleStreamDispatcher { rules: tcp_rules, fallback: tcp_fallback };
        set.install_strong(h_udp);
        set.install_strong(h_tcp);
        (udp_dispatcher, tcp_dispatcher)
    }

    /// Wire one side's rules against the current registry state.
    fn build_side(&self, udp: bool, set: &mut PartialPluginSet) -> (r: Vec<DispatchRule>)
        ensures
            final(set).stream_handlers == old(set).stream_handlers,
            final(set).datagram_handlers == old(set).datagram_handlers,
            final(set).stream_outbounds == old(set).stream_outbounds,
            final(set).datagram_outbounds == old(set).datagram_outbounds,
            final(set).fully_constructed == old(set).fully_constructed,
            final(set).next_handle == old(set).next_handle,
            r@ == spec_built_rules(
                self.rules@,
                0,
                udp,
                old(set).spec_map_of(rule_ap_type(udp)),
            ),
            forall|i: int|
                0 <= i < self.rules@.len() && self.rules@[i].is_udp == udp ==> final(set).provides(
                    (#[trigger] self.rules@[i]).next@,
                    rule_ap_type(udp),
                ) || final(set).has_error_for(self.rules@[i].next@),
            errors_extend(old(set).errors@, final(set).errors@),
    {
        let ghost map0 = old(set).spec_map_of(rule_ap_type(udp));
        let ap_type = if udp {
            AccessPointType::DatagramSessionHandler
        } else {
            AccessPointType::StreamHandler
        };
        let mut built: Vec<DispatchRule> = Vec::new();
        let mut i: usize = 0;
        while i < self.rules.len()
            invariant
                i <= self.rules@.len(),
                ap_type == rule_ap_type(udp),
                map0 == set.spec_map_of(rule_ap_type(udp)),
                set.stream_handlers == old(set).stream_handlers,
                set.datagram_handlers == old(set).datagram_handlers,
                set.stream_outbounds == old(set).stream_outbounds,
                set.datagram_outbounds == old(set).datagram_outbounds,
                set.fully_constructed == old(set).fully_constructed,
                set.next_handle == old(set).next_handle,
                built@ + spec_built_rules(self.rules@, i as int, udp, map0) == spec_built_rules(
                    self.rules@,
                    0,
                    udp,
                    map0,
                ),
                forall|j: int|
                    0 <= j < i && self.rules@[j].is_udp == udp ==> set.provides(
                        (#[trigger] self.rules@[j]).next@,
                        rule_ap_type(udp),
                    ) || set.has_error_for(self.rules@[j].next@),
                errors_extend(old(set).errors@, set.errors@),
            decreases self.rules@.len() - i,
        {
            let rule = &self.rules[i];
            let ghost prev_errs = set.errors@;
            if rule.is_udp == udp {
                let next = set.resolve_or_sentinel(ap_type, &rule.next, REJECT_HANDLE);
                let ghost before = built@;
                proof {
                    assert forall|j: int|
                        0 <= j < i + 1 && self.rules@[j].is_udp == udp implies set.provides(
                        (#[trigger] self.rules@[j]).next@,
                        rule_ap_type(udp),
                    ) || set.has_error_for(self.rules@[j].next@) by {
                        if j < i && !set.provides(self.rules@[j].next@, rule_ap_type(udp))
                            && errors_has(prev_errs, self.rules@[j].next@) {
                            lemma_errors_extend_has(
                                prev_errs,
                                set.errors@,
                                self.rules@[j].next@,
                            );
                        }
                    }
                }
                built.push(DispatchRule { src_cond: rule.src, dst_cond: rule.dst, next });
                proof {
                    assert(built@ =~= before + seq![
                        DispatchRule {
                            src_cond: self.rules@[i as int].src,
                            dst_cond: self.rules@[i as int].dst,
                            next: resolve_handle(map0, self.rules@[i as int].next@, REJECT_HANDLE),
                        },
                    ]);
                    assert(built@ + spec_built_rules(self.rules@, i + 1, udp, map0)
                        =~= before + spec_built_rules(self.rules@, i as int, udp, map0));
                }
            }
            i = i + 1;
        }
        proof {
            assert(built@ + spec_built_rules(self.rules@, self.rules@.len() as int, udp, map0)
                =~= built@);
        }
        built
    }
}

} // verus!
