//! The load phase: all plugin nodes are constructed in one pass. Every
//! provided descriptor is published (weak) before any node's body runs, so
//! bodies may resolve forward references and cycles; each factory's load
//! then wires its requirements, degrading failures to sentinels and
//! collecting the errors. The load never aborts on the first problem, so a
//! configuration author sees every problem at once.

use vstd::prelude::*;

use crate::registry::{
    errors_extend, lemma_errors_extend_has, AccessPointType, PartialPluginSet, WeakHandle,
    FIRST_NODE_HANDLE,
};
use crate::simple_dispatcher::{rule_ap_type, Rule, SimpleDispatcherFactory};
use crate::trojan::TrojanFactory;

verus! {

/// A parsed plugin factory, ready to be loaded.
pub enum PluginFactory {
    SimpleDispatcher(SimpleDispatcherFactory),
    Trojan(TrojanFactory),
}

/// A plugin record after its parameters were decoded: its unique name and
/// its factory.
pub struct NamedPlugin {
    pub name: String,
    pub factory: PluginFactory,
}

/// The descriptors a factory requires, as (name, type) pairs.
pub open spec fn factory_requires(f: PluginFactory) -> Seq<(Seq<char>, AccessPointType)> {
    match f {
        PluginFactory::SimpleDispatcher(d) => seq![
            (d.fallback_tcp@, AccessPointType::StreamHandler),
            (d.fallback_udp@, AccessPointType::DatagramSessionHandler),
        ] + d.rules@.map_values(|r: Rule| (r.next@, rule_ap_type(r.is_udp))),
        PluginFactory::Trojan(t) => seq![
            (t.tls_next@, AccessPointType::StreamOutboundFactory),
        ],
    }
}

/// Every descriptor the factory requires is either provided at its type or
/// covered by a recorded wiring error.
pub open spec fn plugin_requires_settled(set: PartialPluginSet, f: PluginFactory) -> bool {
    forall|k: int|
        0 <= k < factory_requires(f).len() ==> set.provides(
            (#[trigger] factory_requires(f)[k]).0,
            factory_requires(f)[k].1,
        ) || set.has_error_for(factory_requires(f)[k].0)
}

/// How many descriptors one plugin can publish during the load.
pub open spec fn max_provides_per_plugin() -> int {
    2
}

/// Construct the whole plugin graph.
///
/// After the load, every descriptor appearing in any plugin's requires is
/// either provided with the matching type or covered by an
/// `UnresolvedDescriptor` / `TypeMismatch` entry in the returned error
/// list: errors accumulate, the load never short-circuits.
pub fn load_all(plugins: &Vec<NamedPlugin>) -> (set: PartialPluginSet)
    requires
        FIRST_NODE_HANDLE + 4 * plugins@.len() + 2 <= WeakHandle::MAX,
    ensures
        forall|i: int|
            0 <= i < plugins@.len() ==> plugin_requires_settled(
                set,
                (#[trigger] plugins@[i]).factory,
            ),
{
    let mut set = PartialPluginSet::new();
    let n = plugins.len();
    // Publish every provided descriptor first: the cycle-safe construction
    // contract, so a body built below can resolve any neighbour, later in
    // the list or itself.
    let mut i: usize = 0;
    while i < n
        invariant
            n == plugins@.len(),
            i <= n,
            set.next_handle <= FIRST_NODE_HANDLE + 2 * i,
            FIRST_NODE_HANDLE + 4 * plugins@.len() + 2 <= WeakHandle::MAX,
        decreases n - i,
    {
        let parsed = match &plugins[i].factory {
            PluginFactory::SimpleDispatcher(f) => f.parse(&plugins[i].name),
            PluginFactory::Trojan(f) => f.parse(&plugins[i].name),
        };
        let mut k: usize = 0;
        while k < parsed.provides.len()
            invariant
                parsed.provides@.len() <= 2,
                k <= parsed.provides@.len(),
                set.next_handle <= FIRST_NODE_HANDLE + 2 * i + k,
                FIRST_NODE_HANDLE + 4 * plugins@.len() + 2 <= WeakHandle::MAX,
                i < plugins@.len(),
            decreases parsed.provides@.len() - k,
        {
            let d = &parsed.provides[k];
            set.publish_or_claim(d.ap_type, d.descriptor.clone());
            k = k + 1;
        }
        i = i + 1;
    }
    // Now run every body: resolve requirements, wire sentinels on failure,
    // install the strong references.
    let mut i: usize = 0;
    while i < n
        invariant
            n == plugins@.len(),
            i <= n,
            set.next_handle <= FIRST_NODE_HANDLE + 2 * plugins@.len() + 2 * i,
            FIRST_NODE_HANDLE + 4 * plugins@.len() + 2 <= WeakHandle::MAX,
            forall|j: int|
                0 <= j < i ==> plugin_requires_settled(set, (#[trigger] plugins@[j]).factory),
        decreases n - i,
    {
        let ghost prev_set = set;
        match &plugins[i].factory {
            PluginFactory::SimpleDispatcher(f) => {
                let _ = f.load(&plugins[i].name, &mut set);
                proof {
                    assert(plugin_requires_settled(set, plugins@[i as int].factory));
                }
            },
            PluginFactory::Trojan(f) => {
                let _ = f.load(&plugins[i].name, &mut set);
                proof {
                    assert(plugin_requires_settled(set, plugins@[i as int].factory));
                }
            },
        }
        proof {
            assert forall|j: int|
                0 <= j < i implies plugin_requires_settled(
                set,
                (#[trigger] plugins@[j]).factory,
            ) by {
                let f = plugins@[j].factory;
                assert forall|k: int|
                    0 <= k < factory_requires(f).len() implies set.provides(
                    (#[trigger] factory_requires(f)[k]).0,
                    factory_requires(f)[k].1,
                ) || set.has_error_for(factory_requires(f)[k].0) by {
                    if !set.provides(factory_requires(f)[k].0, factory_requires(f)[k].1)
                        && prev_set.has_error_for(factory_requires(f)[k].0) {
                        lemma_errors_extend_has(
                            prev_set.errors@,
                            set.errors@,
                            factory_requires(f)[k].0,
                        );
                    }
                }
            }
        }
        i = i + 1;
    }
    set
}

} // verus!
