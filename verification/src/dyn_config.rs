//! The dynamic-outbound configuration records, version 1: a proxy is a set
//! of plugin records plus its entry descriptor names. Decoding these
//! records from their serialized form is an outside concern; here they are
//! plain values, and the conversion into the engine's own plugin record is
//! specified exactly.

use vstd::prelude::*;

use crate::registry::ConfigPlugin;

verus! {

/// One plugin record as carried by a serialized proxy: name, factory kind
/// tag, version, and the opaque parameter bytes its factory decodes.
pub struct Plugin {
    pub name: String,
    pub plugin: String,
    pub plugin_version: u16,
    pub param: Vec<u8>,
}

/// A serialized proxy: its TCP entry descriptor, optional UDP entry, and
/// the plugin records that make up its graph.
pub struct Proxy {
    pub tcp_entry: String,
    pub udp_entry: Option<String>,
    pub plugins: Vec<Plugin>,
}

impl From<Plugin> for ConfigPlugin {
    /// A proxy's plugin record becomes an engine plugin record with no
    /// stored id; every other field carries over unchanged.
    fn from(plugin: Plugin) -> (r: ConfigPlugin) {
        ConfigPlugin {
            id: None,
            name: plugin.name,
            plugin: plugin.plugin,
            plugin_version: plugin.plugin_version,
            param: plugin.param,
        }
    }
}

impl vstd::std_specs::convert::FromSpecImpl<Plugin> for ConfigPlugin {
    open spec fn obeys_from_spec() -> bool {
        true
    }

    open spec fn from_spec(plugin: Plugin) -> Self {
        ConfigPlugin {
            id: None,
            name: plugin.name,
            plugin: plugin.plugin,
            plugin_version: plugin.plugin_version,
            param: plugin.param,
        }
    }
}

} // verus!
