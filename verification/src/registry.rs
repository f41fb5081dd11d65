//! The plugin registry: type-indexed mappings from descriptor name to weak
//! handle, built during a single load phase.
//!
//! Handles are modelled as integers. A node's weak handle is published into
//! the registry before its body is built, so a neighbour constructed during
//! the body — or the node itself, through a cycle — can resolve it. Strong
//! ownership lives solely in `fully_constructed`; a weak handle upgrades
//! only while its strong counterpart is there.

use vstd::prelude::*;

verus! {

/// A weak handle to a plugin node.
pub type WeakHandle = u64;

/// The handle every failed stream/datagram-handler resolution degrades to:
/// a reject handler that closes on connection.
pub const REJECT_HANDLE: WeakHandle = 0;

/// The handle every failed outbound-factory resolution degrades to: a null
/// factory whose creations immediately fail.
pub const NULL_FACTORY_HANDLE: WeakHandle = 1;

/// The first handle given to a real plugin node.
pub const FIRST_NODE_HANDLE: WeakHandle = 2;

/// The type of an access point in the plugin graph.
#[derive(Clone, Copy, PartialEq, Eq, Structural, Debug)]
pub enum AccessPointType {
    StreamHandler,
    DatagramSessionHandler,
    StreamOutboundFactory,
    DatagramSessionFactory,
}

/// A named, typed reference to an access point.
pub struct Descriptor {
    pub descriptor: String,
    pub ap_type: AccessPointType,
}

/// What a factory's parse yields besides the factory itself: the
/// descriptors the plugin requires and the ones it provides.
pub struct ParsedPlugin {
    pub requires: Vec<Descriptor>,
    pub provides: Vec<Descriptor>,
}

/// The engine's own plugin record: a named configuration entry whose
/// `param` bytes are decoded by the factory selected by `plugin`.
pub struct ConfigPlugin {
    pub id: Option<u32>,
    pub name: String,
    pub plugin: String,
    pub plugin_version: u16,
    pub param: Vec<u8>,
}

/// A problem found while wiring the graph. Wiring problems are collected,
/// not fatal: the affected edge degrades to a sentinel.
pub enum ConfigError {
    /// The plugin's parameters could not be decoded.
    ParseParam(String),
    /// A required descriptor name is registered nowhere.
    UnresolvedDescriptor(String),
    /// A required descriptor name is registered, but at a different type.
    TypeMismatch(String),
}

/// The descriptor name a wiring error is about.
pub open spec fn error_names(e: ConfigError) -> Seq<char> {
    match e {
        ConfigError::ParseParam(n) => n@,
        ConfigError::UnresolvedDescriptor(n) => n@,
        ConfigError::TypeMismatch(n) => n@,
    }
}

/// An error about this descriptor name is in the list.
pub open spec fn errors_has(errs: Seq<ConfigError>, name: Seq<char>) -> bool {
    exists|j: int| 0 <= j < errs.len() && error_names(errs[j]) == name
}

/// `e2` extends `e1`: the recorded errors are never dropped or rewritten,
/// only appended to.
pub open spec fn errors_extend(e1: Seq<ConfigError>, e2: Seq<ConfigError>) -> bool {
    e1.len() <= e2.len() && forall|j: int| 0 <= j < e1.len() ==> e2[j] == e1[j]
}

/// Extension keeps every recorded error name on record.
pub proof fn lemma_errors_extend_has(e1: Seq<ConfigError>, e2: Seq<ConfigError>, name: Seq<char>)
    requires
        errors_extend(e1, e2),
        errors_has(e1, name),
    ensures
        errors_has(e2, name),
{
    let j = choose|j: int| 0 <= j < e1.len() && error_names(e1[j]) == name;
    assert(error_names(e2[j]) == name);
}

/// One published access point.
pub struct ApEntry {
    pub name: String,
    pub handle: WeakHandle,
}

/// Look a name up in a published list; a later entry overrides an earlier
/// one of the same name.
pub open spec fn spec_lookup(s: Seq<ApEntry>, name: Seq<char>) -> Option<WeakHandle>
    decreases s.len(),
{
    if s.len() == 0 {
        None
    } else if s.last().name@ == name {
        Some(s.last().handle)
    } else {
        spec_lookup(s.drop_last(), name)
    }
}

/// One type-indexed mapping from descriptor name to weak handle.
pub struct ApMap {
    pub entries: Vec<ApEntry>,
}

impl ApMap {
    pub fn new() -> (m: ApMap)
        ensures
            m.entries@ == Seq::<ApEntry>::empty(),
    {
        ApMap { entries: Vec::new() }
    }

    /// Resolve a descriptor name to the most recently published handle.
    pub fn get(&self, name: &String) -> (r: Option<WeakHandle>)
        ensures
            r == spec_lookup(self.entries@, name@),
    {
        let mut i: usize = self.entries.len();
        assert(self.entries@.take(i as int) =~= self.entries@);
        while i > 0
            invariant
                i <= self.entries@.len(),
                spec_lookup(self.entries@, name@) == spec_lookup(
                    self.entries@.take(i as int),
                    name@,
                ),
            decreases i,
        {
            i = i - 1;
            assert(self.entries@.take(i + 1).drop_last() =~= self.entries@.take(i as int));
            assert(self.entries@.take(i + 1).last() == self.entries@[i as int]);
            if self.entries[i].name.eq(name) {
                return Some(self.entries[i].handle);
            }
        }
        assert(self.entries@.take(0) =~= Seq::<ApEntry>::empty());
        None
    }

    /// Publish a weak handle under a descriptor name.
    pub fn publish(&mut self, name: String, handle: WeakHandle)
        ensures
            final(self).entries@ == old(self).entries@.push(
                ApEntry { name: name, handle: handle },
            ),
            spec_lookup(final(self).entries@, name@) == Some(handle),
            forall|n: Seq<char>|
                n != name@ ==> spec_lookup(final(self).entries@, n) == spec_lookup(
                    old(self).entries@,
                    n,
                ),
    {
        let ghost name_view = name@;
        self.entries.push(ApEntry { name, handle });
        proof {
            assert(self.entries@.drop_last() =~= old(self).entries@);
        }
    }
}

/// The transient build-time plugin set: four typed maps of weak handles,
/// the strong store, and the accumulated wiring errors.
pub struct PartialPluginSet {
    pub stream_handlers: ApMap,
    pub datagram_handlers: ApMap,
    pub stream_outbounds: ApMap,
    pub datagram_outbounds: ApMap,
    pub fully_constructed: Vec<WeakHandle>,
    pub errors: Vec<ConfigError>,
    pub next_handle: WeakHandle,
}

impl PartialPluginSet {
    /// The map that publishes access points of the given type.
    pub open spec fn spec_map_of(self, t: AccessPointType) -> Seq<ApEntry> {
        match t {
            AccessPointType::StreamHandler => self.stream_handlers.entries@,
            AccessPointType::DatagramSessionHandler => self.datagram_handlers.entries@,
            AccessPointType::StreamOutboundFactory => self.stream_outbounds.entries@,
            AccessPointType::DatagramSessionFactory => self.datagram_outbounds.entries@,
        }
    }

    /// A descriptor is provided when its name resolves in the map of its
    /// type.
    pub open spec fn provides(self, name: Seq<char>, t: AccessPointType) -> bool {
        spec_lookup(self.spec_map_of(t), name) is Some
    }

    /// An error about this descriptor name is on record.
    pub open spec fn has_error_for(self, name: Seq<char>) -> bool {
        errors_has(self.errors@, name)
    }

    /// Every required descriptor is either provided at its type or covered
    /// by a recorded wiring error.
    pub open spec fn requires_settled(self, reqs: Seq<Descriptor>) -> bool {
        forall|i: int|
            0 <= i < reqs.len() ==> self.provides(
                #[trigger] reqs[i].descriptor@,
                reqs[i].ap_type,
            ) || self.has_error_for(reqs[i].descriptor@)
    }

    pub fn new() -> (s: PartialPluginSet)
        ensures
            s.stream_handlers.entries@ == Seq::<ApEntry>::empty(),
            s.datagram_handlers.entries@ == Seq::<ApEntry>::empty(),
            s.stream_outbounds.entries@ == Seq::<ApEntry>::empty(),
            s.datagram_outbounds.entries@ == Seq::<ApEntry>::empty(),
            s.fully_constructed@ == Seq::<WeakHandle>::empty(),
            s.errors@ == Seq::<ConfigError>::empty(),
            s.next_handle == FIRST_NODE_HANDLE,
    {
        PartialPluginSet {
            stream_handlers: ApMap::new(),
            datagram_handlers: ApMap::new(),
            stream_outbounds: ApMap::new(),
            datagram_outbounds: ApMap::new(),
            fully_constructed: Vec::new(),
            errors: Vec::new(),
            next_handle: FIRST_NODE_HANDLE,
        }
    }

    /// Whether a weak handle still upgrades: its strong counterpart must be
    /// in the `fully_constructed` store.
    pub fn upgrade(&self, handle: WeakHandle) -> (r: bool)
        ensures
            r == self.fully_constructed@.contains(handle),
    {
        let mut i: usize = 0;
        while i < self.fully_constructed.len()
            invariant
                i <= self.fully_constructed@.len(),
                forall|j: int| 0 <= j < i ==> self.fully_constructed@[j] != handle,
            decreases self.fully_constructed@.len() - i,
        {
            if self.fully_constructed[i] == handle {
                return true;
            }
            i = i + 1;
        }
        false
    }

    /// The descriptor name resolves somewhere, at any type.
    pub open spec fn provides_any(self, name: Seq<char>) -> bool {
        ||| self.provides(name, AccessPointType::StreamHandler)
        ||| self.provides(name, AccessPointType::DatagramSessionHandler)
        ||| self.provides(name, AccessPointType::StreamOutboundFactory)
        ||| self.provides(name, AccessPointType::DatagramSessionFactory)
    }

    /// Resolve a descriptor name at a type: the published weak handle, or
    /// `TypeMismatch` when the name is registered only at another type, or
    /// `UnresolvedDescriptor` when it is registered nowhere.
    pub fn resolve(&self, ap_type: AccessPointType, name: &String) -> (r: Result<
        WeakHandle,
        ConfigError,
    >)
        ensures
            self.provides(name@, ap_type) ==> r == Result::<WeakHandle, ConfigError>::Ok(
                spec_lookup(self.spec_map_of(ap_type), name@)->Some_0,
            ),
            !self.provides(name@, ap_type) && self.provides_any(name@) ==> (r matches Err(e)
                && e is TypeMismatch && error_names(e) == name@),
            !self.provides_any(name@) ==> (r matches Err(e) && e is UnresolvedDescriptor
                && error_names(e) == name@),
    {
        let map = match ap_type {
            AccessPointType::StreamHandler => &self.stream_handlers,
            AccessPointType::DatagramSessionHandler => &self.datagram_handlers,
            AccessPointType::StreamOutboundFactory => &self.stream_outbounds,
            AccessPointType::DatagramSessionFactory => &self.datagram_outbounds,
        };
        match map.get(name) {
            Some(h) => Ok(h),
            None => {
                let elsewhere = self.stream_handlers.get(name).is_some()
                    || self.datagram_handlers.get(name).is_some()
                    || self.stream_outbounds.get(name).is_some()
                    || self.datagram_outbounds.get(name).is_some();
                if elsewhere {
                    Err(ConfigError::TypeMismatch(name.clone()))
                } else {
                    Err(ConfigError::UnresolvedDescriptor(name.clone()))
                }
            },
        }
    }

    /// Resolve a required descriptor; on failure record the wiring error
    /// and degrade to the given sentinel handle.
    pub fn resolve_or_sentinel(
        &mut self,
        ap_type: AccessPointType,
        name: &String,
        sentinel: WeakHandle,
    ) -> (r: WeakHandle)
        ensures
            final(self).stream_handlers == old(self).stream_handlers,
            final(self).datagram_handlers == old(self).datagram_handlers,
            final(self).stream_outbounds == old(self).stream_outbounds,
            final(self).datagram_outbounds == old(self).datagram_outbounds,
            final(self).fully_constructed == old(self).fully_constructed,
            final(self).next_handle == old(self).next_handle,
            old(self).provides(name@, ap_type) ==> r == spec_lookup(
                old(self).spec_map_of(ap_type),
                name@,
            )->Some_0 && final(self).errors == old(self).errors,
            !old(self).provides(name@, ap_type) ==> {
                &&& r == sentinel
                &&& final(self).errors@.len() == old(self).errors@.len() + 1
                &&& error_names(final(self).errors@.last()) == name@
                &&& final(self).has_error_for(name@)
            },
            errors_extend(old(self).errors@, final(self).errors@),
    {
        let ghost olderrs = self.errors@;
        match self.resolve(ap_type, name) {
            Ok(h) => h,
            Err(e) => {
                self.errors.push(e);
                proof {
                    assert(error_names(self.errors@.last()) == name@);
                    assert(self.errors@[olderrs.len() as int] == self.errors@.last());
                }
                sentinel
            },
        }
    }

    /// Publish a fresh weak handle for a provided descriptor, or claim the
    /// handle already published under that name (the cycle-safe
    /// construction contract: a node's weak handle exists in the registry
    /// before its body is built).
    pub fn publish_or_claim(&mut self, ap_type: AccessPointType, name: String) -> (r: WeakHandle)
        requires
            old(self).next_handle < WeakHandle::MAX,
        ensures
            final(self).errors == old(self).errors,
            final(self).fully_constructed == old(self).fully_constructed,
            old(self).next_handle <= final(self).next_handle <= old(self).next_handle + 1,
            final(self).provides(name@, ap_type),
            spec_lookup(final(self).spec_map_of(ap_type), name@) == Some(r),
            !(ap_type is StreamHandler) ==> final(self).stream_handlers == old(
                self,
            ).stream_handlers,
            !(ap_type is DatagramSessionHandler) ==> final(self).datagram_handlers == old(
                self,
            ).datagram_handlers,
            !(ap_type is StreamOutboundFactory) ==> final(self).stream_outbounds == old(
                self,
            ).stream_outbounds,
            !(ap_type is DatagramSessionFactory) ==> final(self).datagram_outbounds == old(
                self,
            ).datagram_outbounds,
            forall|t: AccessPointType, n: Seq<char>|
                !(t == ap_type && n == name@) ==> spec_lookup(final(self).spec_map_of(t), n)
                    == spec_lookup(old(self).spec_map_of(t), n),
    {
        let existing = match ap_type {
            AccessPointType::StreamHandler => self.stream_handlers.get(&name),
            AccessPointType::DatagramSessionHandler => self.datagram_handlers.get(&name),
            AccessPointType::StreamOutboundFactory => self.stream_outbounds.get(&name),
            AccessPointType::DatagramSessionFactory => self.datagram_outbounds.get(&name),
        };
        match existing {
            Some(h) => h,
            None => {
                let h = self.next_handle;
                self.next_handle = self.next_handle + 1;
                match ap_type {
                    AccessPointType::StreamHandler => self.stream_handlers.publish(name, h),
                    AccessPointType::DatagramSessionHandler => self.datagram_handlers.publish(
                        name,
                        h,
                    ),
                    AccessPointType::StreamOutboundFactory => self.stream_outbounds.publish(
                        name,
                        h,
                    ),
                    AccessPointType::DatagramSessionFactory => self.datagram_outbounds.publish(
                        name,
                        h,
                    ),
                }
                h
            },
        }
    }

    /// Install the strong reference for a constructed node.
    pub fn install_strong(&mut self, handle: WeakHandle)
        ensures
            final(self).stream_handlers == old(self).stream_handlers,
            final(self).datagram_handlers == old(self).datagram_handlers,
            final(self).stream_outbounds == old(self).stream_outbounds,
            final(self).datagram_outbounds == old(self).datagram_outbounds,
            final(self).errors == old(self).errors,
            final(self).next_handle == old(self).next_handle,
            final(self).fully_constructed@ == old(self).fully_constructed@.push(handle),
            final(self).fully_constructed@.contains(handle),
    {
        self.fully_constructed.push(handle);
        proof {
            assert(self.fully_constructed@.last() == handle);
        }
    }

    /// Drop every strong reference: all weak handles now fail to upgrade
    /// and the surviving handlers no-op.
    pub fn release_all(&mut self)
        ensures
            final(self).fully_constructed@ == Seq::<WeakHandle>::empty(),
            final(self).stream_handlers == old(self).stream_handlers,
            final(self).datagram_handlers == old(self).datagram_handlers,
            final(self).stream_outbounds == old(self).stream_outbounds,
            final(self).datagram_outbounds == old(self).datagram_outbounds,
            final(self).errors == old(self).errors,
            final(self).next_handle == old(self).next_handle,
    {
        self.fully_constructed.clear();
    }
}

} // verus!
