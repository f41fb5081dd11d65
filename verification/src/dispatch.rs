//! The simple dispatcher at run time: scan rules in input order, first
//! match wins, otherwise the fallback handler.

use vstd::prelude::*;

use crate::flow::{DestinationAddr, FlowContext, HostName, IpAddress, SocketAddress};
use crate::registry::WeakHandle;

verus! {

/// A predicate over a peer's attributes.
#[derive(Clone, Copy, PartialEq, Eq, Structural, Debug)]
pub enum Condition {
    /// Matches every peer.
    Any,
    /// Matches no peer.
    Never,
    /// Matches a port in the inclusive range.
    PortBetween(u16, u16),
    /// Matches an IPv4 peer (a destination still carrying a domain name
    /// does not match).
    IsV4,
    /// Matches an IPv6 peer.
    IsV6,
}

/// Whether a condition holds of a concrete socket address.
pub open spec fn spec_cond_socket(c: Condition, sa: SocketAddress) -> bool {
    match c {
        Condition::Any => true,
        Condition::Never => false,
        Condition::PortBetween(lo, hi) => lo <= sa.port <= hi,
        Condition::IsV4 => sa.ip is V4,
        Condition::IsV6 => sa.ip is V6,
    }
}

/// Whether a condition holds of a destination address.
pub open spec fn spec_cond_dest(c: Condition, d: DestinationAddr) -> bool {
    match c {
        Condition::Any => true,
        Condition::Never => false,
        Condition::PortBetween(lo, hi) => lo <= d.port <= hi,
        Condition::IsV4 => d.host matches HostName::Ip(IpAddress::V4(_)),
        Condition::IsV6 => d.host matches HostName::Ip(IpAddress::V6(_)),
    }
}

impl Condition {
    /// Evaluate this condition on a concrete socket address.
    pub fn matches_socket(&self, sa: &SocketAddress) -> (r: bool)
        ensures
            r == spec_cond_socket(*self, *sa),
    {
        match self {
            Condition::Any => true,
            Condition::Never => false,
            Condition::PortBetween(lo, hi) => *lo <= sa.port && sa.port <= *hi,
            Condition::IsV4 => matches!(sa.ip, IpAddress::V4(_)),
            Condition::IsV6 => matches!(sa.ip, IpAddress::V6(_)),
        }
    }

    /// Evaluate this condition on a destination address.
    pub fn matches_dest(&self, d: &DestinationAddr) -> (r: bool)
        ensures
            r == spec_cond_dest(*self, *d),
    {
        match self {
            Condition::Any => true,
            Condition::Never => false,
            Condition::PortBetween(lo, hi) => *lo <= d.port && d.port <= *hi,
            Condition::IsV4 => matches!(&d.host, HostName::Ip(IpAddress::V4(_))),
            Condition::IsV6 => matches!(&d.host, HostName::Ip(IpAddress::V6(_))),
        }
    }
}

/// One wired rule: both conditions must hold of the flow's peers for the
/// rule's next handler to win.
#[derive(Clone, Copy, PartialEq, Eq, Structural, Debug)]
pub struct DispatchRule {
    pub src_cond: Condition,
    pub dst_cond: Condition,
    pub next: WeakHandle,
}

/// Whether a rule matches a flow's local and remote peers.
pub open spec fn spec_rule_matches(r: DispatchRule, ctx: FlowContext) -> bool {
    spec_cond_socket(r.src_cond, ctx.local_peer) && spec_cond_dest(r.dst_cond, ctx.remote_peer)
}

/// The handler a rule scan picks: the first matching rule's next handler,
/// or the fallback when none of `rules[i..]` matches.
pub open spec fn spec_dispatch(
    rules: Seq<DispatchRule>,
    i: int,
    ctx: FlowContext,
    fallback: WeakHandle,
) -> WeakHandle
    decreases rules.len() - i,
    when 0 <= i
{
    if i >= rules.len() {
        fallback
    } else if spec_rule_matches(rules[i], ctx) {
        rules[i].next
    } else {
        spec_dispatch(rules, i + 1, ctx, fallback)
    }
}

/// Scan rules in input order; the first rule whose conditions both hold
/// wins; ties are resolved by position and no rule is re-ordered.
fn dispatch_rules(rules: &Vec<DispatchRule>, ctx: &FlowContext, fallback: WeakHandle) -> (r:
    WeakHandle)
    ensures
        r == spec_dispatch(rules@, 0, *ctx, fallback),
{
    let mut i: usize = 0;
    while i < rules.len()
        invariant
            i <= rules@.len(),
            spec_dispatch(rules@, 0, *ctx, fallback) == spec_dispatch(
                rules@,
                i as int,
                *ctx,
                fallback,
            ),
        decreases rules@.len() - i,
    {
        let rule = &rules[i];
        if rule.src_cond.matches_socket(&ctx.local_peer) && rule.dst_cond.matches_dest(
            &ctx.remote_peer,
        ) {
            return rule.next;
        }
        i = i + 1;
    }
    fallback
}

/// The earlier of two matching rules is chosen: when `rules[i]` matches
/// and no rule before it does, the scan picks exactly `rules[i].next`.
pub proof fn lemma_rule_ordering(
    rules: Seq<DispatchRule>,
    i: int,
    ctx: FlowContext,
    fallback: WeakHandle,
)
    requires
        0 <= i < rules.len(),
        spec_rule_matches(rules[i], ctx),
        forall|k: int| 0 <= k < i ==> !spec_rule_matches(#[trigger] rules[k], ctx),
    ensures
        spec_dispatch(rules, 0, ctx, fallback) == rules[i].next,
    decreases i,
{
    lemma_dispatch_skips_nonmatching(rules, 0, i, ctx, fallback);
}

/// Helper: the scan outcome from `j` equals the outcome from `i` when no
/// rule in `[j, i)` matches.
proof fn lemma_dispatch_skips_nonmatching(
    rules: Seq<DispatchRule>,
    j: int,
    i: int,
    ctx: FlowContext,
    fallback: WeakHandle,
)
    requires
        0 <= j <= i <= rules.len(),
        forall|k: int| j <= k < i ==> !spec_rule_matches(#[trigger] rules[k], ctx),
    ensures
        spec_dispatch(rules, j, ctx, fallback) == spec_dispatch(rules, i, ctx, fallback),
    decreases i - j,
{
    if j < i {
        lemma_dispatch_skips_nonmatching(rules, j + 1, i, ctx, fallback);
    }
}

/// With no rules at all, every flow goes to the fallback.
pub proof fn lemma_empty_rules_fall_back(
    rules: Seq<DispatchRule>,
    ctx: FlowContext,
    fallback: WeakHandle,
)
    requires
        rules.len() == 0,
    ensures
        spec_dispatch(rules, 0, ctx, fallback) == fallback,
{
}

/// The stream side of a simple dispatcher node.
pub struct SimpleStreamDispatcher {
    pub rules: Vec<DispatchRule>,
    pub fallback: WeakHandle,
}

impl SimpleStreamDispatcher {
    /// Route one inbound stream: first matching rule's handler, else the
    /// fallback.
    pub fn dispatch(&self, ctx: &FlowContext) -> (r: WeakHandle)
        ensures
            r == spec_dispatch(self.rules@, 0, *ctx, self.fallback),
    {
        dispatch_rules(&self.rules, ctx, self.fallback)
    }
}

/// The datagram side of a simple dispatcher node.
pub struct SimpleDatagramDispatcher {
    pub rules: Vec<DispatchRule>,
    pub fallback: WeakHandle,
}

impl SimpleDatagramDispatcher {
    /// Route one inbound datagram session: first matching rule's handler,
    /// else the fallback.
    pub fn dispatch(&self, ctx: &FlowContext) -> (r: WeakHandle)
        ensures
            r == spec_dispatch(self.rules@, 0, *ctx, self.fallback),
    {
        dispatch_rules(&self.rules, ctx, self.fallback)
    }
}

} // verus!
