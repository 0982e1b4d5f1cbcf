//! Routing policy.
//!
//! A pure allow/deny decision on `(host, port)`, consulted once per request
//! before any dial. Checks run in a fixed order: blocked host, blocked port,
//! allowed-port whitelist, then the default.

use vstd::prelude::*;

use crate::dispatcher::Request;

verus! {

/// Why a request was denied.
#[derive(Debug, Clone, Copy, PartialEq, Eq, Structural)]
pub enum DenyReason {
    /// The host is on the blocked list.
    HostBlocked,
    /// The port is on the blocked list.
    PortBlocked,
    /// A whitelist is configured and the port is not on it.
    PortNotAllowed,
    /// The policy denies by default.
    DefaultDeny,
}

impl DenyReason {
    /// The reason as text.
    pub fn message(&self) -> (r: &'static str)
        ensures
            r@ == self.spec_message(),
    {
        match self {
            DenyReason::HostBlocked => "Host is blocked",
            DenyReason::PortBlocked => "Port is blocked",
            DenyReason::PortNotAllowed => "Port not in allowed list",
            DenyReason::DefaultDeny => "Default deny policy",
        }
    }

    /// The text of each reason.
    pub open spec fn spec_message(&self) -> Seq<char> {
        match self {
            DenyReason::HostBlocked => "Host is blocked"@,
            DenyReason::PortBlocked => "Port is blocked"@,
            DenyReason::PortNotAllowed => "Port not in allowed list"@,
            DenyReason::DefaultDeny => "Default deny policy"@,
        }
    }
}

/// A routing decision.
#[derive(Debug, Clone)]
pub enum RouteDecision {
    /// Let the request proceed.
    Allow {
        /// An optional hint naming the egress to use.
        egress_hint: Option<String>,
    },
    /// Refuse the request.
    Deny {
        /// Why it was refused.
        reason: DenyReason,
    },
    /// The request ran into a rate limit.
    RateLimited,
}

/// Routing policy configuration.
#[derive(Debug, Clone)]
pub struct RoutingPolicy {
    /// Allow traffic that no rule catches.
    pub default_allow: bool,
    /// Hosts refused by exact match.
    pub blocked_hosts: Vec<String>,
    /// Ports refused outright.
    pub blocked_ports: Vec<u16>,
    /// When non-empty, the only ports allowed.
    pub allowed_ports: Vec<u16>,
}

/// Whether some entry of the list reads exactly like the host.
pub open spec fn spec_host_listed(list: Seq<String>, host: Seq<char>) -> bool {
    exists|i: int| 0 <= i < list.len() && #[trigger] list[i]@ == host
}

/// Whether the port is on the list.
pub open spec fn spec_port_listed(list: Seq<u16>, port: u16) -> bool {
    exists|i: int| 0 <= i < list.len() && #[trigger] list[i] == port
}

/// The decision the policy reaches for a host and port, in rule order:
/// blocked host, blocked port, whitelist, default.
pub open spec fn spec_decide(policy: &RoutingPolicy, host: Seq<char>, port: u16) -> RouteDecision {
    if spec_host_listed(policy.blocked_hosts@, host) {
        RouteDecision::Deny { reason: DenyReason::HostBlocked }
    } else if spec_port_listed(policy.blocked_ports@, port) {
        RouteDecision::Deny { reason: DenyReason::PortBlocked }
    } else if policy.allowed_ports@.len() > 0 && !spec_port_listed(policy.allowed_ports@, port) {
        RouteDecision::Deny { reason: DenyReason::PortNotAllowed }
    } else if policy.default_allow {
        RouteDecision::Allow { egress_hint: None }
    } else {
        RouteDecision::Deny { reason: DenyReason::DefaultDeny }
    }
}

/// Whether an entry of the list reads exactly like the host.
fn host_listed(list: &Vec<String>, host: &String) -> (r: bool)
    ensures
        r == spec_host_listed(list@, host@),
{
    let mut i: usize = 0;
    while i < list.len()
        invariant
            i <= list@.len(),
            forall|k: int| 0 <= k < i ==> #[trigger] list@[k]@ != host@,
        decreases list@.len() - i,
    {
        if list[i].eq(host) {
            return true;
        }
        i += 1;
    }
    false
}

/// Whether the port is on the list.
fn port_listed(list: &Vec<u16>, port: u16) -> (r: bool)
    ensures
        r == spec_port_listed(list@, port),
{
    let mut i: usize = 0;
    while i < list.len()
        invariant
            i <= list@.len(),
            forall|k: int| 0 <= k < i ==> #[trigger] list@[k] != port,
        decreases list@.len() - i,
    {
        if list[i] == port {
            return true;
        }
        i += 1;
    }
    false
}

impl RoutingPolicy {
    /// Make a routing decision for a request. The decision is a pure
    /// function of the policy and the request's host and port: the same
    /// inputs always give the same decision.
    pub fn decide(&self, request: &Request) -> (r: RouteDecision)
        ensures
            r == spec_decide(self, request.target_host@, request.target_port),
    {
        self.decide_host_port(&request.target_host, request.target_port)
    }

    /// Decide whether traffic to this host and port may proceed.
    pub fn decide_host_port(&self, host: &String, port: u16) -> (r: RouteDecision)
        ensures
            r == spec_decide(self, host@, port),
    {
        if host_listed(&self.blocked_hosts, host) {
            return RouteDecision::Deny { reason: DenyReason::HostBlocked };
        }
        if port_listed(&self.blocked_ports, port) {
            return RouteDecision::Deny { reason: DenyReason::PortBlocked };
        }
        if self.allowed_ports.len() > 0 && !port_listed(&self.allowed_ports, port) {
            return RouteDecision::Deny { reason: DenyReason::PortNotAllowed };
        }
        if self.default_allow {
            RouteDecision::Allow { egress_hint: None }
        } else {
            RouteDecision::Deny { reason: DenyReason::DefaultDeny }
        }
    }
}

impl Default for RoutingPolicy {
    /// Allow all traffic: nothing blocked, no whitelist, default allow.
    fn default() -> (r: Self)
        ensures
            r.default_allow == true,
            r.blocked_hosts@.len() == 0,
            r.blocked_ports@.len() == 0,
            r.allowed_ports@.len() == 0,
    {
        RoutingPolicy {
            default_allow: true,
            blocked_hosts: Vec::new(),
            blocked_ports: Vec::new(),
            allowed_ports: Vec::new(),
        }
    }
}

} // verus!
