//! Supervision of the two agents of a session, and the devices that the terminal interface lists.
use vstd::prelude::*;
use vstd::string::*;

use crate::discovery::{latency, listed_name, measured_latency_ms};
use crate::domain::{
    choose_address, law_the_preferred_address_is_one_of_them, preferred_address, ConnectionKind, IpAddr,
    MeshPeer, MeshPeerView, NodeCapabilities, RemoteCommand, SessionGrant, WindowSelector,
};
use crate::ids::is_random_uuid;
use crate::order::{is_before, lemma_text_order, stable_sort, stably_sorted, strict_weak_order, text_before};
use crate::ports::{outcome, port_error, PortError, PortErrorView, PortResult};
use crate::protocol::{CommandRequest, HealthResponse, NodeInfoResponse, PROTOCOL_V1};
use crate::strings::{opt_text, texts};

verus! {

pub const MOONLIGHT_WINDOW_CLASS: &'static str = "com.moonlight_stream.Moonlight";

pub const STREAM_WINDOW_LOOKUP_ATTEMPTS: u32 = 20;

pub const STREAM_WINDOW_LOOKUP_INTERVAL_MILLIS: u64 = 250;

pub const AGENT_HEALTH_INTERVAL_SECONDS: u64 = 3;

pub const AGENT_HEALTH_FAILURE_LIMIT: u8 = 2;

pub const MIN_RENEWAL_INTERVAL_SECONDS: u64 = 2;

/// Whether an agent could be reached and which of the two, if one has failed too often.
pub open spec fn health_failure(local_failures: u8, remote_failures: u8, limit: u8) -> Option<
    PortErrorView,
> {
    if local_failures >= limit {
        Some(
            port_error(
                "LOCAL_AGENT_UNAVAILABLE"@,
                "the local omdesky-agent stopped responding"@,
                true,
            ),
        )
    } else if remote_failures >= limit {
        Some(
            port_error(
                "REMOTE_AGENT_UNAVAILABLE"@,
                "the remote omdesky-agent stopped responding"@,
                true,
            ),
        )
    } else {
        None
    }
}

pub open spec fn opt_failure(error: Option<PortError>) -> Option<PortErrorView> {
    match error {
        Some(error) => Some(error@),
        None => None,
    }
}

pub fn agent_health_failure(local_failures: u8, remote_failures: u8, failure_limit: u8) -> (r: Option<
    PortError,
>)
    ensures
        opt_failure(r) == health_failure(local_failures, remote_failures, failure_limit),
{
    if local_failures >= failure_limit {
        Some(
            PortError::plain(
                "LOCAL_AGENT_UNAVAILABLE",
                "the local omdesky-agent stopped responding",
                true,
            ),
        )
    } else if remote_failures >= failure_limit {
        Some(
            PortError::plain(
                "REMOTE_AGENT_UNAVAILABLE",
                "the remote omdesky-agent stopped responding",
                true,
            ),
        )
    } else {
        None
    }
}

/// One failure to answer, or none.
pub open spec fn failures(answered: bool) -> u8 {
    if answered {
        0
    } else {
        1
    }
}

/// Before a stream starts both agents must answer.
pub fn verify_agents(local_answered: bool, remote_answered: bool) -> (r: PortResult<()>)
    ensures
        outcome(r) == (match health_failure(failures(local_answered), failures(remote_answered), 1) {
            Some(error) => Err::<(), PortErrorView>(error),
            None => Ok(()),
        }),
{
    let local: u8 = if local_answered {
        0
    } else {
        1
    };
    let remote: u8 = if remote_answered {
        0
    } else {
        1
    };
    match agent_health_failure(local, remote, 1) {
        Some(error) => Err(error),
        None => Ok(()),
    }
}

/// How often in a row each agent has failed to answer.
#[derive(Clone, Copy, Debug, PartialEq, Eq, Structural)]
pub struct AgentMonitor {
    pub local_failures: u8,
    pub remote_failures: u8,
}

/// The failures in a row after one more question.
pub open spec fn counted(before: u8, answered: bool) -> u8 {
    if answered {
        0
    } else if before < u8::MAX {
        (before + 1) as u8
    } else {
        before
    }
}

impl AgentMonitor {
    pub fn new() -> (r: Self)
        ensures
            r == (AgentMonitor { local_failures: 0, remote_failures: 0 }),
    {
        AgentMonitor { local_failures: 0, remote_failures: 0 }
    }

    /// Takes in whether each agent answered. The error is the reason to end the session.
    pub fn monitor_agents(&mut self, local_answered: bool, remote_answered: bool) -> (r: Option<PortError>)
        ensures
            final(self).local_failures == counted(old(self).local_failures, local_answered),
            final(self).remote_failures == counted(old(self).remote_failures, remote_answered),
            opt_failure(r) == health_failure(
                final(self).local_failures,
                final(self).remote_failures,
                AGENT_HEALTH_FAILURE_LIMIT,
            ),
    {
        self.local_failures =
        if local_answered {
            0
        } else if self.local_failures < u8::MAX {
            self.local_failures + 1
        } else {
            self.local_failures
        };
        self.remote_failures =
        if remote_answered {
            0
        } else if self.remote_failures < u8::MAX {
            self.remote_failures + 1
        } else {
            self.remote_failures
        };
        agent_health_failure(self.local_failures, self.remote_failures, AGENT_HEALTH_FAILURE_LIMIT)
    }
}

/// One question without an answer does not end a session; two in a row do.
pub proof fn law_one_missed_answer_is_tolerated(remote_answered: bool)
    ensures
        health_failure(counted(0, false), counted(0, remote_answered), AGENT_HEALTH_FAILURE_LIMIT) is None,
        health_failure(
            counted(counted(0, false), false),
            counted(0, remote_answered),
            AGENT_HEALTH_FAILURE_LIMIT,
        ) is Some,
        health_failure(
            counted(counted(0, false), true),
            counted(0, remote_answered),
            AGENT_HEALTH_FAILURE_LIMIT,
        ) is None,
{
}

/// What ended the watch over a stream: the process ended by itself, or an agent was lost.
#[derive(Debug, PartialEq, Eq)]
pub enum Watched {
    Exited(PortResult<i32>),
    Unhealthy(PortError),
}

/// How a stream ends: whether its process is to be terminated, whatever comes of that, and the
/// result then.
#[derive(Debug, PartialEq, Eq)]
pub struct StreamEnd {
    pub terminate: bool,
    pub result: PortResult<i32>,
}

/// Ends a stream by whichever came first, the end of its process or the loss of an agent. Only a
/// process that still runs is terminated, and then the loss is the result.
pub fn wait_for_process_or_monitor(watched: Watched) -> (r: StreamEnd)
    ensures
        r == (match watched {
            Watched::Exited(exit) => StreamEnd { terminate: false, result: exit },
            Watched::Unhealthy(error) => StreamEnd { terminate: true, result: Err(error) },
        }),
{
    match watched {
        Watched::Exited(exit) => StreamEnd { terminate: false, result: exit },
        Watched::Unhealthy(error) => StreamEnd { terminate: true, result: Err(error) },
    }
}

/// The seconds between two renewals of a lease: a third of it, but at least the minimum.
pub open spec fn spec_renewal_interval(lease_seconds: u64) -> int {
    let third = (if lease_seconds < 1 { 1int } else { lease_seconds as int }) / 3;
    if third < MIN_RENEWAL_INTERVAL_SECONDS {
        MIN_RENEWAL_INTERVAL_SECONDS as int
    } else {
        third
    }
}

pub fn renewal_interval(lease_seconds: u64) -> (r: u64)
    ensures
        r == spec_renewal_interval(lease_seconds),
{
    let lease: u64 = if lease_seconds < 1 {
        1
    } else {
        lease_seconds
    };
    let third: u64 = lease / 3;
    if third < MIN_RENEWAL_INTERVAL_SECONDS {
        MIN_RENEWAL_INTERVAL_SECONDS
    } else {
        third
    }
}

/// A lease of at least three seconds is renewed before it runs out; one of at least six is
/// renewed twice within it.
pub proof fn law_leases_are_renewed_in_time(lease_seconds: u64)
    ensures
        lease_seconds >= 3 ==> spec_renewal_interval(lease_seconds) < lease_seconds,
        lease_seconds >= 6 ==> 2 * spec_renewal_interval(lease_seconds) < lease_seconds,
{
}

/// The request that renews a session.
pub fn renewal_request(grant: &SessionGrant) -> (r: CommandRequest)
    ensures
        r.command is RenewSession,
        r.session == Some(grant.spec_claim()),
        r.request_id matches Some(id) && is_random_uuid(id),
        r.issued_at is Some,
{
    CommandRequest::for_session(RemoteCommand::RenewSession, grant.claim())
}

/// Whether this computer can be a controller, from whether its own agent answered.
pub fn ensure_controller_ready(local_agent: PortResult<()>, sunshine_configured: bool) -> (r: PortResult<()>)
    ensures
        outcome(r) == (match local_agent {
            Err(error) => if error@.code == "VERSION_INCOMPATIBLE"@ {
                Err::<(), PortErrorView>(
                    port_error("LOCAL_AGENT_INCOMPATIBLE"@, error@.message, false),
                )
            } else {
                Err(
                    port_error(
                        "LOCAL_AGENT_UNAVAILABLE"@,
                        "the local omdesky-agent is not running"@,
                        true,
                    ),
                )
            },
            Ok(()) => if sunshine_configured {
                Ok(())
            } else {
                Err(
                    port_error(
                        "LOCAL_SUNSHINE_UNCONFIGURED"@,
                        "Sunshine credentials are not configured on this controller"@,
                        false,
                    ),
                )
            },
        }),
{
    match local_agent {
        Ok(()) => {},
        Err(error) => {
            if error.has_code("VERSION_INCOMPATIBLE") {
                return Err(PortError::new("LOCAL_AGENT_INCOMPATIBLE", error.message, false));
            }
            return Err(
                PortError::plain(
                    "LOCAL_AGENT_UNAVAILABLE",
                    "the local omdesky-agent is not running",
                    true,
                ),
            );
        },
    }
    if !sunshine_configured {
        return Err(
            PortError::plain(
                "LOCAL_SUNSHINE_UNCONFIGURED",
                "Sunshine credentials are not configured on this controller",
                false,
            ),
        );
    }
    Ok(())
}

/// The window of the stream where it could not be found by its process.
pub fn fallback_window() -> (r: WindowSelector)
    ensures
        r matches WindowSelector::Class(class) && class@ == MOONLIGHT_WINDOW_CLASS@,
{
    WindowSelector::Class(MOONLIGHT_WINDOW_CLASS.to_owned())
}

/// A search for the stream's window, which may take a while to appear.
#[derive(Clone, Copy, Debug, PartialEq, Eq, Structural)]
pub struct WindowSearch {
    pub attempts: u32,
}

impl WindowSearch {
    pub fn new() -> (r: Self)
        ensures
            r.attempts == 0,
    {
        WindowSearch { attempts: 0 }
    }

    /// Takes in one lookup. `None` means to wait and look again; a failed lookup, or the last one
    /// without a window, settles on the class of Moonlight's windows.
    pub fn locate_stream_window(&mut self, lookup: PortResult<Option<WindowSelector>>) -> (r: Option<
        WindowSelector,
    >)
        ensures
            final(self).attempts == (if old(self).attempts < STREAM_WINDOW_LOOKUP_ATTEMPTS {
                old(self).attempts + 1
            } else {
                old(self).attempts as int
            }),
            match lookup {
                Ok(Some(window)) => r == Some(window),
                Err(_) => r matches Some(WindowSelector::Class(class)) && class@
                    == MOONLIGHT_WINDOW_CLASS@,
                Ok(None) => if final(self).attempts >= STREAM_WINDOW_LOOKUP_ATTEMPTS {
                    r matches Some(WindowSelector::Class(class)) && class@ == MOONLIGHT_WINDOW_CLASS@
                } else {
                    r is None
                },
            },
    {
        if self.attempts < STREAM_WINDOW_LOOKUP_ATTEMPTS {
            self.attempts = self.attempts + 1;
        }
        match lookup {
            Ok(Some(window)) => Some(window),
            Err(_) => Some(fallback_window()),
            Ok(None) => {
                if self.attempts >= STREAM_WINDOW_LOOKUP_ATTEMPTS {
                    Some(fallback_window())
                } else {
                    None
                }
            },
        }
    }
}

/// Whether a listed device can be connected to.
#[derive(Clone, Copy, Debug, PartialEq, Eq, Structural)]
pub enum DeviceStatus {
    Ready,
    Offline,
    AgentUnknown,
    Incompatible,
}

/// A device as the terminal interface lists it.
#[derive(Debug, PartialEq, Eq)]
pub struct DiscoveredNode {
    pub tailnet_node_id: String,
    pub name: String,
    pub address: IpAddr,
    pub status: DeviceStatus,
    pub connection: ConnectionKind,
    pub latency_ms: Option<u32>,
    pub agent_version: Option<String>,
    pub omarchy_version: Option<String>,
    pub capabilities: NodeCapabilities,
    pub is_local: bool,
}

pub struct DeviceView {
    pub tailnet_node_id: Seq<char>,
    pub name: Seq<char>,
    pub address: IpAddr,
    pub status: DeviceStatus,
    pub connection: ConnectionKind,
    pub latency_ms: Option<u32>,
    pub agent_version: Option<Seq<char>>,
    pub omarchy_version: Option<Seq<char>>,
    pub capabilities: Seq<Seq<char>>,
    pub is_local: bool,
}

impl View for DiscoveredNode {
    type V = DeviceView;

    open spec fn view(&self) -> DeviceView {
        DeviceView {
            tailnet_node_id: self.tailnet_node_id@,
            name: self.name@,
            address: self.address,
            status: self.status,
            connection: self.connection,
            latency_ms: self.latency_ms,
            agent_version: opt_text(self.agent_version),
            omarchy_version: opt_text(self.omarchy_version),
            capabilities: self.capabilities@,
            is_local: self.is_local,
        }
    }
}

impl Clone for DiscoveredNode {
    fn clone(&self) -> (r: Self)
        ensures
            r@ == self@,
    {
        DiscoveredNode {
            tailnet_node_id: self.tailnet_node_id.clone(),
            name: self.name.clone(),
            address: self.address,
            status: self.status,
            connection: self.connection,
            latency_ms: self.latency_ms,
            agent_version: crate::domain::clone_optional(&self.agent_version),
            omarchy_version: crate::domain::clone_optional(&self.omarchy_version),
            capabilities: self.capabilities.clone(),
            is_local: self.is_local,
        }
    }
}

/// A device of which only the tailnet tells.
pub open spec fn generic_device(
    peer: MeshPeerView,
    name: Seq<char>,
    address: IpAddr,
    status: DeviceStatus,
    is_local: bool,
) -> DeviceView {
    DeviceView {
        tailnet_node_id: peer.tailnet_node_id,
        name,
        address,
        status,
        connection: peer.connection,
        latency_ms: peer.latency_ms,
        agent_version: None,
        omarchy_version: None,
        capabilities: Seq::empty(),
        is_local,
    }
}

pub fn generic_node(
    peer: MeshPeer,
    name: String,
    address: IpAddr,
    status: DeviceStatus,
    is_local: bool,
) -> (r: DiscoveredNode)
    ensures
        r@ == generic_device(peer@, name@, address, status, is_local),
{
    DiscoveredNode {
        tailnet_node_id: peer.tailnet_node_id,
        name,
        address,
        status,
        connection: peer.connection,
        latency_ms: peer.latency_ms,
        agent_version: None,
        omarchy_version: None,
        capabilities: NodeCapabilities::default(),
        is_local,
    }
}

/// The next step of the probe of a device.
#[derive(Debug, PartialEq, Eq)]
pub enum DeviceStep {
    /// The device is not listed.
    Skip,
    /// The device is listed like this.
    Done(DiscoveredNode),
    /// The agent at the device's address is to be asked.
    Ask(DiscoveredNode),
}

/// The first step: only a machine with an address is listed, one that is offline only where all
/// are wanted.
pub fn probe_device(peer: MeshPeer, include_all: bool, is_local: bool) -> (r: DeviceStep)
    ensures
        match preferred_address(peer.ips@) {
            None => r is Skip,
            Some(address) => if peer.online {
                r matches DeviceStep::Ask(n) && n@ == generic_device(
                    peer@,
                    listed_name(peer@),
                    address,
                    DeviceStatus::AgentUnknown,
                    is_local,
                )
            } else if include_all {
                r matches DeviceStep::Done(n) && n@ == generic_device(
                    peer@,
                    listed_name(peer@),
                    address,
                    DeviceStatus::Offline,
                    is_local,
                )
            } else {
                r is Skip
            },
        },
{
    let address = match choose_address(&peer.ips) {
        Some(address) => address,
        None => {
            return DeviceStep::Skip;
        },
    };
    let name = match &peer.hostname {
        Some(hostname) => hostname.clone(),
        None => match &peer.dns_name {
            Some(dns_name) => dns_name.clone(),
            None => peer.tailnet_node_id.clone(),
        },
    };
    if !peer.online {
        return if include_all {
            DeviceStep::Done(generic_node(peer, name, address, DeviceStatus::Offline, is_local))
        } else {
            DeviceStep::Skip
        };
    }
    DeviceStep::Ask(generic_node(peer, name, address, DeviceStatus::AgentUnknown, is_local))
}

/// The second step, with the answer on the agent's health. An agent that speaks another protocol,
/// or says that it is of another release, makes the device incompatible.
pub fn device_after_health(
    node: DiscoveredNode,
    include_all: bool,
    health: &PortResult<HealthResponse>,
    elapsed_micros: u128,
) -> (r: DeviceStep)
    ensures
        match *health {
            Ok(health) => if health.protocol == PROTOCOL_V1 {
                r matches DeviceStep::Ask(n) && n@ == (DeviceView {
                    status: DeviceStatus::Ready,
                    latency_ms: Some(latency(elapsed_micros, node.is_local) as u32),
                    ..node@
                })
            } else {
                r matches DeviceStep::Done(n) && n@ == (DeviceView {
                    status: DeviceStatus::Incompatible,
                    ..node@
                })
            },
            Err(error) => if error@.code == "VERSION_INCOMPATIBLE"@ {
                r matches DeviceStep::Done(n) && n@ == (DeviceView {
                    status: DeviceStatus::Incompatible,
                    ..node@
                })
            } else if include_all {
                r matches DeviceStep::Done(n) && n@ == (DeviceView {
                    status: DeviceStatus::AgentUnknown,
                    ..node@
                })
            } else {
                r is Skip
            },
        },
{
    let mut node = node;
    match health {
        Ok(health) => {
            if health.protocol == PROTOCOL_V1 {
                node.status = DeviceStatus::Ready;
                node.latency_ms = Some(measured_latency_ms(elapsed_micros, node.is_local));
                DeviceStep::Ask(node)
            } else {
                node.status = DeviceStatus::Incompatible;
                DeviceStep::Done(node)
            }
        },
        Err(error) => {
            if error.has_code("VERSION_INCOMPATIBLE") {
                node.status = DeviceStatus::Incompatible;
                DeviceStep::Done(node)
            } else if include_all {
                node.status = DeviceStatus::AgentUnknown;
                DeviceStep::Done(node)
            } else {
                DeviceStep::Skip
            }
        },
    }
}

/// The last step, with what the agent told of its computer, if it did.
pub fn device_after_info(node: DiscoveredNode, info: Option<NodeInfoResponse>) -> (r: DiscoveredNode)
    ensures
        match info {
            None => r == node,
            Some(info) => {
                &&& r@ == (DeviceView {
                    agent_version: Some(info.agent_version@),
                    omarchy_version: Some(info.omarchy_version@),
                    capabilities: r@.capabilities,
                    ..node@
                })
                &&& r.capabilities.wf()
                &&& forall|name: Seq<char>|
                    r@.capabilities.contains(name) <==> texts(info.capabilities@).contains(name)
            },
        },
{
    let mut node = node;
    if let Some(info) = info {
        node.agent_version = Some(info.agent_version);
        node.omarchy_version = Some(info.omarchy_version);
        node.capabilities = NodeCapabilities::new(info.capabilities);
    }
    node
}

/// The order of the list: this computer first, then by name.
pub open spec fn device_before() -> spec_fn(DiscoveredNode, DiscoveredNode) -> bool {
    |a: DiscoveredNode, b: DiscoveredNode|
        (a.is_local && !b.is_local) || (a.is_local == b.is_local && text_before(a.name@, b.name@))
}

fn is_device_before(a: &DiscoveredNode, b: &DiscoveredNode) -> (r: bool)
    ensures
        r == device_before()(*a, *b),
{
    (a.is_local && !b.is_local) || (a.is_local == b.is_local && is_before(
        a.name.as_str(),
        b.name.as_str(),
    ))
}

proof fn lemma_device_order()
    ensures
        strict_weak_order(device_before()),
{
    lemma_text_order();
    let f = device_before();
    assert forall|a: DiscoveredNode, b: DiscoveredNode, c: DiscoveredNode| #[trigger]
        f(a, b) && #[trigger] f(b, c) implies f(a, c) by {}
    assert forall|a: DiscoveredNode, b: DiscoveredNode, c: DiscoveredNode|
        #![trigger f(a, c), f(a, b)]
        #![trigger f(a, c), f(b, c)]
        f(a, c) implies f(a, b) || f(b, c) by {
        if a.is_local == b.is_local && b.is_local == c.is_local {
            assert(text_before(a.name@, b.name@) || a.name@ == b.name@ || text_before(b.name@, a.name@));
        }
    }
}

/// The devices in the order of the list. Devices of one name keep their order.
pub fn sort_devices(nodes: Vec<DiscoveredNode>) -> (r: Vec<DiscoveredNode>)
    ensures
        stably_sorted(nodes@, r@, device_before()),
{
    proof {
        lemma_device_order();
    }
    stable_sort(nodes, is_device_before, Ghost(device_before()))
}

/// The second question in a row that an agent leaves unanswered ends the session, and not the first;
/// an answer starts the count anew. The local agent is named before the remote one.
pub proof fn law_two_missed_answers_end_a_session(
    monitor: &mut AgentMonitor,
    local_answered: bool,
    remote_answered: bool,
    r: Option<PortError>,
)
    requires
        call_ensures(AgentMonitor::monitor_agents, (monitor, local_answered, remote_answered), r),
    ensures
        local_answered ==> final(monitor).local_failures == 0,
        remote_answered ==> final(monitor).remote_failures == 0,
        !local_answered && old(monitor).local_failures < 255 ==> final(monitor).local_failures
            == old(monitor).local_failures + 1,
        !remote_answered && old(monitor).remote_failures < 255 ==> final(monitor).remote_failures
            == old(monitor).remote_failures + 1,
        r is Some <==> (!local_answered && old(monitor).local_failures >= 1) || (!remote_answered
            && old(monitor).remote_failures >= 1),
        !local_answered && old(monitor).local_failures >= 1 ==> r->0.code@
            == "LOCAL_AGENT_UNAVAILABLE"@ && r->0.retryable,
        (local_answered || old(monitor).local_failures == 0) && !remote_answered
            && old(monitor).remote_failures >= 1 ==> r->0.code@ == "REMOTE_AGENT_UNAVAILABLE"@
            && r->0.retryable,
{
    if let Some(error) = r {
        assert(opt_failure(r) == Some(error@));
        assert(error@.code == error.code@);
        assert(error@.retryable == error.retryable);
    } else {
        assert(opt_failure(r) is None);
    }
}

/// A stream starts only when both agents answer; else the one that did not is named, the local one
/// first.
pub proof fn law_both_agents_must_answer(local_answered: bool, remote_answered: bool, r: PortResult<()>)
    requires
        call_ensures(verify_agents, (local_answered, remote_answered), r),
    ensures
        r is Ok <==> local_answered && remote_answered,
        !local_answered ==> (r matches Err(error) && error.code@ == "LOCAL_AGENT_UNAVAILABLE"@),
        local_answered && !remote_answered ==> (r matches Err(error) && error.code@
            == "REMOTE_AGENT_UNAVAILABLE"@),
{
    if let Err(error) = r {
        assert(outcome(r)->Err_0 == error@);
        assert(error@.code == error.code@);
    } else {
        assert(outcome(r) is Ok);
    }
}

/// A lost agent ends the stream's process and is the result; a process that ended by itself is not
/// terminated, and its exit is the result.
pub proof fn law_only_a_running_process_is_terminated(watched: Watched, r: StreamEnd)
    requires
        call_ensures(wait_for_process_or_monitor, (watched,), r),
    ensures
        r.terminate <==> watched is Unhealthy,
        watched matches Watched::Exited(exit) ==> r.result == exit,
        watched matches Watched::Unhealthy(error) ==> r.result == Err::<i32, PortError>(error),
{
}

/// A lease is renewed every third of it, at least two seconds apart, and a longer lease is never
/// renewed more often.
pub proof fn law_a_lease_is_renewed_every_third(lease: u64, r: u64, longer: u64, s: u64)
    requires
        call_ensures(renewal_interval, (lease,), r),
        call_ensures(renewal_interval, (longer,), s),
        lease <= longer,
    ensures
        r >= 2,
        r <= s,
        lease >= 6 ==> 3 * r <= lease < 3 * (r + 1),
        lease < 9 ==> r == 2,
{
}

/// A controller needs its own agent and Sunshine's credentials; what is missing is named, the agent
/// first, and only an agent that does not run is worth trying again.
pub proof fn law_a_controller_needs_its_agent_and_sunshine(
    local_agent: PortResult<()>,
    configured: bool,
    r: PortResult<()>,
)
    requires
        call_ensures(ensure_controller_ready, (local_agent, configured), r),
    ensures
        r is Ok <==> local_agent is Ok && configured,
        local_agent matches Err(error) ==> (r matches Err(told) && if error.code@
            == "VERSION_INCOMPATIBLE"@ {
            told.code@ == "LOCAL_AGENT_INCOMPATIBLE"@ && told.message@ == error.message@
                && !told.retryable
        } else {
            told.code@ == "LOCAL_AGENT_UNAVAILABLE"@ && told.retryable
        }),
        local_agent is Ok && !configured ==> (r matches Err(told) && told.code@
            == "LOCAL_SUNSHINE_UNCONFIGURED"@ && !told.retryable),
{
    if let Err(told) = r {
        assert(outcome(r)->Err_0 == told@);
        assert(told@.code == told.code@);
        assert(told@.message == told.message@);
        assert(told@.retryable == told.retryable);
    } else {
        assert(outcome(r) is Ok);
    }
}

/// The window of a stream is the one that was found. A lookup that found none is made again, twenty
/// in all; then, and after one that failed, it is any window of Moonlight's class.
pub proof fn law_a_window_is_looked_for_twenty_times(
    search: &mut WindowSearch,
    lookup: PortResult<Option<WindowSelector>>,
    r: Option<WindowSelector>,
)
    requires
        call_ensures(WindowSearch::locate_stream_window, (search, lookup), r),
    ensures
        lookup matches Ok(Some(window)) ==> r == Some(window),
        lookup is Err ==> (r matches Some(WindowSelector::Class(class)) && class@
            == "com.moonlight_stream.Moonlight"@),
        lookup matches Ok(None) ==> (r is None <==> old(search).attempts < 19),
        (lookup matches Ok(None) && r is Some) ==> (r matches Some(WindowSelector::Class(class))
            && class@ == "com.moonlight_stream.Moonlight"@),
        old(search).attempts < 20 ==> final(search).attempts == old(search).attempts + 1,
{
}

/// A listed device is at one of its own addresses, under its host name, else its DNS name, else its
/// identifier. One that is offline is listed only where all are wanted; any other that has an address
/// is asked.
pub proof fn law_devices_that_are_there_are_asked(
    peer: MeshPeer,
    include_all: bool,
    is_local: bool,
    r: DeviceStep,
)
    requires
        call_ensures(probe_device, (peer, include_all, is_local), r),
    ensures
        r is Ask <==> peer.online && peer.ips@.len() > 0,
        r is Done <==> !peer.online && include_all && peer.ips@.len() > 0,
        r !is Skip ==> ({
            let node = if r is Ask {
                r->Ask_0
            } else {
                r->Done_0
            };
            &&& peer.ips@.contains(node.address)
            &&& node.is_local == is_local
            &&& node.tailnet_node_id@ == peer.tailnet_node_id@
            &&& peer.hostname matches Some(name) ==> node.name@ == name@
            &&& peer.hostname is None && peer.dns_name is Some ==> node.name@ == peer.dns_name->0@
            &&& peer.hostname is None && peer.dns_name is None ==> node.name@
                == peer.tailnet_node_id@
            &&& r is Ask ==> node.status == DeviceStatus::AgentUnknown
            &&& r is Done ==> node.status == DeviceStatus::Offline
        }),
{
    law_the_preferred_address_is_one_of_them(peer.ips@);
    if r !is Skip {
        let node = if r is Ask {
            r->Ask_0
        } else {
            r->Done_0
        };
        assert(node.status == node@.status);
        assert(node.address == node@.address);
        assert(node.is_local == node@.is_local);
        assert(node.name@ == node@.name);
        assert(node.tailnet_node_id@ == node@.tailnet_node_id);
    }
}

/// A device is ready exactly when its agent answers in the first protocol, and incompatible when it
/// answers in another or says so itself. One that does not answer is listed, as unknown, only where
/// all are wanted.
pub proof fn law_a_device_is_what_its_agent_answers(
    node: DiscoveredNode,
    include_all: bool,
    health: PortResult<HealthResponse>,
    elapsed_micros: u128,
    r: DeviceStep,
)
    requires
        call_ensures(device_after_health, (node, include_all, &health, elapsed_micros), r),
    ensures
        r is Ask <==> (health matches Ok(told) && told.protocol == 1),
        r matches DeviceStep::Ask(seen) ==> seen.status == DeviceStatus::Ready,
        r matches DeviceStep::Ask(seen) ==> seen.latency_ms is Some,
        r matches DeviceStep::Ask(seen) ==> (node.is_local ==> seen.latency_ms == Some(0u32)),
        r matches DeviceStep::Done(seen) ==> (seen.status == DeviceStatus::Incompatible <==> health is Ok
            || (health matches Err(error) && error.code@ == "VERSION_INCOMPATIBLE"@)),
        r matches DeviceStep::Done(seen) ==> (seen.status == DeviceStatus::Incompatible || seen.status
            == DeviceStatus::AgentUnknown),
        r is Skip <==> !include_all && (health matches Err(error) && error.code@
            != "VERSION_INCOMPATIBLE"@),
{
    if let DeviceStep::Ask(seen) = r {
        assert(seen.status == seen@.status);
        assert(seen.latency_ms == seen@.latency_ms);
    }
    if let DeviceStep::Done(seen) = r {
        assert(seen.status == seen@.status);
    }
    if let Err(error) = health {
        assert(error@.code == error.code@);
    }
}

/// The list of devices holds the same devices as before: this computer first, and of the others no
/// name stands before one that it follows.
pub proof fn law_devices_are_by_name_with_this_computer_first(
    nodes: Vec<DiscoveredNode>,
    r: Vec<DiscoveredNode>,
)
    requires
        call_ensures(sort_devices, (nodes,), r),
    ensures
        r@.to_multiset() == nodes@.to_multiset(),
        forall|i: int, j: int|
            0 <= i < j < r@.len() && (#[trigger] r@[j]).is_local ==> (#[trigger] r@[i]).is_local,
        forall|i: int, j: int|
            0 <= i < j < r@.len() && (#[trigger] r@[i]).is_local == (#[trigger] r@[j]).is_local
                ==> !text_before(r@[j].name@, r@[i].name@),
{
    let before = device_before();
    assert forall|i: int, j: int|
        0 <= i < j < r@.len() && (#[trigger] r@[j]).is_local implies (#[trigger] r@[i]).is_local by {
        assert(!before(r@[j], r@[i]));
    }
    assert forall|i: int, j: int|
        0 <= i < j < r@.len() && (#[trigger] r@[i]).is_local == (#[trigger] r@[j]).is_local implies !text_before(
        r@[j].name@,
        r@[i].name@,
    ) by {
        assert(!before(r@[j], r@[i]));
    }
}

/// A renewal is asked for the session and the attachment of the grant.
pub proof fn law_a_renewal_claims_what_was_granted(grant: SessionGrant, r: CommandRequest)
    requires
        call_ensures(renewal_request, (&grant,), r),
    ensures
        r.command is RenewSession,
        r.session matches Some(claim) && claim.id == grant.id && claim.generation == grant.generation,
{
}

/// An agent that missed as many answers as may be missed ends the session, this computer's own
/// before the other's; below that none does.
pub proof fn law_an_agent_that_is_gone_ends_the_session(local: u8, remote: u8, limit: u8, r: Option<PortError>)
    requires
        call_ensures(agent_health_failure, (local, remote, limit), r),
    ensures
        r is None <==> local < limit && remote < limit,
        local >= limit ==> (r matches Some(error) && error@.code == "LOCAL_AGENT_UNAVAILABLE"@
            && error@.message == "the local omdesky-agent stopped responding"@ && error@.retryable),
        local < limit && remote >= limit ==> (r matches Some(error) && error@.code
            == "REMOTE_AGENT_UNAVAILABLE"@ && error@.message
            == "the remote omdesky-agent stopped responding"@ && error@.retryable),
{
}

/// Where the stream's own window is not found, that of Moonlight's class is taken.
pub proof fn law_moonlights_class_stands_in(r: WindowSelector)
    requires
        call_ensures(fallback_window, (), r),
    ensures
        r matches WindowSelector::Class(class) && class@ == "com.moonlight_stream.Moonlight"@,
{
}

/// A device shows what the network knows of it, with the status given, and what its agent tells is
/// added to that.
pub proof fn law_a_device_is_shown_as_it_was_found(
    peer: MeshPeer,
    name: String,
    address: IpAddr,
    status: DeviceStatus,
    is_local: bool,
    found: DiscoveredNode,
    info: NodeInfoResponse,
    told: DiscoveredNode,
)
    requires
        call_ensures(generic_node, (peer, name, address, status, is_local), found),
        call_ensures(device_after_info, (found, Some(info)), told),
    ensures
        found@.tailnet_node_id == peer.tailnet_node_id@,
        found@.name == name@ && found@.address == address && found@.is_local == is_local,
        found@.status == status,
        found@.connection == peer.connection && found@.latency_ms == peer.latency_ms,
        found@.agent_version is None && found@.omarchy_version is None && found@.capabilities.len() == 0,
        told@.agent_version == Some(info.agent_version@),
        told@.omarchy_version == Some(info.omarchy_version@),
        told@.name == name@ && told@.status == status && told@.address == address,
{
    assert(peer@.tailnet_node_id == peer.tailnet_node_id@);
}

} // verus!
