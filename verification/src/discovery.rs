//! Discovery of the computers of a tailnet that can be controlled, and of what stands in the way.
use vstd::prelude::*;
use vstd::string::*;

use crate::access::{grants, missing_callback_capabilities, missing_callbacks};
use crate::domain::{
    choose_address, law_the_preferred_address_is_one_of_them, preferred_address, BlockerCode,
    BlockerSide, ConnectionKind, ControlCapability, IpAddr, MeshPeer, MeshPeerView, NodeBlocker,
    NodeBlockerView, NodeCapabilities, NodeStatus,
};
use crate::order::{is_before, lemma_text_order, stable_sort, stably_sorted, strict_weak_order, text_before};
use crate::ports::{
    port_error, AllowedController, MeshNodeIdentity, PortError, PortErrorView, PortResult,
};
use crate::protocol::{HealthResponse, NodeInfoResponse};
use crate::readiness::{compatible_agent, ensure_compatible_agent};
use crate::release::{compatible_release, release_line, ReleaseLine, RELEASE};
use crate::strings::{opt_text, texts};

verus! {

pub const MAX_DISCOVERY_PEERS: usize = 1024;

pub const DISCOVERY_CONCURRENCY: usize = 16;

/// A computer of the tailnet as it was found.
#[derive(Debug, PartialEq, Eq)]
pub struct DiscoveredNode {
    pub tailnet_node_id: String,
    pub name: String,
    pub address: IpAddr,
    pub status: NodeStatus,
    pub blockers: Vec<NodeBlocker>,
    pub connection: ConnectionKind,
    pub latency_ms: Option<u32>,
    pub agent_version: Option<String>,
    pub omarchy_version: Option<String>,
    pub capabilities: NodeCapabilities,
    pub is_local: bool,
}

pub struct DiscoveredNodeView {
    pub tailnet_node_id: Seq<char>,
    pub name: Seq<char>,
    pub address: IpAddr,
    pub status: NodeStatus,
    pub blockers: Seq<NodeBlockerView>,
    pub connection: ConnectionKind,
    pub latency_ms: Option<u32>,
    pub agent_version: Option<Seq<char>>,
    pub omarchy_version: Option<Seq<char>>,
    pub capabilities: Seq<Seq<char>>,
    pub is_local: bool,
}

pub open spec fn blocker_views(blockers: Seq<NodeBlocker>) -> Seq<NodeBlockerView> {
    blockers.map_values(|b: NodeBlocker| b@)
}

impl View for DiscoveredNode {
    type V = DiscoveredNodeView;

    open spec fn view(&self) -> DiscoveredNodeView {
        DiscoveredNodeView {
            tailnet_node_id: self.tailnet_node_id@,
            name: self.name@,
            address: self.address,
            status: self.status,
            blockers: blocker_views(self.blockers@),
            connection: self.connection,
            latency_ms: self.latency_ms,
            agent_version: opt_text(self.agent_version),
            omarchy_version: opt_text(self.omarchy_version),
            capabilities: self.capabilities@,
            is_local: self.is_local,
        }
    }
}

impl DiscoveredNodeView {
    /// What is known of a machine before its agent was asked.
    pub open spec fn of_peer(peer: MeshPeerView, name: Seq<char>, address: IpAddr, is_local: bool) -> Self {
        DiscoveredNodeView {
            tailnet_node_id: peer.tailnet_node_id,
            name,
            address,
            status: NodeStatus::Unavailable,
            blockers: Seq::empty(),
            connection: peer.connection,
            latency_ms: peer.latency_ms,
            agent_version: None,
            omarchy_version: None,
            capabilities: Seq::empty(),
            is_local,
        }
    }

    /// A node that nothing blocks is ready.
    pub open spec fn with_blockers(self, blockers: Seq<NodeBlockerView>) -> Self {
        DiscoveredNodeView {
            status: if blockers.len() == 0 {
                NodeStatus::Ready
            } else {
                NodeStatus::Blocked
            },
            blockers,
            ..self
        }
    }

    pub open spec fn is_connectable(self) -> bool {
        !self.is_local && self.status == NodeStatus::Ready
    }
}

impl DiscoveredNode {
    pub fn from_peer(peer: MeshPeer, name: String, address: IpAddr, is_local: bool) -> (r: Self)
        ensures
            r@ == DiscoveredNodeView::of_peer(peer@, name@, address, is_local),
    {
        let node = DiscoveredNode {
            tailnet_node_id: peer.tailnet_node_id,
            name,
            address,
            status: NodeStatus::Unavailable,
            blockers: Vec::new(),
            connection: peer.connection,
            latency_ms: peer.latency_ms,
            agent_version: None,
            omarchy_version: None,
            capabilities: NodeCapabilities::default(),
            is_local,
        };
        assert(blocker_views(node.blockers@) =~= Seq::empty());
        node
    }

    pub fn with_status(self, status: NodeStatus) -> (r: Self)
        ensures
            r@ == (DiscoveredNodeView { status, ..self@ }),
    {
        let mut node = self;
        node.status = status;
        node
    }

    pub fn with_blockers(self, blockers: Vec<NodeBlocker>) -> (r: Self)
        ensures
            r@ == self@.with_blockers(blocker_views(blockers@)),
            r.capabilities == self.capabilities,
    {
        let mut node = self;
        node.status = if blockers.len() == 0 {
            NodeStatus::Ready
        } else {
            NodeStatus::Blocked
        };
        node.blockers = blockers;
        node
    }

    /// Adds what the agent told of its computer.
    pub fn with_info(self, info: Option<NodeInfoResponse>) -> (r: Self)
        ensures
            match info {
                None => r == self,
                Some(info) => {
                    &&& r@ == (DiscoveredNodeView {
                        agent_version: Some(info.agent_version@),
                        omarchy_version: Some(info.omarchy_version@),
                        capabilities: r@.capabilities,
                        ..self@
                    })
                    &&& r.capabilities.wf()
                    &&& forall|name: Seq<char>|
                        r@.capabilities.contains(name) <==> texts(info.capabilities@).contains(name)
                },
            },
    {
        let mut node = self;
        if let Some(info) = info {
            node.agent_version = Some(info.agent_version);
            node.omarchy_version = Some(info.omarchy_version);
            node.capabilities = NodeCapabilities::new(info.capabilities);
        }
        node
    }

    pub fn is_connectable(&self) -> (r: bool)
        ensures
            r == self@.is_connectable(),
    {
        !self.is_local && self.status == NodeStatus::Ready
    }
}

/// What the whole discovery knows of this computer.
#[derive(Debug, PartialEq, Eq)]
pub struct DiscoveryContext {
    pub allowlist: Vec<AllowedController>,
    pub local_name: String,
    pub include_all: bool,
}

pub open spec fn latency(elapsed_micros: u128, is_local: bool) -> int {
    if is_local {
        0
    } else if elapsed_micros as int / 1000 < 1 {
        1
    } else if elapsed_micros as int / 1000 > u32::MAX {
        u32::MAX as int
    } else {
        elapsed_micros as int / 1000
    }
}

/// The latency to show for a probe: nothing for this computer, at least a millisecond for another.
pub fn measured_latency_ms(elapsed_micros: u128, is_local: bool) -> (r: u32)
    ensures
        r == latency(elapsed_micros, is_local),
{
    if is_local {
        return 0;
    }
    let millis: u128 = elapsed_micros / 1000;
    if millis < 1 {
        1
    } else if millis > 0xffff_ffff {
        u32::MAX
    } else {
        millis as u32
    }
}

pub open spec fn blocker(code: BlockerCode, side: BlockerSide, fix: Seq<char>) -> NodeBlockerView {
    NodeBlockerView { code, side, fix }
}

/// Whether an agent of that version is of a later release line than this computer.
pub open spec fn is_newer(version: Seq<char>) -> bool {
    release_line(version) is Some && release_line(RELEASE@) is Some && release_line(
        RELEASE@,
    )->0.older_than(release_line(version)->0)
}

/// Where and how two different releases are brought together.
pub open spec fn incompatibility(version: Seq<char>, name: Seq<char>, is_local: bool) -> NodeBlockerView {
    if is_local {
        blocker(
            BlockerCode::Incompatible,
            BlockerSide::Local,
            "Restart omdesky-agent so it runs Omdesky "@ + RELEASE@,
        )
    } else if is_newer(version) {
        blocker(
            BlockerCode::Incompatible,
            BlockerSide::Local,
            "Install Omdesky "@ + version + " on this computer"@,
        )
    } else {
        blocker(
            BlockerCode::Incompatible,
            BlockerSide::Remote,
            "Install Omdesky "@ + RELEASE@ + " on "@ + name,
        )
    }
}

pub fn incompatible_blocker(remote_version: &str, remote_name: &str, is_local: bool) -> (r: NodeBlocker)
    ensures
        r@ == incompatibility(remote_version@, remote_name@, is_local),
{
    if is_local {
        return NodeBlocker {
            code: BlockerCode::Incompatible,
            side: BlockerSide::Local,
            fix: "Restart omdesky-agent so it runs Omdesky ".to_owned().concat(RELEASE),
        };
    }
    let remote_is_newer = match (ReleaseLine::parse(remote_version), ReleaseLine::current()) {
        (Some(remote), Some(local)) => local.is_older_than(&remote),
        _ => false,
    };
    if remote_is_newer {
        return NodeBlocker {
            code: BlockerCode::Incompatible,
            side: BlockerSide::Local,
            fix: "Install Omdesky ".to_owned().concat(remote_version).concat(" on this computer"),
        };
    }
    NodeBlocker {
        code: BlockerCode::Incompatible,
        side: BlockerSide::Remote,
        fix: "Install Omdesky ".to_owned().concat(RELEASE).concat(" on ").concat(remote_name),
    }
}

/// What a person is told about a blocker.
pub open spec fn blocker_text(node_name: Seq<char>, b: NodeBlockerView) -> Seq<char> {
    match b.code {
        BlockerCode::Incompatible => node_name + " runs a different Omdesky release. "@ + b.fix + "."@,
        BlockerCode::Denied => node_name + " does not allow this computer. Run `"@ + b.fix + "` on "@
            + node_name + "."@,
        BlockerCode::NeedsAccess => "This computer does not accept shortcuts from "@ + node_name
            + ". Run `"@ + b.fix + "` here."@,
    }
}

pub fn blocker_message(node_name: &str, blocker: &NodeBlocker) -> (r: String)
    ensures
        r@ == blocker_text(node_name@, blocker@),
{
    match blocker.code {
        BlockerCode::Incompatible => node_name.to_owned().concat(
            " runs a different Omdesky release. ",
        ).concat(blocker.fix.as_str()).concat("."),
        BlockerCode::Denied => node_name.to_owned().concat(
            " does not allow this computer. Run `",
        ).concat(blocker.fix.as_str()).concat("` on ").concat(node_name).concat("."),
        BlockerCode::NeedsAccess => "This computer does not accept shortcuts from ".to_owned().concat(
            node_name,
        ).concat(". Run `").concat(blocker.fix.as_str()).concat("` here."),
    }
}

/// An answer by which an agent refuses this computer.
pub open spec fn refuses(error: Option<PortErrorView>) -> bool {
    error matches Some(error) && (error.code == "UNAUTHORIZED"@ || error.code == "CAPABILITY_DENIED"@)
}

/// What the two allowlists lack: the remote one, then the local one.
pub open spec fn access_gaps(
    info_error: Option<PortErrorView>,
    context: DiscoveryContext,
    id: Seq<char>,
    name: Seq<char>,
) -> Seq<NodeBlockerView> {
    (if refuses(info_error) {
        seq![
            blocker(
                BlockerCode::Denied,
                BlockerSide::Remote,
                "omdesky access allow "@ + context.local_name@,
            ),
        ]
    } else {
        seq![]
    }) + (if missing_callbacks(context.allowlist@, id).len() > 0 {
        seq![blocker(BlockerCode::NeedsAccess, BlockerSide::Local, "omdesky access allow "@ + name)]
    } else {
        seq![]
    })
}

pub open spec fn opt_error(error: Option<&PortError>) -> Option<PortErrorView> {
    match error {
        Some(error) => Some(error@),
        None => None,
    }
}

pub fn access_blockers(
    info_error: Option<&PortError>,
    context: &DiscoveryContext,
    tailnet_node_id: &str,
    remote_name: &str,
) -> (r: Vec<NodeBlocker>)
    ensures
        blocker_views(r@) == access_gaps(
            opt_error(info_error),
            *context,
            tailnet_node_id@,
            remote_name@,
        ),
{
    let mut blockers: Vec<NodeBlocker> = Vec::new();
    if let Some(error) = info_error {
        if error.has_code("UNAUTHORIZED") || error.has_code("CAPABILITY_DENIED") {
            blockers.push(
                NodeBlocker {
                    code: BlockerCode::Denied,
                    side: BlockerSide::Remote,
                    fix: "omdesky access allow ".to_owned().concat(context.local_name.as_str()),
                },
            );
        }
    }
    if missing_callback_capabilities(context.allowlist.as_slice(), tailnet_node_id).len() > 0 {
        blockers.push(
            NodeBlocker {
                code: BlockerCode::NeedsAccess,
                side: BlockerSide::Local,
                fix: "omdesky access allow ".to_owned().concat(remote_name),
            },
        );
    }
    assert(blocker_views(blockers@) =~= access_gaps(
        opt_error(info_error),
        *context,
        tailnet_node_id@,
        remote_name@,
    ));
    blockers
}

/// The name of a machine in a list: its host name, else its DNS name, else its identifier.
pub open spec fn listed_name(peer: MeshPeerView) -> Seq<char> {
    match peer.hostname {
        Some(hostname) => hostname,
        None => match peer.dns_name {
            Some(dns_name) => dns_name,
            None => peer.tailnet_node_id,
        },
    }
}

/// The next step of a probe.
#[derive(Debug, PartialEq, Eq)]
pub enum ProbeStep {
    /// The machine is not listed.
    Skip,
    /// The machine is listed like this.
    Done(DiscoveredNode),
    /// The agent at the node's address is to be asked.
    Ask(DiscoveredNode),
}

/// The first step: a machine without an address is never listed, one that is offline only where
/// all are wanted; of any other the health of its agent is asked.
pub fn probe_peer(peer: MeshPeer, is_local: bool, include_all: bool) -> (r: ProbeStep)
    ensures
        match preferred_address(peer.ips@) {
            None => r is Skip,
            Some(address) => {
                let node = DiscoveredNodeView::of_peer(peer@, listed_name(peer@), address, is_local);
                if peer.online {
                    r matches ProbeStep::Ask(n) && n@ == node
                } else if include_all {
                    r matches ProbeStep::Done(n) && n@ == (DiscoveredNodeView {
                        status: NodeStatus::Offline,
                        ..node
                    })
                } else {
                    r is Skip
                }
            },
        },
{
    let address = match choose_address(&peer.ips) {
        Some(address) => address,
        None => {
            return ProbeStep::Skip;
        },
    };
    let name = match &peer.hostname {
        Some(hostname) => hostname.clone(),
        None => match &peer.dns_name {
            Some(dns_name) => dns_name.clone(),
            None => peer.tailnet_node_id.clone(),
        },
    };
    let online = peer.online;
    let node = DiscoveredNode::from_peer(peer, name, address, is_local);
    if online {
        ProbeStep::Ask(node)
    } else if include_all {
        ProbeStep::Done(node.with_status(NodeStatus::Offline))
    } else {
        ProbeStep::Skip
    }
}

pub open spec fn after_health_view(node: DiscoveredNodeView, health: HealthResponse, elapsed_micros: u128) -> DiscoveredNodeView {
    DiscoveredNodeView {
        latency_ms: Some(latency(elapsed_micros, node.is_local) as u32),
        agent_version: Some(health.agent_version@),
        ..node
    }
}

/// The second step, with the answer on the agent's health: a machine whose agent does not answer
/// is listed only where all are wanted; one whose agent is of another release is blocked; of any
/// other more is asked.
pub fn after_health(
    node: DiscoveredNode,
    include_all: bool,
    health: &PortResult<HealthResponse>,
    elapsed_micros: u128,
) -> (r: ProbeStep)
    ensures
        match *health {
            Err(_) => if include_all {
                r == ProbeStep::Done(node)
            } else {
                r is Skip
            },
            Ok(health) => {
                let seen = after_health_view(node@, health, elapsed_micros);
                if compatible_agent(health) {
                    r matches ProbeStep::Ask(n) && n@ == seen
                } else {
                    r matches ProbeStep::Done(n) && n@ == seen.with_blockers(
                        seq![incompatibility(health.agent_version@, node.name@, node.is_local)],
                    )
                }
            },
        },
{
    let health = match health {
        Err(_) => {
            return if include_all {
                ProbeStep::Done(node)
            } else {
                ProbeStep::Skip
            };
        },
        Ok(health) => health,
    };
    let mut node = node;
    node.latency_ms = Some(measured_latency_ms(elapsed_micros, node.is_local));
    node.agent_version = Some(health.agent_version.clone());
    if ensure_compatible_agent(health).is_err() {
        let found = incompatible_blocker(
            health.agent_version.as_str(),
            node.name.as_str(),
            node.is_local,
        );
        let mut blockers: Vec<NodeBlocker> = Vec::new();
        blockers.push(found);
        assert(blocker_views(blockers@) =~= seq![found@]);
        return ProbeStep::Done(node.with_blockers(blockers));
    }
    ProbeStep::Ask(node)
}

/// The blockers that the answer on a node's information shows.
pub open spec fn info_blockers(
    node: DiscoveredNodeView,
    agent_version: Seq<char>,
    error: Option<PortErrorView>,
    context: DiscoveryContext,
) -> Seq<NodeBlockerView> {
    if error is Some && error->0.code == "VERSION_INCOMPATIBLE"@ {
        seq![incompatibility(agent_version, node.name, node.is_local)]
    } else if node.is_local {
        Seq::empty()
    } else {
        access_gaps(error, context, node.tailnet_node_id, node.name)
    }
}

pub open spec fn error_of<T>(r: Result<T, PortError>) -> Option<PortErrorView> {
    match r {
        Ok(_) => None,
        Err(error) => Some(error@),
    }
}

/// The last step, with the answer on the node's information.
pub fn after_info(
    node: DiscoveredNode,
    agent_version: &str,
    info: PortResult<NodeInfoResponse>,
    context: &DiscoveryContext,
) -> (r: DiscoveredNode)
    ensures
        ({
            let blocked = node@.with_blockers(
                info_blockers(node@, agent_version@, error_of(info), *context),
            );
            match info {
                Err(_) => r@ == blocked,
                Ok(info) => {
                    &&& r@ == (DiscoveredNodeView {
                        agent_version: Some(info.agent_version@),
                        omarchy_version: Some(info.omarchy_version@),
                        capabilities: r@.capabilities,
                        ..blocked
                    })
                    &&& r.capabilities.wf()
                    &&& forall|name: Seq<char>|
                        r@.capabilities.contains(name) <==> texts(info.capabilities@).contains(name)
                },
            }
        }),
{
    let blockers = match &info {
        Err(error) => {
            if error.has_code("VERSION_INCOMPATIBLE") {
                let found = incompatible_blocker(agent_version, node.name.as_str(), node.is_local);
                let mut list: Vec<NodeBlocker> = Vec::new();
                list.push(found);
                assert(blocker_views(list@) =~= seq![found@]);
                list
            } else if node.is_local {
                Vec::new()
            } else {
                access_blockers(
                    Some(error),
                    context,
                    node.tailnet_node_id.as_str(),
                    node.name.as_str(),
                )
            }
        },
        Ok(_) => {
            if node.is_local {
                Vec::new()
            } else {
                access_blockers(None, context, node.tailnet_node_id.as_str(), node.name.as_str())
            }
        },
    };
    assert(blocker_views(blockers@) =~= info_blockers(node@, agent_version@, error_of(info), *context));
    let blocked = node.with_blockers(blockers);
    match info {
        Ok(info) => blocked.with_info(Some(info)),
        Err(_) => blocked,
    }
}

/// A node is ready exactly when nothing blocks it.
pub proof fn law_blockers_decide_readiness(node: DiscoveredNodeView, blockers: Seq<NodeBlockerView>)
    ensures
        node.with_blockers(blockers).is_connectable() <==> !node.is_local && blockers.len() == 0,
{
}

/// A remote machine has no blocker exactly when its agent does not refuse this computer and this
/// computer grants it what its answers need.
pub proof fn law_access_is_needed_in_both_directions(
    error: Option<PortErrorView>,
    context: DiscoveryContext,
    id: Seq<char>,
    name: Seq<char>,
)
    ensures
        access_gaps(error, context, id, name).len() == 0 <==> !refuses(error) && missing_callbacks(
            context.allowlist@,
            id,
        ).len() == 0,
{
}

/// The machine that stands for this computer.
pub open spec fn local_peer_view(local: MeshNodeIdentity) -> MeshPeerView {
    MeshPeerView {
        tailnet_node_id: local.tailnet_node_id@,
        dns_name: None,
        hostname: opt_text(local.hostname),
        ips: local.addresses@,
        online: true,
        connection: ConnectionKind::Direct,
        latency_ms: Some(0),
    }
}

pub open spec fn local_name_of(local: MeshNodeIdentity) -> Seq<char> {
    match local.hostname {
        Some(hostname) => hostname@,
        None => local.tailnet_node_id@,
    }
}

/// What a discovery starts from: this computer as a machine to probe, and the context. A tailnet
/// of more than `MAX_DISCOVERY_PEERS` machines is refused. A list of controllers that could not
/// be read counts as empty.
pub fn plan_discovery(
    local: MeshNodeIdentity,
    peer_count: usize,
    allowlist: PortResult<Vec<AllowedController>>,
    include_all: bool,
) -> (r: PortResult<(MeshPeer, DiscoveryContext)>)
    ensures
        match r {
            Ok((peer, context)) => {
                &&& peer_count <= MAX_DISCOVERY_PEERS
                &&& peer@ == local_peer_view(local)
                &&& context.local_name@ == local_name_of(local)
                &&& context.include_all == include_all
                &&& match allowlist {
                    Ok(list) => context.allowlist == list,
                    Err(_) => context.allowlist@.len() == 0,
                }
            },
            Err(error) => peer_count > MAX_DISCOVERY_PEERS && error@ == port_error(
                "DISCOVERY_PEER_LIMIT"@,
                "the tailnet contains too many peers to discover safely"@,
                false,
            ),
        },
{
    if peer_count > MAX_DISCOVERY_PEERS {
        return Err(
            PortError::plain(
                "DISCOVERY_PEER_LIMIT",
                "the tailnet contains too many peers to discover safely",
                false,
            ),
        );
    }
    let allowlist = match allowlist {
        Ok(list) => list,
        Err(_) => Vec::new(),
    };
    let local_name = match &local.hostname {
        Some(hostname) => hostname.clone(),
        None => local.tailnet_node_id.clone(),
    };
    let peer = MeshPeer {
        tailnet_node_id: local.tailnet_node_id,
        dns_name: None,
        hostname: local.hostname,
        ips: local.addresses,
        online: true,
        connection: ConnectionKind::Direct,
        latency_ms: Some(0),
    };
    Ok((peer, DiscoveryContext { allowlist, local_name, include_all }))
}

/// The order of a list: this computer first, then by name.
pub open spec fn listed_before() -> spec_fn(DiscoveredNode, DiscoveredNode) -> bool {
    |a: DiscoveredNode, b: DiscoveredNode|
        (a.is_local && !b.is_local) || (a.is_local == b.is_local && text_before(a.name@, b.name@))
}

fn is_listed_before(a: &DiscoveredNode, b: &DiscoveredNode) -> (r: bool)
    ensures
        r == listed_before()(*a, *b),
{
    (a.is_local && !b.is_local) || (a.is_local == b.is_local && is_before(
        a.name.as_str(),
        b.name.as_str(),
    ))
}

pub proof fn lemma_listing_order()
    ensures
        strict_weak_order(listed_before()),
{
    lemma_text_order();
    let f = listed_before();
    assert forall|a: DiscoveredNode, b: DiscoveredNode, c: DiscoveredNode| #[trigger]
        f(a, b) && #[trigger] f(b, c) implies f(a, c) by {}
    assert forall|a: DiscoveredNode, b: DiscoveredNode, c: DiscoveredNode|
        #![trigger f(a, c), f(a, b)]
        #![trigger f(a, c), f(b, c)]
        f(a, c) implies f(a, b) || f(b, c) by {
        if a.is_local == b.is_local && b.is_local == c.is_local {
            assert(text_before(a.name@, b.name@) || a.name@ == b.name@ || text_before(b.name@, a.name@));
        }
    }
}

/// The nodes in the order of the list. Nodes of one name keep their order.
pub fn sort_nodes(nodes: Vec<DiscoveredNode>) -> (r: Vec<DiscoveredNode>)
    ensures
        stably_sorted(nodes@, r@, listed_before()),
{
    proof {
        lemma_listing_order();
    }
    stable_sort(nodes, is_listed_before, Ghost(listed_before()))
}

/// Whether the answer on a node's information holds that error code.
pub open spec fn answered_with(info: PortResult<NodeInfoResponse>, code: Seq<char>) -> bool {
    info matches Err(error) && error.code@ == code
}

/// Whether the list grants a machine both what it needs to send shortcuts and what it needs to
/// close a stream.
pub open spec fn accepts_callbacks_of(allowlist: Seq<AllowedController>, id: Seq<char>) -> bool {
    grants(allowlist, id, ControlCapability::SendShortcut) && grants(
        allowlist,
        id,
        ControlCapability::CloseStream,
    )
}

proof fn lemma_refusals_are_no_releases()
    ensures
        "UNAUTHORIZED"@ != "VERSION_INCOMPATIBLE"@,
        "CAPABILITY_DENIED"@ != "VERSION_INCOMPATIBLE"@,
        "UNAUTHORIZED"@ != "CAPABILITY_DENIED"@,
{
    reveal_strlit("UNAUTHORIZED");
    reveal_strlit("CAPABILITY_DENIED");
    reveal_strlit("VERSION_INCOMPATIBLE");
    assert("UNAUTHORIZED"@.len() == 12);
    assert("CAPABILITY_DENIED"@.len() == 17);
    assert("VERSION_INCOMPATIBLE"@.len() == 20);
}

/// A remote machine whose agent refuses this computer is blocked, and the first thing to mend is on
/// the remote side: to allow this computer there.
pub proof fn law_a_refusal_is_mended_on_the_remote_side(
    node: DiscoveredNode,
    agent_version: &str,
    info: PortResult<NodeInfoResponse>,
    context: DiscoveryContext,
    r: DiscoveredNode,
)
    requires
        call_ensures(after_info, (node, agent_version, info, &context), r),
        !node.is_local,
        answered_with(info, "UNAUTHORIZED"@) || answered_with(info, "CAPABILITY_DENIED"@),
    ensures
        r.status == NodeStatus::Blocked,
        !r@.is_connectable(),
        r.blockers@.len() >= 1,
        r.blockers@[0].code == BlockerCode::Denied,
        r.blockers@[0].side == BlockerSide::Remote,
        r.blockers@[0].fix@ == "omdesky access allow "@ + context.local_name@,
{
    lemma_refusals_are_no_releases();
    assert(r.status == r@.status);
    assert(r@.blockers.len() == r.blockers@.len());
    assert(r@.blockers[0] == r.blockers@[0]@);
}

/// A remote machine is ready exactly when its agent neither refused this computer nor is of another
/// release, and this computer accepts its callbacks; what it is not granted is mended here.
pub proof fn law_a_remote_machine_is_ready_with_access_both_ways(
    node: DiscoveredNode,
    agent_version: &str,
    info: PortResult<NodeInfoResponse>,
    context: DiscoveryContext,
    r: DiscoveredNode,
)
    requires
        call_ensures(after_info, (node, agent_version, info, &context), r),
        !node.is_local,
    ensures
        r.status == NodeStatus::Ready <==> {
            &&& !answered_with(info, "UNAUTHORIZED"@)
            &&& !answered_with(info, "CAPABILITY_DENIED"@)
            &&& !answered_with(info, "VERSION_INCOMPATIBLE"@)
            &&& accepts_callbacks_of(context.allowlist@, node.tailnet_node_id@)
        },
        r.status == NodeStatus::Ready <==> r.blockers@.len() == 0,
        r.status == NodeStatus::Ready || r.status == NodeStatus::Blocked,
        !answered_with(info, "VERSION_INCOMPATIBLE"@) && !accepts_callbacks_of(
            context.allowlist@,
            node.tailnet_node_id@,
        ) ==> r.blockers@.len() >= 1 && r.blockers@.last().code == BlockerCode::NeedsAccess
            && r.blockers@.last().side == BlockerSide::Local && r.blockers@.last().fix@
            == "omdesky access allow "@ + node.name@,
        info is Ok && !accepts_callbacks_of(context.allowlist@, node.tailnet_node_id@)
            ==> r.blockers@.len() == 1,
{
    lemma_refusals_are_no_releases();
    assert(r.status == r@.status);
    assert(r@.blockers.len() == r.blockers@.len());
    if r.blockers@.len() > 0 {
        assert(r@.blockers[r.blockers@.len() - 1] == r.blockers@.last()@);
    }
}

/// This computer needs no access to itself: only another release blocks it.
pub proof fn law_this_computer_needs_no_access(
    node: DiscoveredNode,
    agent_version: &str,
    info: PortResult<NodeInfoResponse>,
    context: DiscoveryContext,
    r: DiscoveredNode,
)
    requires
        call_ensures(after_info, (node, agent_version, info, &context), r),
        node.is_local,
    ensures
        !answered_with(info, "VERSION_INCOMPATIBLE"@) ==> r.status == NodeStatus::Ready
            && r.blockers@.len() == 0,
        !r@.is_connectable(),
{
    assert(r.status == r@.status);
    assert(r@.blockers.len() == r.blockers@.len());
}

/// An agent of another release blocks its machine, whichever of the two steps finds it, and nothing
/// else is then said: it is mended here where the agent is newer or is this computer's own, and else
/// on the machine.
pub proof fn law_another_release_blocks(
    node: DiscoveredNode,
    agent_version: &str,
    info: PortResult<NodeInfoResponse>,
    context: DiscoveryContext,
    r: DiscoveredNode,
)
    requires
        call_ensures(after_info, (node, agent_version, info, &context), r),
        answered_with(info, "VERSION_INCOMPATIBLE"@),
    ensures
        r.status == NodeStatus::Blocked,
        r.blockers@.len() == 1,
        r.blockers@[0].code == BlockerCode::Incompatible,
        r.blockers@[0].side == BlockerSide::Local <==> node.is_local || is_newer(agent_version@),
{
    assert(r.status == r@.status);
    assert(r@.blockers.len() == r.blockers@.len());
    assert(r@.blockers[0] == r.blockers@[0]@);
}

/// What the agent tells is shown: its version, that of its desktop, and what it offers. What was
/// known before stays.
pub proof fn law_what_the_agent_tells_is_shown(
    node: DiscoveredNode,
    agent_version: &str,
    info: PortResult<NodeInfoResponse>,
    context: DiscoveryContext,
    r: DiscoveredNode,
)
    requires
        call_ensures(after_info, (node, agent_version, info, &context), r),
    ensures
        r.tailnet_node_id@ == node.tailnet_node_id@,
        r.name@ == node.name@,
        r.address == node.address,
        r.connection == node.connection,
        r.latency_ms == node.latency_ms,
        r.is_local == node.is_local,
        info is Err ==> opt_text(r.agent_version) == opt_text(node.agent_version) && opt_text(
            r.omarchy_version,
        ) == opt_text(node.omarchy_version),
        info matches Ok(told) ==> (r.agent_version matches Some(version) && version@
            == told.agent_version@) && (r.omarchy_version matches Some(version) && version@
            == told.omarchy_version@),
{
    assert(r@.tailnet_node_id == node@.tailnet_node_id);
    assert(r@.name == node@.name);
    assert(r@.address == node@.address);
    assert(r@.connection == node@.connection);
    assert(r@.latency_ms == node@.latency_ms);
    assert(r@.is_local == node@.is_local);
}

/// The health of the agent decides how the probe goes on: it is asked for more exactly when it
/// answered, speaks the first protocol and is of this release line. One of another release is listed
/// as blocked; one that does not answer is listed, as unavailable as it was, only where all are
/// wanted.
pub proof fn law_only_a_compatible_agent_is_asked_for_more(
    node: DiscoveredNode,
    include_all: bool,
    health: PortResult<HealthResponse>,
    elapsed_micros: u128,
    r: ProbeStep,
)
    requires
        call_ensures(after_health, (node, include_all, &health, elapsed_micros), r),
    ensures
        r is Ask <==> (health matches Ok(told) && told.protocol == 1 && compatible_release(
            told.agent_version@,
        )),
        r is Skip <==> health is Err && !include_all,
        health is Err && include_all ==> r == ProbeStep::Done(node),
        (health is Ok && r matches ProbeStep::Done(seen)) ==> r->Done_0.status == NodeStatus::Blocked
            && r->Done_0.blockers@.len() == 1 && r->Done_0.blockers@[0].code
            == BlockerCode::Incompatible,
        health matches Ok(told) ==> ({
            let seen = if r is Ask {
                r->Ask_0
            } else {
                r->Done_0
            };
            &&& seen.agent_version matches Some(version) && version@ == told.agent_version@
            &&& node.is_local ==> seen.latency_ms == Some(0u32)
            &&& !node.is_local ==> (seen.latency_ms matches Some(shown) && shown >= 1 && (1
                < elapsed_micros as int / 1000 <= u32::MAX ==> shown as int == elapsed_micros as int
                / 1000))
            &&& seen.name@ == node.name@ && seen.address == node.address && seen.is_local
                == node.is_local
        }),
{
    if health matches Ok(told) {
        let seen = if r is Ask {
            r->Ask_0
        } else {
            r->Done_0
        };
        assert(seen.status == seen@.status);
        assert(seen@.blockers.len() == seen.blockers@.len());
        assert(opt_text(seen.agent_version) == seen@.agent_version);
        assert(seen.latency_ms == seen@.latency_ms);
        assert(seen.name@ == seen@.name);
        assert(seen.address == seen@.address);
        assert(seen.is_local == seen@.is_local);
        if seen.blockers@.len() > 0 && r is Done {
            assert(seen@.blockers[0] == seen.blockers@[0]@);
        }
    }
}

/// The latency shown grows with the time that passed, is never less than a millisecond for another
/// computer and nothing for this one.
pub proof fn law_latency_is_in_milliseconds(elapsed: u128, is_local: bool, r: u32, later: u128, s: u32)
    requires
        call_ensures(measured_latency_ms, (elapsed, is_local), r),
        call_ensures(measured_latency_ms, (later, is_local), s),
        elapsed <= later,
    ensures
        is_local ==> r == 0,
        !is_local ==> r >= 1,
        r <= s,
        !is_local && 1000 <= elapsed < 1000 * u32::MAX ==> r * 1000 <= elapsed < (r + 1) * 1000,
        !is_local && elapsed < 2000 ==> r == 1,
        !is_local && elapsed >= 1000 * u32::MAX ==> r == u32::MAX,
{
}

/// A machine is probed at the address that is preferred of its own, under its host name, else its
/// DNS name, else its identifier. Without an address it is never listed; offline, only where all are
/// wanted, and then as offline.
pub proof fn law_only_machines_that_are_there_are_asked(
    peer: MeshPeer,
    is_local: bool,
    include_all: bool,
    r: ProbeStep,
)
    requires
        call_ensures(probe_peer, (peer, is_local, include_all), r),
    ensures
        peer.ips@.len() == 0 ==> r is Skip,
        r is Ask ==> peer.online,
        r is Done ==> !peer.online && include_all && r->Done_0.status == NodeStatus::Offline,
        peer.ips@.len() > 0 && peer.online ==> r is Ask,
        peer.ips@.len() > 0 && !peer.online && include_all ==> r is Done,
        !peer.online && !include_all ==> r is Skip,
        r !is Skip ==> ({
            let node = if r is Ask {
                r->Ask_0
            } else {
                r->Done_0
            };
            &&& peer.ips@.contains(node.address)
            &&& node.is_local == is_local
            &&& node.tailnet_node_id@ == peer.tailnet_node_id@
            &&& peer.hostname matches Some(name) ==> node.name@ == name@
            &&& peer.hostname is None && peer.dns_name is Some ==> node.name@ == peer.dns_name->0@
            &&& peer.hostname is None && peer.dns_name is None ==> node.name@
                == peer.tailnet_node_id@
            &&& node.blockers@.len() == 0
            &&& r is Ask ==> node.status == NodeStatus::Unavailable
        }),
{
    law_the_preferred_address_is_one_of_them(peer.ips@);
    if r !is Skip {
        let node = if r is Ask {
            r->Ask_0
        } else {
            r->Done_0
        };
        assert(node.status == node@.status);
        assert(node.address == node@.address);
        assert(node.is_local == node@.is_local);
        assert(node.name@ == node@.name);
        assert(node.tailnet_node_id@ == node@.tailnet_node_id);
        assert(node.blockers@.len() == node@.blockers.len());
    }
}

/// A tailnet of up to 1024 machines is discovered, and no larger one. This computer is probed as a
/// machine that is there, under its own name.
pub proof fn law_a_discovery_starts_from_this_computer(
    local: MeshNodeIdentity,
    peer_count: usize,
    allowlist: PortResult<Vec<AllowedController>>,
    include_all: bool,
    r: PortResult<(MeshPeer, DiscoveryContext)>,
)
    requires
        call_ensures(plan_discovery, (local, peer_count, allowlist, include_all), r),
    ensures
        r is Ok <==> peer_count <= 1024,
        r matches Err(error) ==> error.code@ == "DISCOVERY_PEER_LIMIT"@ && !error.retryable,
        r matches Ok((peer, context)) ==> {
            &&& peer.online
            &&& peer.tailnet_node_id@ == local.tailnet_node_id@
            &&& peer.ips@ == local.addresses@
            &&& peer.connection == ConnectionKind::Direct
            &&& peer.latency_ms == Some(0u32)
            &&& context.include_all == include_all
            &&& local.hostname matches Some(name) ==> context.local_name@ == name@
            &&& local.hostname is None ==> context.local_name@ == local.tailnet_node_id@
            &&& allowlist is Err ==> context.allowlist@.len() == 0
            &&& allowlist matches Ok(list) ==> context.allowlist@ == list@
        },
{
    if let Ok((peer, context)) = r {
        assert(peer@.online == peer.online);
        assert(peer@.ips == peer.ips@);
        assert(peer@.connection == peer.connection);
        assert(peer@.latency_ms == peer.latency_ms);
    }
    if let Err(error) = r {
        assert(error@.code == error.code@);
        assert(error@.retryable == error.retryable);
    }
}

/// The list holds the same machines as before: this computer first, and of the others no name stands
/// before one that it follows.
pub proof fn law_the_list_is_by_name_with_this_computer_first(
    nodes: Vec<DiscoveredNode>,
    r: Vec<DiscoveredNode>,
)
    requires
        call_ensures(sort_nodes, (nodes,), r),
    ensures
        r@.to_multiset() == nodes@.to_multiset(),
        forall|i: int, j: int|
            0 <= i < j < r@.len() && (#[trigger] r@[j]).is_local ==> (#[trigger] r@[i]).is_local,
        forall|i: int, j: int|
            0 <= i < j < r@.len() && (#[trigger] r@[i]).is_local == (#[trigger] r@[j]).is_local
                ==> !text_before(r@[j].name@, r@[i].name@),
{
    let before = listed_before();
    assert forall|i: int, j: int|
        0 <= i < j < r@.len() && (#[trigger] r@[j]).is_local implies (#[trigger] r@[i]).is_local by {
        assert(!before(r@[j], r@[i]));
    }
    assert forall|i: int, j: int|
        0 <= i < j < r@.len() && (#[trigger] r@[i]).is_local == (#[trigger] r@[j]).is_local implies !text_before(
        r@[j].name@,
        r@[i].name@,
    ) by {
        assert(!before(r@[j], r@[i]));
    }
}

/// Only another machine that is ready can be connected to.
pub proof fn law_only_ready_machines_can_be_connected_to(node: DiscoveredNode, r: bool)
    requires
        call_ensures(DiscoveredNode::is_connectable, (&node,), r),
    ensures
        r <==> !node.is_local && node.status == NodeStatus::Ready,
{
}

/// Where releases differ, this computer is the one to mend exactly when the agent is its own or has a
/// later major or minor number; the fix names the release to install.
pub proof fn law_the_older_side_is_updated(
    remote_version: &str,
    remote_name: &str,
    is_local: bool,
    r: NodeBlocker,
)
    requires
        call_ensures(incompatible_blocker, (remote_version, remote_name, is_local), r),
    ensures
        r.code == BlockerCode::Incompatible,
        is_local ==> r.side == BlockerSide::Local && r.fix@
            == "Restart omdesky-agent so it runs Omdesky "@ + RELEASE@,
        !is_local ==> match (release_line(remote_version@), release_line(RELEASE@)) {
            (Some(remote), Some(local)) => r.side == BlockerSide::Local <==> remote.major > local.major
                || (remote.major == local.major && remote.minor > local.minor),
            _ => r.side == BlockerSide::Remote,
        },
        !is_local && r.side == BlockerSide::Local ==> r.fix@ == "Install Omdesky "@ + remote_version@
            + " on this computer"@,
        r.side == BlockerSide::Remote ==> r.fix@ == "Install Omdesky "@ + RELEASE@ + " on "@
            + remote_name@,
{
    assert(r@.code == r.code);
    assert(r@.side == r.side);
}

/// What a person is told names the machine and the fix, and where to carry it out.
pub proof fn law_a_message_says_where_to_mend(node_name: &str, blocker: NodeBlocker, r: String)
    requires
        call_ensures(blocker_message, (node_name, &blocker), r),
    ensures
        blocker.code == BlockerCode::Denied ==> r@ == node_name@
            + " does not allow this computer. Run `"@ + blocker.fix@ + "` on "@ + node_name@ + "."@,
        blocker.code == BlockerCode::NeedsAccess ==> r@
            == "This computer does not accept shortcuts from "@ + node_name@ + ". Run `"@ + blocker.fix@
            + "` here."@,
        blocker.code == BlockerCode::Incompatible ==> r@ == node_name@
            + " runs a different Omdesky release. "@ + blocker.fix@ + "."@,
{
}

/// A machine is first shown as it was found in the network, unavailable and with nothing known of
/// its agent; a status is then set as it is given.
pub proof fn law_a_machine_is_first_shown_as_it_was_found(
    peer: MeshPeer,
    name: String,
    address: IpAddr,
    is_local: bool,
    found: DiscoveredNode,
    status: NodeStatus,
    later: DiscoveredNode,
)
    requires
        call_ensures(DiscoveredNode::from_peer, (peer, name, address, is_local), found),
        call_ensures(DiscoveredNode::with_status, (found, status), later),
    ensures
        found@.tailnet_node_id == peer.tailnet_node_id@,
        found@.name == name@ && found@.address == address && found@.is_local == is_local,
        found@.connection == peer.connection && found@.latency_ms == peer.latency_ms,
        found@.status == NodeStatus::Unavailable && found@.blockers.len() == 0,
        found@.agent_version is None && found@.omarchy_version is None && found@.capabilities.len() == 0,
        later@.status == status && later@.name == name@ && later@.blockers.len() == 0,
{
    assert(peer@.tailnet_node_id == peer.tailnet_node_id@);
}

/// A machine is blocked by whatever blocks it, and ready where nothing does.
pub proof fn law_a_machine_is_blocked_by_its_blockers(node: DiscoveredNode, blockers: Vec<NodeBlocker>, r: DiscoveredNode)
    requires
        call_ensures(DiscoveredNode::with_blockers, (node, blockers), r),
    ensures
        r@.status == NodeStatus::Ready <==> blockers@.len() == 0,
        r@.status == NodeStatus::Blocked <==> blockers@.len() > 0,
        r@.blockers == blocker_views(blockers@),
        r@.name == node@.name && r@.address == node@.address,
{
    assert(blocker_views(blockers@).len() == blockers@.len());
}

} // verus!
