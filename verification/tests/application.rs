use omdesky::access::{allowed, callback_access_error, missing_callback_capabilities, revoked, verify_callbacks};
use omdesky::discovery::{
    access_blockers, after_health, after_info, blocker_message, incompatible_blocker,
    measured_latency_ms, plan_discovery, probe_peer, sort_nodes, DiscoveredNode, DiscoveryContext,
    ProbeStep, MAX_DISCOVERY_PEERS,
};
use omdesky::domain::{
    BlockerCode, BlockerSide, ConnectionKind, ControlCapability, DisplayId, IpAddr, MeshPeer,
    NodeBlocker, NodeStatus, RemoteDesktopTopology, SessionGrant, WindowSelector,
};
use omdesky::follow_focus::FollowFocusRouter;
use omdesky::ids::SessionId;
use omdesky::ports::{AllowedController, MeshNodeIdentity, PortError};
use omdesky::protocol::{HealthResponse, NodeInfoResponse, PROTOCOL};
use omdesky::readiness;
use omdesky::release::{ReleaseLine, RELEASE};
use omdesky::services::{
    self, agent_health_failure, renewal_interval, renewal_request, wait_for_process_or_monitor,
    AgentMonitor, Watched, WindowSearch,
};
use omdesky::target::{display_name, find_peer, unique_name, PeerLookupError};

fn health(agent_version: &str) -> HealthResponse {
    HealthResponse {
        status: "ok".to_owned(),
        protocol: PROTOCOL,
        agent_version: agent_version.to_owned(),
    }
}

fn other_minor_release() -> String {
    let current = ReleaseLine::current().expect("current release parses");

    format!("{}.{}.0", current.major, current.minor + 1)
}

fn entry(id: &str, capabilities: &[ControlCapability]) -> AllowedController {
    AllowedController::new(id.to_owned(), None, 0, capabilities.to_vec())
}

fn refused(code: &'static str) -> PortError {
    PortError::new(code, "refused".to_owned(), false)
}

#[test]
fn test_port_error_displays_friendly_message_without_internal_details() {
    let error = PortError::new(
        "AGENT_UNREACHABLE",
        "error sending request for url (http://100.64.0.7:48155/v1/node)".to_owned(),
        true,
    );

    assert_eq!(
        error.user_message(),
        "This device could not be reached. Check that it is online and connected to Tailscale."
    );
    assert!(!error.user_message().contains("100.64.0.7"));
    assert_eq!(
        error.message,
        "error sending request for url (http://100.64.0.7:48155/v1/node)"
    );
}

#[test]
fn test_unknown_port_error_has_safe_fallback() {
    let error = PortError::new(
        "PRIVATE_BACKEND_FAILURE",
        "secret backend detail".to_owned(),
        false,
    );

    assert_eq!(
        error.user_message(),
        "Omdesky could not complete the operation. Please try again."
    );
    assert!(!error.user_message().contains("PRIVATE_BACKEND_FAILURE"));
    assert!(!error.user_message().contains("secret backend detail"));
}

#[test]
fn test_an_agent_from_the_same_release_line_is_compatible() {
    assert!(readiness::ensure_compatible_agent(&health(RELEASE)).is_ok());
}

#[test]
fn readiness_test_an_agent_from_another_release_line_is_incompatible() {
    let error = readiness::ensure_compatible_agent(&health(&other_minor_release()))
        .expect_err("another release line is refused");

    assert_eq!(error.code, "VERSION_INCOMPATIBLE");
}

#[test]
fn test_an_agent_speaking_another_protocol_is_incompatible() {
    let mut response = health(RELEASE);
    response.protocol = PROTOCOL + 1;

    assert!(readiness::ensure_compatible_agent(&response).is_err());
}

#[test]
fn readiness_test_ensure_controller_ready_rejects_inactive_local_agent() {
    let local_agent = Err(PortError::new(
        "AGENT_UNREACHABLE",
        "connection refused".to_owned(),
        true,
    ));

    let error = readiness::ensure_controller_ready(local_agent, true)
        .expect_err("inactive agent is rejected");

    assert_eq!(error.code, "LOCAL_AGENT_UNAVAILABLE");
}

#[test]
fn readiness_test_ensure_controller_ready_rejects_local_agent_from_another_release() {
    let local_agent = Ok(health(&other_minor_release()));

    let error = readiness::ensure_controller_ready(local_agent, true)
        .expect_err("an agent from another release is rejected");

    assert_eq!(error.code, "LOCAL_AGENT_INCOMPATIBLE");
    assert!(!error.retryable);
}

#[test]
fn readiness_test_ensure_controller_ready_rejects_missing_sunshine_configuration() {
    let error = readiness::ensure_controller_ready(Ok(health(RELEASE)), false)
        .expect_err("missing setup is rejected");

    assert_eq!(error.code, "LOCAL_SUNSHINE_UNCONFIGURED");
}

#[test]
fn readiness_test_ensure_controller_ready_accepts_configured_controller() {
    assert!(readiness::ensure_controller_ready(Ok(health(RELEASE)), true).is_ok());
}

fn peer(id: &str, hostname: &str, dns_name: &str, last_octet: u8) -> MeshPeer {
    MeshPeer {
        tailnet_node_id: id.to_owned(),
        dns_name: Some(dns_name.to_owned()),
        hostname: Some(hostname.to_owned()),
        ips: vec![IpAddr::V4(100, 64, 0, last_octet)],
        online: true,
        connection: ConnectionKind::Direct,
        latency_ms: None,
    }
}

fn tailnet() -> Vec<MeshPeer> {
    vec![
        peer("nHOPPE", "hoppe", "hoppe.tail1234.ts.net.", 2),
        peer("nAVELL", "avell", "avell.tail1234.ts.net.", 3),
        peer("nPOCO", "POCO X3 Pro", "poco-x3-pro.tail1234.ts.net.", 4),
    ]
}

fn found(target: &str) -> Result<String, PeerLookupError> {
    find_peer(&tailnet(), target, None).map(|peer| peer.tailnet_node_id.clone())
}

fn found_at(target: &str, address: IpAddr) -> Result<String, PeerLookupError> {
    find_peer(&tailnet(), target, Some(address)).map(|peer| peer.tailnet_node_id.clone())
}

#[test]
fn test_the_name_tailscale_shows_selects_the_device() {
    assert_eq!(found("hoppe"), Ok("nHOPPE".to_owned()));
    assert_eq!(found("avell"), Ok("nAVELL".to_owned()));
    assert_eq!(found("POCO X3 Pro"), Ok("nPOCO".to_owned()));
}

#[test]
fn test_names_ignore_letter_case() {
    assert_eq!(found("Hoppe"), Ok("nHOPPE".to_owned()));
    assert_eq!(found("poco x3 pro"), Ok("nPOCO".to_owned()));
}

#[test]
fn test_a_prefix_never_selects_a_device() {
    for target in ["hop", "hopp", "av", "hoppe.tail", "POCO", ""] {
        assert_eq!(found(target), Err(PeerLookupError::NotFound), "{target}");
    }
}

#[test]
fn test_the_magic_dns_name_selects_the_device() {
    assert_eq!(found("poco-x3-pro"), Ok("nPOCO".to_owned()));
    assert_eq!(found("hoppe.tail1234.ts.net"), Ok("nHOPPE".to_owned()));
    assert_eq!(found("hoppe.tail1234.ts.net."), Ok("nHOPPE".to_owned()));
}

#[test]
fn test_the_stable_node_id_and_address_select_the_device() {
    assert_eq!(found("nAVELL"), Ok("nAVELL".to_owned()));
    assert_eq!(
        found_at("100.64.0.2", IpAddr::V4(100, 64, 0, 2)),
        Ok("nHOPPE".to_owned())
    );
    assert_eq!(
        found_at("100.64.0.99", IpAddr::V4(100, 64, 0, 99)),
        Err(PeerLookupError::NotFound)
    );
}

#[test]
fn test_two_devices_with_the_same_name_are_ambiguous() {
    let mut peers = tailnet();
    peers.push(peer("nHOPPE2", "hoppe", "hoppe-1.tail1234.ts.net.", 9));

    assert_eq!(
        find_peer(&peers, "hoppe", None).map(|peer| peer.tailnet_node_id.clone()),
        Err(PeerLookupError::Ambiguous(vec![
            "hoppe.tail1234.ts.net".to_owned(),
            "hoppe-1.tail1234.ts.net".to_owned()
        ]))
    );
    assert_eq!(
        find_peer(&peers, "hoppe-1", None).map(|peer| peer.tailnet_node_id.clone()),
        Ok("nHOPPE2".to_owned())
    );
}

#[test]
fn test_offline_devices_are_still_found() {
    let mut peers = tailnet();
    peers[0].online = false;

    assert!(!find_peer(&peers, "hoppe", None).expect("found").online);
}

#[test]
fn names_come_from_the_hostname_and_the_dns_name() {
    let peers = tailnet();

    assert_eq!(display_name(&peers[2]), "POCO X3 Pro");
    assert_eq!(unique_name(&peers[2]), "poco-x3-pro.tail1234.ts.net");
}

#[test]
fn test_missing_callback_capabilities_reports_an_unlisted_device() {
    let allowlist = vec![entry("nOTHER", &ControlCapability::ALL)];

    assert_eq!(
        missing_callback_capabilities(&allowlist, "nREMOTE"),
        ControlCapability::CALLBACK.to_vec()
    );
}

#[test]
fn test_missing_callback_capabilities_reports_each_withheld_capability() {
    let allowlist = vec![entry("nREMOTE", &[ControlCapability::SendShortcut])];

    assert_eq!(
        missing_callback_capabilities(&allowlist, "nREMOTE"),
        vec![ControlCapability::CloseStream]
    );
}

#[test]
fn test_missing_callback_capabilities_accepts_a_device_with_the_callbacks() {
    let allowlist = vec![entry("nREMOTE", &ControlCapability::CALLBACK)];

    assert!(missing_callback_capabilities(&allowlist, "nREMOTE").is_empty());
    assert_eq!(verify_callbacks(&allowlist, "nREMOTE"), Ok(()));
}

#[test]
fn test_an_entry_without_capabilities_grants_no_callbacks() {
    let allowlist = vec![entry("nREMOTE", &[])];

    assert_eq!(
        missing_callback_capabilities(&allowlist, "nREMOTE"),
        ControlCapability::CALLBACK.to_vec()
    );
    assert_eq!(
        verify_callbacks(&allowlist, "nREMOTE"),
        Err(callback_access_error(&ControlCapability::CALLBACK))
    );
    assert_eq!(
        verify_callbacks(&allowlist, "nREMOTE").expect_err("refused").code,
        "CALLBACK_ACCESS_MISSING"
    );
}

#[test]
fn an_entry_is_replaced_and_taken_away_for_its_machine_alone() {
    let list = allowed(
        vec![entry("nA", &[]), entry("nB", &[ControlCapability::ReadMetadata])],
        entry("nA", &[ControlCapability::CloseStream]),
    );

    assert_eq!(list.len(), 2);
    assert!(list
        .iter()
        .any(|kept| kept.tailnet_node_id == "nA" && kept.allows(ControlCapability::CloseStream)));

    let list = revoked(list, "nA");
    assert_eq!(list.len(), 1);
    assert!(list[0].allows(ControlCapability::ReadMetadata));
}

fn context(allowlist: Vec<AllowedController>) -> DiscoveryContext {
    DiscoveryContext {
        allowlist,
        local_name: "desk-a".to_owned(),
        include_all: false,
    }
}

#[test]
fn test_a_device_allowed_in_both_directions_has_no_blockers() {
    let context = context(vec![entry("nREMOTE", &ControlCapability::CALLBACK)]);

    assert!(access_blockers(None, &context, "nREMOTE", "desk-b").is_empty());
}

#[test]
fn test_a_device_that_refuses_this_computer_is_denied_on_the_remote_side() {
    let context = context(vec![entry("nREMOTE", &ControlCapability::ALL)]);

    for code in ["UNAUTHORIZED", "CAPABILITY_DENIED"] {
        let blockers = access_blockers(Some(&refused(code)), &context, "nREMOTE", "desk-b");

        assert_eq!(
            blockers,
            vec![NodeBlocker {
                code: BlockerCode::Denied,
                side: BlockerSide::Remote,
                fix: "omdesky access allow desk-a".to_owned(),
            }],
            "{code}"
        );
    }
}

#[test]
fn test_a_device_this_computer_does_not_list_needs_local_access() {
    let blockers = access_blockers(None, &context(Vec::new()), "nREMOTE", "desk-b");

    assert_eq!(
        blockers,
        vec![NodeBlocker {
            code: BlockerCode::NeedsAccess,
            side: BlockerSide::Local,
            fix: "omdesky access allow desk-b".to_owned(),
        }]
    );
}

#[test]
fn test_both_missing_entries_are_reported_together() {
    let blockers = access_blockers(
        Some(&refused("UNAUTHORIZED")),
        &context(Vec::new()),
        "nREMOTE",
        "desk-b",
    );

    let codes = blockers
        .iter()
        .map(|blocker| blocker.code)
        .collect::<Vec<_>>();

    assert_eq!(codes, vec![BlockerCode::Denied, BlockerCode::NeedsAccess]);
}

#[test]
fn test_an_older_remote_release_is_fixed_on_the_remote_side() {
    let blocker = incompatible_blocker("0.0.1", "desk-b", false);

    assert_eq!(blocker.side, BlockerSide::Remote);
    assert_eq!(blocker.fix, format!("Install Omdesky {RELEASE} on desk-b"));
}

#[test]
fn test_a_newer_remote_release_is_fixed_on_this_computer() {
    let newer = other_minor_release();

    let blocker = incompatible_blocker(&newer, "desk-b", false);

    assert_eq!(blocker.side, BlockerSide::Local);
    assert_eq!(
        blocker.fix,
        format!("Install Omdesky {newer} on this computer")
    );
}

#[test]
fn test_an_unreadable_remote_release_is_fixed_on_the_remote_side() {
    assert_eq!(
        incompatible_blocker("unknown", "desk-b", false).side,
        BlockerSide::Remote
    );
}

#[test]
fn test_an_outdated_local_agent_is_fixed_by_restarting_it() {
    let blocker = incompatible_blocker("0.0.1", "desk-a", true);

    assert_eq!(blocker.side, BlockerSide::Local);
    assert!(blocker.fix.starts_with("Restart omdesky-agent"));
}

fn remote_peer() -> MeshPeer {
    MeshPeer {
        tailnet_node_id: "nREMOTE".to_owned(),
        dns_name: None,
        hostname: Some("desk-b".to_owned()),
        ips: Vec::new(),
        online: true,
        connection: ConnectionKind::Direct,
        latency_ms: None,
    }
}

fn remote_node() -> DiscoveredNode {
    DiscoveredNode::from_peer(
        remote_peer(),
        "desk-b".to_owned(),
        IpAddr::V4(100, 64, 0, 2),
        false,
    )
}

#[test]
fn test_blockers_decide_readiness() {
    let ready = remote_node().with_blockers(Vec::new());
    let blocked = remote_node().with_blockers(access_blockers(
        None,
        &context(Vec::new()),
        "nREMOTE",
        "desk-b",
    ));

    assert!(ready.is_connectable());
    assert_eq!(blocked.status, NodeStatus::Blocked);
    assert!(!blocked.is_connectable());
}

#[test]
fn test_blocker_message_says_where_to_run_the_fix() {
    let denied = NodeBlocker {
        code: BlockerCode::Denied,
        side: BlockerSide::Remote,
        fix: "omdesky access allow desk-a".to_owned(),
    };
    let needs_access = NodeBlocker {
        code: BlockerCode::NeedsAccess,
        side: BlockerSide::Local,
        fix: "omdesky access allow desk-b".to_owned(),
    };

    assert_eq!(
        blocker_message("desk-b", &denied),
        "desk-b does not allow this computer. Run `omdesky access allow desk-a` on desk-b."
    );
    assert_eq!(
        blocker_message("desk-b", &needs_access),
        "This computer does not accept shortcuts from desk-b. Run `omdesky access allow desk-b` here."
    );
}

#[test]
fn discovery_test_measured_latency_reports_zero_for_local_device() {
    assert_eq!(measured_latency_ms(500, true), 0);
}

#[test]
fn discovery_test_measured_latency_reports_at_least_one_millisecond_for_remote_device() {
    assert_eq!(measured_latency_ms(500, false), 1);
}

#[test]
fn discovery_test_measured_latency_preserves_remote_elapsed_milliseconds() {
    assert_eq!(measured_latency_ms(42_000, false), 42);
}

#[test]
fn services_test_measured_latency_reports_zero_for_local_device() {
    assert_eq!(measured_latency_ms(500, true), 0);
}

#[test]
fn services_test_measured_latency_reports_at_least_one_millisecond_for_remote_device() {
    assert_eq!(measured_latency_ms(500, false), 1);
}

#[test]
fn services_test_measured_latency_preserves_remote_elapsed_milliseconds() {
    assert_eq!(measured_latency_ms(37_000, false), 37);
}

#[test]
fn an_answering_device_is_asked_and_becomes_ready() {
    let ProbeStep::Ask(node) = probe_peer(peer("nREMOTE", "desk-b", "desk-b.ts.net.", 2), false, false)
    else {
        panic!("an online device is asked");
    };
    let ProbeStep::Ask(node) = after_health(node, false, &Ok(health(RELEASE)), 5_000) else {
        panic!("a compatible agent is asked for its details");
    };
    let info = NodeInfoResponse {
        node_id: "id".to_owned(),
        hostname: "desk-b".to_owned(),
        omarchy_version: "4.0.1".to_owned(),
        agent_version: RELEASE.to_owned(),
        protocol_versions: vec![1],
        capabilities: vec!["desktop.stream-host".to_owned()],
    };

    let node = after_info(
        node,
        RELEASE,
        Ok(info),
        &context(vec![entry("nREMOTE", &ControlCapability::ALL)]),
    );

    assert_eq!(node.status, NodeStatus::Ready);
    assert_eq!(node.latency_ms, Some(5));
    assert_eq!(node.omarchy_version.as_deref(), Some("4.0.1"));
    assert!(node.capabilities.contains("desktop.stream-host"));
    assert!(node.is_connectable());
}

#[test]
fn offline_devices_show_only_on_request() {
    let mut offline = peer("nREMOTE", "desk-b", "desk-b.ts.net.", 2);
    offline.online = false;
    assert_eq!(probe_peer(offline, false, false), ProbeStep::Skip);

    let mut offline = peer("nREMOTE", "desk-b", "desk-b.ts.net.", 2);
    offline.online = false;
    let ProbeStep::Done(node) = probe_peer(offline, false, true) else {
        panic!("an offline device is shown");
    };
    assert_eq!(node.status, NodeStatus::Offline);
}

#[test]
fn another_release_blocks_the_device() {
    let ProbeStep::Done(node) = after_health(remote_node(), false, &Ok(health("0.0.1")), 1) else {
        panic!("an incompatible agent is shown");
    };

    assert_eq!(node.status, NodeStatus::Blocked);
    assert_eq!(node.blockers.len(), 1);
    assert_eq!(node.blockers[0].code, BlockerCode::Incompatible);
}

fn local_identity() -> MeshNodeIdentity {
    MeshNodeIdentity {
        tailnet_node_id: "nLOCAL".to_owned(),
        user: None,
        hostname: Some("desk-a".to_owned()),
        addresses: vec![IpAddr::V4(100, 64, 0, 1)],
    }
}

#[test]
fn discovery_refuses_an_oversized_tailnet() {
    let error = plan_discovery(local_identity(), MAX_DISCOVERY_PEERS + 1, Ok(Vec::new()), false)
        .expect_err("too many peers");
    assert_eq!(error.code, "DISCOVERY_PEER_LIMIT");

    let (own, context) =
        plan_discovery(local_identity(), MAX_DISCOVERY_PEERS, Ok(Vec::new()), true).expect("a plan");
    assert_eq!(own.tailnet_node_id, "nLOCAL");
    assert_eq!(context.local_name, "desk-a");
    assert!(context.include_all);

    let (_, context) =
        plan_discovery(local_identity(), 0, Err(refused("ACCESS_STORE_FAILED")), false)
            .expect("an unreadable list counts as empty");
    assert!(context.allowlist.is_empty());
}

#[test]
fn devices_are_listed_in_order() {
    let mut local = remote_node();
    local.name = "zeta".to_owned();
    local.is_local = true;
    let mut first = remote_node();
    first.name = "alpha".to_owned();
    let mut second = remote_node();
    second.name = "beta".to_owned();

    let names: Vec<String> = sort_nodes(vec![second, local, first])
        .into_iter()
        .map(|node| node.name)
        .collect();

    assert_eq!(names, ["zeta", "alpha", "beta"]);
}

#[test]
fn test_agent_health_failure_identifies_local_agent() {
    let error = agent_health_failure(2, 0, 2).expect("local failure");

    assert_eq!(error.code, "LOCAL_AGENT_UNAVAILABLE");
}

#[test]
fn test_agent_health_failure_identifies_remote_agent() {
    let error = agent_health_failure(0, 2, 2).expect("remote failure");

    assert_eq!(error.code, "REMOTE_AGENT_UNAVAILABLE");
}

#[test]
fn test_agent_health_failure_accepts_healthy_agents() {
    assert!(agent_health_failure(0, 0, 2).is_none());
}

#[test]
fn test_agent_health_failure_tolerates_one_transient_failure() {
    assert!(agent_health_failure(1, 1, 2).is_none());
}

#[test]
fn two_missed_answers_in_a_row_end_the_stream() {
    let mut monitor = AgentMonitor::new();

    assert_eq!(monitor.monitor_agents(true, false), None);
    assert_eq!(monitor.monitor_agents(true, true), None);
    assert_eq!(monitor.monitor_agents(true, false), None);
    assert_eq!(
        monitor.monitor_agents(true, false).expect("a failure").code,
        "REMOTE_AGENT_UNAVAILABLE"
    );
}

#[test]
fn services_test_ensure_controller_ready_rejects_inactive_local_agent() {
    let local_agent = Err(PortError::new(
        "AGENT_UNREACHABLE",
        "connection refused".to_owned(),
        true,
    ));

    let error = services::ensure_controller_ready(local_agent, true)
        .expect_err("inactive agent is rejected");

    assert_eq!(error.code, "LOCAL_AGENT_UNAVAILABLE");
}

#[test]
fn services_test_ensure_controller_ready_rejects_local_agent_from_another_release() {
    let local_agent = Err(PortError::new(
        "VERSION_INCOMPATIBLE",
        "the device runs Omdesky 0.1.1".to_owned(),
        false,
    ));

    let error = services::ensure_controller_ready(local_agent, true)
        .expect_err("an agent from another release is rejected");

    assert_eq!(error.code, "LOCAL_AGENT_INCOMPATIBLE");
    assert!(!error.retryable);
}

#[test]
fn services_test_ensure_controller_ready_rejects_missing_sunshine_configuration() {
    let error =
        services::ensure_controller_ready(Ok(()), false).expect_err("missing setup is rejected");

    assert_eq!(error.code, "LOCAL_SUNSHINE_UNCONFIGURED");
}

#[test]
fn services_test_ensure_controller_ready_accepts_configured_controller() {
    assert!(services::ensure_controller_ready(Ok(()), true).is_ok());
}

#[test]
fn a_lease_is_renewed_well_before_it_ends() {
    assert_eq!(renewal_interval(45), 15);
    assert_eq!(renewal_interval(3), 2);

    let grant = SessionGrant {
        id: SessionId(9),
        generation: 4,
        lease_seconds: 45,
    };
    assert_eq!(renewal_request(&grant).session, Some(grant.claim()));
}

#[test]
fn a_window_that_never_shows_is_found_by_its_class() {
    let mut search = WindowSearch::new();
    let address = WindowSelector::Address("0x55".to_owned());

    assert_eq!(search.locate_stream_window(Ok(None)), None);
    assert_eq!(
        search.locate_stream_window(Ok(Some(address.clone()))),
        Some(address)
    );

    let mut search = WindowSearch::new();
    let mut last = None;
    for _ in 0..services::STREAM_WINDOW_LOOKUP_ATTEMPTS {
        assert_eq!(last, None);
        last = search.locate_stream_window(Ok(None));
    }
    assert_eq!(last, Some(services::fallback_window()));
}

fn topology(displays: &[&str], focused: Option<&str>) -> RemoteDesktopTopology {
    RemoteDesktopTopology::new(
        displays.iter().map(|id| DisplayId::from_text(id)).collect(),
        focused.map(DisplayId::from_text),
    )
}

fn router(streamed: &str) -> FollowFocusRouter {
    FollowFocusRouter::new(Some(DisplayId::from_text(streamed)), 150)
}

#[test]
fn test_same_display_focus_does_not_switch() {
    let mut router = router("eDP-1");

    router.reevaluate(&topology(&["eDP-1", "DP-2"], Some("eDP-1")), 0);

    assert_eq!(router.switch_at(), None);
    assert_eq!(router.commit_pending(), None);
}

#[test]
fn test_focus_change_switches_once() {
    let mut router = router("eDP-1");
    let focused = topology(&["eDP-1", "DP-2"], Some("DP-2"));

    router.reevaluate(&focused, 0);
    assert_eq!(router.switch_at(), Some(150));

    let target = router.commit_pending().expect("a switch");
    assert_eq!(target, DisplayId::from_text("DP-2"));
    assert_eq!(router.switched(target, true), None);
    assert_eq!(router.streamed(), Some(&DisplayId::from_text("DP-2")));

    router.reevaluate(&focused, 300);
    assert_eq!(router.commit_pending(), None);
}

#[test]
fn test_duplicate_event_does_not_switch_twice() {
    let mut router = router("eDP-1");
    let focused = topology(&["eDP-1", "DP-2"], Some("DP-2"));

    router.reevaluate(&focused, 0);
    router.reevaluate(&focused, 10);
    assert_eq!(router.switch_at(), Some(160));

    let target = router.commit_pending().expect("a switch");
    router.switched(target, true);
    assert_eq!(router.commit_pending(), None);
}

#[test]
fn test_rapid_changes_back_to_origin_are_deduplicated() {
    let mut router = router("eDP-1");

    router.reevaluate(&topology(&["eDP-1", "DP-2"], Some("DP-2")), 0);
    router.reevaluate(&topology(&["eDP-1", "DP-2"], Some("eDP-1")), 10);

    assert_eq!(router.switch_at(), None);
    assert_eq!(router.commit_pending(), None);
}

#[test]
fn test_switch_failure_keeps_session_and_allows_retry() {
    let mut router = router("eDP-1");
    let focused = topology(&["eDP-1", "DP-2"], Some("DP-2"));

    router.reevaluate(&focused, 0);
    let target = router.commit_pending().expect("a switch");
    let notice = router.switched(target, false).expect("a notice");
    assert_eq!(notice.summary, "Omdesky");
    assert_eq!(router.streamed(), Some(&DisplayId::from_text("eDP-1")));

    router.reevaluate(&focused, 300);
    let target = router.commit_pending().expect("another try");
    assert_eq!(target, DisplayId::from_text("DP-2"));
    assert_eq!(router.switched(target, true), None);
}

#[test]
fn test_disappearing_display_falls_back_to_focused_monitor() {
    let mut router = router("DP-2");

    router.reevaluate(&topology(&["eDP-1"], Some("eDP-1")), 0);

    assert_eq!(router.commit_pending(), Some(DisplayId::from_text("eDP-1")));
}

#[test]
fn test_wait_for_process_or_monitor_terminates_stream_on_health_failure() {
    let failure = PortError::new("LOCAL_AGENT_UNAVAILABLE", "agent stopped".to_owned(), true);

    let end = wait_for_process_or_monitor(Watched::Unhealthy(failure));

    assert_eq!(
        end.result.expect_err("monitor failure ends session").code,
        "LOCAL_AGENT_UNAVAILABLE"
    );
    assert!(end.terminate);
}

#[test]
fn a_stream_that_ended_is_not_terminated() {
    let end = wait_for_process_or_monitor(Watched::Exited(Ok(3)));
    assert_eq!((end.terminate, end.result), (false, Ok(3)));

    let failed = || PortError::new("PROCESS_WAIT_FAILED", "gone".to_owned(), false);
    let end = wait_for_process_or_monitor(Watched::Exited(Err(failed())));
    assert_eq!((end.terminate, end.result), (false, Err(failed())));
}
