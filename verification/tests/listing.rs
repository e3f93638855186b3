use omdesky::access::known_identity;
use omdesky::agent_client::{sanitize_displays, sanitize_windows, sanitize_workspaces};
use omdesky::cli::{info_lines, workspace_lines};
use omdesky::domain::{
    ConnectionKind, Display, IpAddr, MeshPeer, Window, WindowId, Workspace, WorkspaceId,
};
use omdesky::ids::NodeId;
use omdesky::input::session_keybinds;
use omdesky::launcher::NodeIdentity;
use omdesky::moonlight::{launch_failure, version_failure, version_spec};
use omdesky::omarchy::parse_package_version;
use omdesky::ports::{MeshNodeIdentity, PortError};
use omdesky::process::{terminate_error, wait_result};
use omdesky::protocol::{HealthResponse, NodeInfoResponse, PROTOCOL};
use omdesky::release::RELEASE;
use omdesky::services::{
    device_after_health, device_after_info, probe_device, sort_devices, verify_agents,
    DeviceStatus, DeviceStep, DiscoveredNode,
};
use omdesky::startup::node_info;
use omdesky::sunshine::{pairing_credentials, SunshineCredentials};

fn peer(hostname: Option<&str>, dns_name: Option<&str>, online: bool) -> MeshPeer {
    MeshPeer {
        tailnet_node_id: "n1".to_owned(),
        dns_name: dns_name.map(str::to_owned),
        hostname: hostname.map(str::to_owned),
        ips: vec![IpAddr::V4(100, 64, 0, 7)],
        online,
        connection: ConnectionKind::Relay,
        latency_ms: Some(9),
    }
}

fn asked(step: DeviceStep) -> DiscoveredNode {
    match step {
        DeviceStep::Ask(node) => node,
        other => panic!("expected a question, got {other:?}"),
    }
}

fn listed(step: DeviceStep) -> DiscoveredNode {
    match step {
        DeviceStep::Done(node) => node,
        other => panic!("expected a device, got {other:?}"),
    }
}

fn device(name: &str, is_local: bool) -> DiscoveredNode {
    asked(probe_device(peer(Some(name), None, true), false, is_local))
}

fn info(capabilities: &[&str]) -> NodeInfoResponse {
    NodeInfoResponse {
        node_id: "node".to_owned(),
        hostname: "studio".to_owned(),
        omarchy_version: "4.0.1".to_owned(),
        agent_version: "0.2.0".to_owned(),
        protocol_versions: vec![PROTOCOL],
        capabilities: capabilities.iter().map(|name| (*name).to_owned()).collect(),
    }
}

fn window(workspace: i64, app_id: Option<&str>, title: Option<&str>) -> Window {
    Window {
        id: WindowId("w1".to_owned()),
        app_id: app_id.map(str::to_owned),
        class: None,
        title: title.map(str::to_owned),
        workspace: WorkspaceId(workspace),
        focused: false,
    }
}

#[test]
fn devices_are_named_by_host_then_dns_then_identity() {
    let by_host = asked(probe_device(peer(Some("studio"), Some("a.ts.net"), true), false, false));
    let by_dns = asked(probe_device(peer(None, Some("a.ts.net"), true), false, false));
    let by_identity = asked(probe_device(peer(None, None, true), false, false));

    assert_eq!(by_host.name, "studio");
    assert_eq!(by_dns.name, "a.ts.net");
    assert_eq!(by_identity.name, "n1");
}

#[test]
fn devices_that_are_off_are_listed_only_where_all_are() {
    assert_eq!(probe_device(peer(Some("off"), None, false), false, false), DeviceStep::Skip);
    let node = listed(probe_device(peer(Some("off"), None, false), true, false));

    assert_eq!(node.status, DeviceStatus::Offline);
    assert_eq!(node.connection, ConnectionKind::Relay);
}

#[test]
fn devices_without_an_address_are_not_listed() {
    let mut nowhere = peer(Some("nowhere"), None, true);
    nowhere.ips = Vec::new();

    assert_eq!(probe_device(nowhere, true, false), DeviceStep::Skip);
}

#[test]
fn devices_that_answer_are_ready_with_their_latency() {
    let health = Ok(HealthResponse {
        status: "ok".to_owned(),
        protocol: PROTOCOL,
        agent_version: RELEASE.to_owned(),
    });
    let node = asked(device_after_health(device("studio", false), false, &health, 7_400));

    assert_eq!(node.status, DeviceStatus::Ready);
    assert_eq!(node.latency_ms, Some(7));
}

#[test]
fn devices_of_another_protocol_or_release_are_incompatible() {
    let protocol = Ok(HealthResponse {
        status: "ok".to_owned(),
        protocol: PROTOCOL + 1,
        agent_version: RELEASE.to_owned(),
    });
    let release = Err(PortError::new("VERSION_INCOMPATIBLE", String::new(), false));

    for health in [protocol, release] {
        let node = listed(device_after_health(device("studio", false), false, &health, 0));
        assert_eq!(node.status, DeviceStatus::Incompatible);
    }
}

#[test]
fn devices_without_an_agent_are_listed_only_where_all_are() {
    let health = Err(PortError::new("AGENT_UNREACHABLE", String::new(), true));

    assert_eq!(
        device_after_health(device("studio", false), false, &health, 0),
        DeviceStep::Skip
    );
    let node = listed(device_after_health(device("studio", false), true, &health, 0));
    assert_eq!(node.status, DeviceStatus::AgentUnknown);
}

#[test]
fn device_details_come_from_its_agent() {
    let node = device_after_info(device("studio", false), Some(info(&["b", "a", "b"])));

    assert_eq!(node.agent_version.as_deref(), Some("0.2.0"));
    assert_eq!(node.omarchy_version.as_deref(), Some("4.0.1"));
    assert_eq!(node.capabilities.as_slice(), ["a", "b"]);
    assert_eq!(device_after_info(device("studio", false), None), device("studio", false));
}

#[test]
fn devices_are_listed_with_this_computer_first() {
    let nodes = sort_devices(vec![device("b", false), device("c", true), device("a", false)]);
    let names: Vec<&str> = nodes.iter().map(|node| node.name.as_str()).collect();

    assert_eq!(names, ["c", "a", "b"]);
}

#[test]
fn both_agents_have_to_answer() {
    assert!(verify_agents(true, true).is_ok());
    assert!(verify_agents(false, true).is_err());
    assert!(verify_agents(true, false).is_err());
}

#[test]
fn workspaces_list_their_own_windows() {
    let workspace = Workspace {
        id: WorkspaceId(2),
        name: Some("web".to_owned()),
        monitor: None,
        focused: false,
        windows: 1,
    };
    let windows = [
        window(1, Some("editor"), None),
        window(2, Some("browser"), Some("News")),
    ];
    let lines = workspace_lines(&workspace, &windows);

    assert_eq!(lines, ["2  web", "   News"]);
}

#[test]
fn a_node_is_described_in_two_lines() {
    assert_eq!(
        info_lines(&info(&[])),
        ["studio (node)", "Omarchy 4.0.1  ·  agent 0.2.0"]
    );
}

#[test]
fn lists_of_other_computers_are_safe_to_show() {
    let displays = sanitize_displays(vec![Display {
        id: "DP-1".to_owned(),
        name: "left\u{1b}[2J".to_owned(),
        width: 1920,
        height: 1080,
        refresh_bits: 60.0_f64.to_bits(),
        focused: true,
    }]);
    let windows = sanitize_windows(vec![window(1, Some("app\n"), Some("a\u{202e}b"))]);
    let workspaces = sanitize_workspaces(vec![Workspace {
        id: WorkspaceId(1),
        name: Some("one\r".to_owned()),
        monitor: Some("DP-1\t".to_owned()),
        focused: true,
        windows: 0,
    }]);

    let unsafe_char = |c: char| c.is_control() || c == '\u{202e}';
    assert!(!displays[0].name.contains(unsafe_char));
    assert_eq!(f64::from_bits(displays[0].refresh_bits), 60.0);
    assert!(!windows[0].title.as_deref().unwrap_or("\n").contains(unsafe_char));
    assert!(!windows[0].app_id.as_deref().unwrap_or("\n").contains(unsafe_char));
    assert!(!workspaces[0].name.as_deref().unwrap_or("\n").contains(unsafe_char));
}

#[test]
fn an_address_without_an_identity_is_unknown() {
    let identity = MeshNodeIdentity {
        tailnet_node_id: "n1".to_owned(),
        user: None,
        hostname: None,
        addresses: Vec::new(),
    };

    assert_eq!(known_identity(Some(identity)).expect("known"), "n1");
    assert_eq!(known_identity(None).expect_err("unknown").code, "PEER_IDENTITY_UNKNOWN");
}

#[test]
fn the_agent_describes_its_node() {
    let id = "11111111-2222-4333-8444-555555555555";
    let identity = NodeIdentity {
        node_id: NodeId::from_str(id).expect("identifier"),
    };
    let local = MeshNodeIdentity {
        tailnet_node_id: "n1".to_owned(),
        user: None,
        hostname: None,
        addresses: Vec::new(),
    };
    let omarchy = parse_package_version("omarchy 4.0.1-2\n").expect("supported version");
    let described = node_info(&identity, &local, &omarchy);

    assert_eq!(described.node_id, id);
    assert_eq!(described.hostname, "n1");
    assert_eq!(described.omarchy_version, "4.0.1");
    assert_eq!(described.agent_version, RELEASE);
    assert_eq!(described.protocol_versions, [PROTOCOL]);
    assert_eq!(described.capabilities.len(), 6);
}

#[test]
fn a_session_has_two_bindings() {
    let binds = session_keybinds();

    assert_eq!(binds.len(), 2);
    assert_eq!(binds[0].trigger, "SUPER + R");
    assert_eq!(binds[1].trigger, "SUPER + Q");
}

#[test]
fn failed_programs_keep_what_they_said() {
    let failed = || PortError::new("COMMAND_FAILED", "no such file".to_owned(), true);

    assert_eq!(version_spec().args, ["--version"]);
    let missing = version_failure(failed());
    assert_eq!((missing.code, missing.retryable), ("MOONLIGHT_NOT_INSTALLED", false));
    let launch = launch_failure(failed());
    assert_eq!((launch.code, launch.retryable), ("STREAM_START_FAILED", true));
    assert_eq!(launch.message, "no such file");
    assert_eq!(
        terminate_error("moonlight", "gone").message,
        "unable to terminate moonlight: gone"
    );
}

#[test]
fn a_process_without_a_status_counts_as_minus_one() {
    assert_eq!(wait_result(Ok(Some(3))), Ok(3));
    assert_eq!(wait_result(Ok(None)), Ok(-1));
    let error = wait_result(Err("gone".to_owned())).expect_err("failed");
    assert_eq!((error.code, error.message.as_str()), ("PROCESS_WAIT_FAILED", "gone"));
}

#[test]
fn a_pin_needs_the_credentials_of_this_computer() {
    let stored = SunshineCredentials {
        username: "admin".to_owned(),
        password: "password".to_owned(),
    };

    assert!(pairing_credentials(Ok(Some(stored))).is_ok());
    assert_eq!(
        pairing_credentials(Ok(None)).err().map(|error| error.code),
        Some("SUNSHINE_API_UNAVAILABLE")
    );
}
