use omdesky::cli::{
    access_line, after_prompt, client_name, connect_request, device_line, disconnect_plan,
    explicit_endpoint, identity_of_address, input_status, parse_capabilities, parse_modifiers,
    parse_workspace_target, provision_sunshine_credentials, remote_command, resolve_endpoint,
    resolve_tailnet_identity, session_line, stream_profile_of, window_line, window_selector,
    CommandAction, ConnectArgs, ProvisionStep,
};
use omdesky::config::Config;
use omdesky::connect::{ConnectAction, ConnectNode, ConnectReply, ConnectRequest};
use omdesky::discovery::DiscoveredNode;
use omdesky::doctor::{
    access_check, agent_check, agent_service_check, devices_check, expected_agent,
    parent_directory, report, report_line, run, sunshine_pairing_check, Check, Findings, ServicePaths, Status,
};
use omdesky::domain::{
    BlockerCode, BlockerSide, CodecPreference, ConnectionKind, ControlCapability, DomainError,
    InputMode, IpAddr, KeyModifier, MeshPeer, NodeBlocker, NodeCapabilities, NodeStatus,
    RemoteCommand, SessionGrant, StreamProfile, Window, WindowId, WindowSelector, WorkspaceId,
    WorkspaceTarget,
};
use omdesky::ids::SessionId;
use omdesky::pair::{PairAction, PairReply, PairStream};
use omdesky::ports::{
    AgentEndpoint, AllowedController, PairingState, PendingPairing, PortError,
};
use omdesky::protocol::{
    CommandResponse, HealthResponse, SunshinePairChallengeResponse, SunshineStatusResponse,
    PROTOCOL,
};
use omdesky::release::RELEASE;
use omdesky::services::{DeviceStatus, DiscoveredNode as Device};
use omdesky::session_record::{SessionRecord, SupervisedProcess};

fn health(agent_version: &str) -> HealthResponse {
    HealthResponse {
        status: "ok".to_owned(),
        protocol: PROTOCOL,
        agent_version: agent_version.to_owned(),
    }
}

fn node(name: &str, blockers: Vec<NodeBlocker>) -> DiscoveredNode {
    DiscoveredNode {
        tailnet_node_id: format!("n{name}"),
        name: name.to_owned(),
        address: IpAddr::V4(100, 64, 0, 2),
        status: if blockers.is_empty() {
            NodeStatus::Ready
        } else {
            NodeStatus::Blocked
        },
        blockers,
        connection: ConnectionKind::Direct,
        latency_ms: Some(3),
        agent_version: None,
        omarchy_version: None,
        capabilities: NodeCapabilities::default(),
        is_local: false,
    }
}

#[test]
fn test_a_missing_agent_fails() {
    assert_eq!(agent_check(None, 48155).status, Status::Fail);
}

#[test]
fn test_an_agent_from_another_release_fails_with_a_restart_hint() {
    let check = agent_check(Some(&health("99.0.0")), 48155);

    assert_eq!(check.status, Status::Fail);
    assert!(check.message.contains("systemctl --user restart"));
}

#[test]
fn test_a_matching_agent_passes() {
    assert_eq!(
        agent_check(Some(&health(RELEASE)), 48155).status,
        Status::Pass
    );
}

fn paths(service: &str, current_exe: &str) -> ServicePaths {
    ServicePaths {
        service: service.to_owned(),
        canonical_service: service.to_owned(),
        current_exe: Some(current_exe.to_owned()),
        canonical_expected: expected_agent(current_exe),
    }
}

#[test]
fn the_agent_is_expected_beside_the_command() {
    let expected = |path: &str| expected_agent(path);

    assert_eq!(expected("/usr/bin/omdesky").as_deref(), Some("/usr/bin/omdesky-agent"));
    assert_eq!(expected("/usr/bin/").as_deref(), Some("/usr/omdesky-agent"));
    assert_eq!(expected("/a//b").as_deref(), Some("/a/omdesky-agent"));
    assert_eq!(expected("/a/./b/.").as_deref(), Some("/a/omdesky-agent"));
    assert_eq!(expected("//a").as_deref(), Some("/omdesky-agent"));
    assert_eq!(expected("./a").as_deref(), Some("./omdesky-agent"));
    assert_eq!(expected("omdesky").as_deref(), Some("omdesky-agent"));
    assert_eq!(expected("/"), None);
    assert_eq!(expected(""), None);
}

#[test]
fn directories_are_those_of_the_standard_library() {
    for path in [
        "", "/", "//", "///", ".", "..", "./", "/.", "/..", "a", "a/", "a//", "a/.", "a/..", "a/b",
        "./a", "././a", "/a", "//a", "/a/", "/a//b", "/a/./b", "/a/b/.", "/a/b/./", "/./a", "/.a",
        "a/.b", "a.", "/a./b.", "../a", "/a/../b//",
    ] {
        let directory = std::path::Path::new(path)
            .parent()
            .map(|parent| parent.display().to_string());

        assert_eq!(parent_directory(path), directory, "{path:?}");
    }
}

#[test]
fn test_a_service_from_another_installation_warns() {
    let check = agent_service_check(Some(paths(
        "/usr/bin/omdesky-agent",
        "/home/user/.local/bin/omdesky",
    )));

    assert_eq!(check.status, Status::Warn);
    assert!(check.message.contains("/usr/bin/omdesky-agent"));
}

#[test]
fn test_a_service_from_the_same_installation_passes() {
    let check = agent_service_check(Some(paths(
        "/opt/omdesky/omdesky-agent",
        "/opt/omdesky/omdesky",
    )));

    assert_eq!(check.status, Status::Pass);
}

#[test]
fn test_a_missing_service_warns() {
    assert_eq!(agent_service_check(None).status, Status::Warn);
}

#[test]
fn test_an_empty_allowlist_warns() {
    assert_eq!(access_check(Some(&[])).status, Status::Warn);
}

#[test]
fn test_entries_without_capabilities_are_named() {
    let entry =
        AllowedController::new("nOLD".to_owned(), Some("desk-old".to_owned()), 0, Vec::new());

    let check = access_check(Some(&[entry]));

    assert_eq!(check.status, Status::Warn);
    assert!(check.message.contains("desk-old"));
}

#[test]
fn test_blocked_devices_are_reported_with_their_fix() {
    let blocker = NodeBlocker {
        code: BlockerCode::NeedsAccess,
        side: BlockerSide::Local,
        fix: "omdesky access allow desk-b".to_owned(),
    };
    let devices = [node("desk-b", vec![blocker]), node("desk-c", Vec::new())];

    let check = devices_check(Ok(&devices));

    assert_eq!(check.status, Status::Warn);
    assert!(check.message.contains("omdesky access allow desk-b"));
}

#[test]
fn test_ready_devices_pass() {
    let devices = [node("desk-b", Vec::new())];

    let check = devices_check(Ok(&devices));

    assert_eq!(check, Check::pass("1 of 1 device(s) ready".to_owned()));
}

#[test]
fn a_report_fails_when_a_check_does() {
    let findings = Findings {
        omarchy: None,
        tailscale: None,
        hyprland: Some("no socket".to_owned()),
        sunshine: None,
        credentials: Ok(true),
        health: Some(health(RELEASE)),
        port: 48155,
        service: None,
        allowlist: Some(Vec::new()),
        devices: Ok(Vec::new()),
    };

    let checks = run(findings);

    assert!(checks.iter().any(|(_, check)| check.status == Status::Fail));
    assert!(report(&checks).is_err());
    assert!(report(&vec![("agent", Check::pass("fine".to_owned()))]).is_ok());
    assert!(report_line("agent", &Check::warn("slow".to_owned())).contains("slow"));
    assert_eq!(sunshine_pairing_check(Err(())).status, Status::Fail);
    assert_eq!(Status::Pass.as_str().len(), 4);
}

#[test]
fn workspaces_are_named_or_numbered() {
    assert_eq!(
        parse_workspace_target("7"),
        WorkspaceTarget::Id(WorkspaceId(7))
    );
    assert_eq!(
        parse_workspace_target("-3"),
        WorkspaceTarget::Id(WorkspaceId(-3))
    );
    assert_eq!(
        parse_workspace_target("code"),
        WorkspaceTarget::Name("code".to_owned())
    );
}

#[test]
fn modifiers_are_read_in_any_form() {
    assert_eq!(
        parse_modifiers("CTRL ALT SHIFT"),
        Ok(vec![KeyModifier::Ctrl, KeyModifier::Alt, KeyModifier::Shift])
    );
    assert!(parse_modifiers("hyper").is_err());
}

#[test]
fn capabilities_are_read_by_name() {
    assert_eq!(
        parse_capabilities(&[]),
        Ok(ControlCapability::ALL.to_vec())
    );
    assert_eq!(
        parse_capabilities(&["send_shortcut".to_owned(), "close_stream".to_owned()]),
        Ok(ControlCapability::CALLBACK.to_vec())
    );
    let error = parse_capabilities(&["root".to_owned()]).expect_err("unknown");
    assert!(error.starts_with("unknown capability 'root'; expected one of read_metadata, "));
}

#[test]
fn only_valid_commands_are_sent() {
    let command = remote_command(CommandAction::SendShortcut {
        mods: "CTRL ALT SHIFT".to_owned(),
        key: "Z".to_owned(),
        window_class: Some("foot".to_owned()),
        window_address: None,
    })
    .expect("a command");
    assert_eq!(command.kind(), "send_shortcut");
    assert_eq!(command.validate(), Ok(()));

    let error = remote_command(CommandAction::SendShortcut {
        mods: "CTRL".to_owned(),
        key: "Z; rm".to_owned(),
        window_class: None,
        window_address: None,
    })
    .expect_err("an unsafe key");
    assert!(!error.message().is_empty());

    assert!(remote_command(CommandAction::CloseWindow {
        window_class: Some("a b".to_owned()),
        window_address: None,
    })
    .is_err());
    assert!(matches!(
        remote_command(CommandAction::SwitchDisplay {
            display: "DP-2".to_owned()
        }),
        Ok(RemoteCommand::SwitchStreamDisplay { .. })
    ));
    assert_eq!(
        window_selector(None, None),
        WindowSelector::ActiveWindow
    );
    assert_eq!(
        WindowSelector::Class("a b".to_owned()).validate(),
        Err(DomainError::InvalidWindowSelector)
    );
}

fn peer(id: &str, hostname: &str, last_octet: u8) -> MeshPeer {
    MeshPeer {
        tailnet_node_id: id.to_owned(),
        dns_name: None,
        hostname: Some(hostname.to_owned()),
        ips: vec![IpAddr::V4(100, 64, 0, last_octet)],
        online: true,
        connection: ConnectionKind::Direct,
        latency_ms: None,
    }
}

#[test]
fn targets_are_resolved_to_agents() {
    let peers = vec![peer("nA", "desk-a", 2), peer("nB", "desk-b", 3)];
    let config = Config::default();

    assert_eq!(
        resolve_endpoint("desk-b", None, &config, &peers),
        Ok(AgentEndpoint {
            address: IpAddr::V4(100, 64, 0, 3),
            port: 48155
        })
    );
    assert_eq!(
        resolve_endpoint("100.64.0.9", Some(IpAddr::V4(100, 64, 0, 9)), &config, &peers)
            .expect("an address")
            .address,
        IpAddr::V4(100, 64, 0, 9)
    );
    assert!(resolve_endpoint("nobody", None, &config, &peers).is_err());
    assert_eq!(explicit_endpoint(None, Some(1)), None);
    assert_eq!(resolve_tailnet_identity("desk-a", &peers), Ok("nA".to_owned()));
    assert!(resolve_tailnet_identity("nobody", &peers).is_err());
    assert!(identity_of_address(None).is_err());
}

fn args() -> ConnectArgs {
    ConnectArgs {
        target: "desk-b".to_owned(),
        workspace: Some("2".to_owned()),
        window: None,
        app_id: None,
        width: 1920,
        height: 1080,
        fps: 60,
        codec: CodecPreference::Auto,
        bitrate: Some(25),
        fullscreen: false,
        windowed: false,
        input: InputMode::Remote,
        no_audio: true,
    }
}

fn endpoint(last_octet: u8) -> AgentEndpoint {
    AgentEndpoint {
        address: IpAddr::V4(100, 64, 0, last_octet),
        port: 48155,
    }
}

#[test]
fn arguments_make_a_connection() {
    let profile = stream_profile_of(&args(), 0).expect("a valid profile");
    assert_eq!(profile.bitrate_kbps, Some(25_000));
    assert!(!profile.audio);
    let request = connect_request(&args(), profile, endpoint(3), endpoint(2));
    assert_eq!(
        request.focus_workspace,
        Some(WorkspaceTarget::Id(WorkspaceId(2)))
    );
    assert_eq!(request.endpoint, endpoint(3));

    let mut wrong = args();
    wrong.fps = 1;
    assert!(stream_profile_of(&wrong, 0).is_err());
}

#[test]
fn lines_tell_what_there_is() {
    let entry = AllowedController::new(
        "nA".to_owned(),
        Some("desk".to_owned()),
        0,
        vec![ControlCapability::ReadMetadata],
    );
    assert!(access_line(&entry).contains("read_metadata"));

    let device = Device {
        tailnet_node_id: "nB".to_owned(),
        name: "desk-b".to_owned(),
        address: IpAddr::V4(100, 64, 0, 3),
        status: DeviceStatus::Ready,
        connection: ConnectionKind::Direct,
        latency_ms: Some(4),
        agent_version: None,
        omarchy_version: None,
        capabilities: NodeCapabilities::default(),
        is_local: false,
    };
    assert!(device_line(&device).contains("desk-b"));

    let window = Window {
        id: WindowId("0x55".to_owned()),
        app_id: None,
        class: None,
        title: Some("main".to_owned()),
        workspace: WorkspaceId(1),
        focused: false,
    };
    assert_eq!(window_line(&window), "1\t—\tmain");
    assert_eq!(client_name(Some("desk".to_owned())), "desk");
    assert!(!client_name(None).is_empty());
}

#[test]
fn a_session_is_ended_by_its_process() {
    let stat = format!("7 (moonlight) S {}99", "0 ".repeat(18));
    let mut record = SessionRecord::new("desk-b".to_owned(), InputMode::Remote);
    assert!(session_line(&record).contains("desk-b"));
    assert!(input_status(Some(&record)).contains("remote"));
    assert!(!input_status(None).is_empty());
    assert_eq!(disconnect_plan(&record, Some(&stat)).signal, None);

    record.moonlight = Some(SupervisedProcess {
        pid: 7,
        start_ticks: 99,
    });
    assert_eq!(disconnect_plan(&record, Some(&stat)).signal, Some(7));
    assert_eq!(disconnect_plan(&record, None).signal, None);
}

#[test]
fn credentials_come_from_the_environment_or_a_prompt() {
    assert!(matches!(
        provision_sunshine_credentials(true, None, None, true),
        ProvisionStep::Done(_)
    ));
    assert!(matches!(
        provision_sunshine_credentials(false, Some("a".to_owned()), Some("b".to_owned()), false),
        ProvisionStep::Store { username, password } if username == "a" && password == "b"
    ));
    assert!(matches!(
        provision_sunshine_credentials(false, None, None, true),
        ProvisionStep::Prompt
    ));
    assert!(matches!(
        provision_sunshine_credentials(false, None, None, false),
        ProvisionStep::Done(_)
    ));
    assert!(matches!(
        after_prompt("a".to_owned(), "b".to_owned()),
        ProvisionStep::Store { .. }
    ));
}

fn sunshine(ready: bool) -> SunshineStatusResponse {
    SunshineStatusResponse {
        installed: true,
        running: true,
        ready,
        desktop_app: None,
        pairing_api_available: true,
    }
}

fn failed(code: &'static str) -> PortError {
    PortError::new(code, "failed".to_owned(), true)
}

fn request(input_mode: InputMode) -> ConnectRequest {
    ConnectRequest {
        endpoint: endpoint(3),
        controller_endpoint: endpoint(2),
        profile: StreamProfile::default(),
        fullscreen: true,
        input_mode,
        focus_workspace: None,
        focus_window: None,
        auto_pair: false,
    }
}

fn launched(input_mode: InputMode) -> ConnectNode {
    let mut node = ConnectNode::new(request(input_mode));
    assert_eq!(node.action(), ConnectAction::AskStatus);
    node.reply(ConnectReply::Status(Ok(sunshine(true))));
    assert!(matches!(
        node.action(),
        ConnectAction::AskPairingState(host) if host.application == "Desktop"
    ));
    node.reply(ConnectReply::PairingState(Ok(PairingState::Paired)));
    assert_eq!(node.action(), ConnectAction::AskAgents);
    node.reply(ConnectReply::Agents {
        local: true,
        remote: true,
    });
    assert!(matches!(node.action(), ConnectAction::Launch(_)));
    node.reply(ConnectReply::Launched(Ok(Some(7))));
    node
}

#[test]
fn a_remote_session_is_attached_and_taken_back() {
    let mut node = launched(InputMode::Remote);
    let window = WindowSelector::Address("0x55".to_owned());
    let grant = SessionGrant {
        id: SessionId(9),
        generation: 1,
        lease_seconds: 45,
    };

    assert_eq!(node.action(), ConnectAction::LocateWindow(Some(7)));
    node.reply(ConnectReply::Window(window));
    assert!(matches!(node.action(), ConnectAction::InstallKeybinds(_)));
    node.reply(ConnectReply::Done(Ok(())));
    assert!(matches!(node.action(), ConnectAction::Attach(_)));
    node.reply(ConnectReply::Command(Ok(CommandResponse::granted(grant))));
    assert_eq!(node.grant(), Some(grant));
    assert!(matches!(node.action(), ConnectAction::Notify(_)));
    node.reply(ConnectReply::Done(Ok(())));
    assert_eq!(node.action(), ConnectAction::RecordStart(Some(7)));
    node.reply(ConnectReply::Done(Ok(())));
    assert_eq!(node.action(), ConnectAction::Supervise);
    node.reply(ConnectReply::Exited(Ok(3)));
    assert_eq!(node.action(), ConnectAction::ClearKeybinds);
    node.reply(ConnectReply::Done(Err(failed("HYPRLAND_UNAVAILABLE"))));
    assert_eq!(node.action(), ConnectAction::Detach(grant.claim()));
    node.reply(ConnectReply::Command(Ok(CommandResponse::executed())));
    assert!(matches!(node.action(), ConnectAction::Notify(_)));
    node.reply(ConnectReply::Done(Ok(())));
    assert_eq!(node.action(), ConnectAction::Finish(Ok(3)));
}

#[test]
fn a_refused_session_still_streams() {
    let mut node = launched(InputMode::Remote);
    node.reply(ConnectReply::Window(WindowSelector::ActiveWindow));
    node.reply(ConnectReply::Done(Ok(())));
    node.reply(ConnectReply::Command(Err(failed("SESSION_ALREADY_OWNED"))));
    assert_eq!(node.action(), ConnectAction::ClearKeybinds);
    node.reply(ConnectReply::Done(Ok(())));
    assert!(matches!(node.action(), ConnectAction::Notify(_)));
    node.reply(ConnectReply::Done(Ok(())));
    assert_eq!(node.action(), ConnectAction::RecordStart(Some(7)));
    assert_eq!(node.grant(), None);
}

#[test]
fn local_input_needs_no_session() {
    let mut node = launched(InputMode::Local);
    assert_eq!(node.action(), ConnectAction::RecordStart(Some(7)));
    node.reply(ConnectReply::Done(Ok(())));
    node.reply(ConnectReply::Exited(Err(failed("COMMAND_FAILED"))));
    assert_eq!(
        node.action(),
        ConnectAction::Finish(Err(failed("COMMAND_FAILED")))
    );
}

#[test]
fn a_connection_is_refused_where_something_is_missing() {
    let mut unready = ConnectNode::new(request(InputMode::Local));
    unready.reply(ConnectReply::Status(Ok(sunshine(false))));
    assert!(matches!(
        unready.action(),
        ConnectAction::Finish(Err(error)) if error.code == "SUNSHINE_NOT_READY"
    ));

    let mut unpaired = ConnectNode::new(request(InputMode::Local));
    unpaired.reply(ConnectReply::Status(Ok(sunshine(true))));
    unpaired.reply(ConnectReply::PairingState(Ok(PairingState::Required)));
    assert!(matches!(
        unpaired.action(),
        ConnectAction::Finish(Err(error)) if error.code == "MOONLIGHT_PAIRING_REQUIRED"
    ));

    let mut alone = ConnectNode::new(request(InputMode::Local));
    alone.reply(ConnectReply::Status(Ok(sunshine(true))));
    alone.reply(ConnectReply::PairingState(Ok(PairingState::Paired)));
    alone.reply(ConnectReply::Agents {
        local: true,
        remote: false,
    });
    assert!(matches!(
        alone.action(),
        ConnectAction::Finish(Err(error)) if error.code == "REMOTE_AGENT_UNAVAILABLE"
    ));
    alone.reply(ConnectReply::Launched(Ok(None)));
    assert!(matches!(alone.action(), ConnectAction::Finish(Err(_))));
}

#[test]
fn computers_are_paired_with_a_pin_and_a_challenge() {
    let mut pair = PairStream::new(IpAddr::V4(100, 64, 0, 3), "desk-a".to_owned());
    assert!(matches!(pair.action(), PairAction::AskPairingState(_)));
    pair.reply(PairReply::PairingState(Ok(PairingState::Required)));
    assert!(matches!(pair.action(), PairAction::AskStatus));
    pair.reply(PairReply::Status(Ok(sunshine(true))));
    assert!(matches!(pair.action(), PairAction::AskChallenge));
    pair.reply(PairReply::Challenge(Ok(SunshinePairChallengeResponse {
        pairing_id: "ab-12".to_owned(),
        expires_in_seconds: 120,
    })));
    assert!(matches!(pair.action(), PairAction::BeginPairing(_)));
    pair.reply(PairReply::Pending(Ok(PendingPairing {
        pin: "1234".to_owned(),
    })));
    let PairAction::SubmitPin(request) = pair.action() else {
        panic!("the pin is submitted");
    };
    assert_eq!(request.pairing_id.as_deref(), Some("ab-12"));
    assert_eq!(request.pin, "1234");
    assert_eq!(request.client_name, "desk-a");
    pair.reply(PairReply::Submitted(Ok(())));
    assert!(matches!(pair.action(), PairAction::AskPairingState(_)));
    pair.reply(PairReply::PairingState(Ok(PairingState::Paired)));
    assert!(matches!(pair.action(), PairAction::Finish(Ok(()))));
}

#[test]
fn pairing_fails_where_moonlight_does_not_confirm_it() {
    let mut pair = PairStream::new(IpAddr::V4(100, 64, 0, 3), "desk-a".to_owned());
    pair.reply(PairReply::PairingState(Ok(PairingState::Required)));
    let mut stopped = sunshine(true);
    stopped.running = false;
    pair.reply(PairReply::Status(Ok(stopped)));
    assert!(matches!(
        pair.action(),
        PairAction::Finish(Err(error)) if error.code == "SUNSHINE_NOT_RUNNING"
    ));
}
