use omdesky::access::{allowed, revoked};
use omdesky::address::address_text;
use omdesky::agent_client::{
    checked_health, focus_window_path, granted_capabilities, http_error, network_error,
    sanitize_display, sanitize_node_info, sanitize_window, take_chunk, url, validate_node_info,
    verify_release, MAX_CAPABILITIES, MAX_NODE_FIELD_BYTES, MAX_RESPONSE_BYTES,
};
use omdesky::config::{
    access_path, config_path, parse_number, parse_port, runtime_session_path, state_dir,
    stream_profile, sunshine_config_path, theme_path, with_profile, Config, ConfigError, DeviceConfig,
};
use omdesky::domain::{
    CodecPreference, ConnectionKind, ControlCapability, Display, InputMode, IpAddr, StreamProfile,
    Window, WindowId, WorkspaceId,
};
use omdesky::error_code::{ErrorCode, ErrorEnvelope, ProtocolError};
use omdesky::ids::{NodeId, SessionId};
use omdesky::launcher::{escape_value, needs_write, DesktopLauncherStore, NodeIdentity};
use omdesky::moonlight::{
    extract_pin, launch, launch_arguments, launch_spec, pairing_failure, pairing_query,
    pairing_state, PairingFailure,
};
use omdesky::omarchy::{notification_spec, parse_package_version, version_query};
use omdesky::ports::{
    AgentEndpoint, AllowedController, CapturePolicy, EnvironmentPolicy, HostReadiness,
    LauncherSpec, Notification, PairingState, PortError, StreamHostDescriptor, StreamLaunchRequest,
};
use omdesky::process::{
    candidates, environment_plan, resolve_program, CommandRun, RunEvent, RunStep,
    TRUSTED_PATH, TRUSTED_PROGRAM_DIRECTORIES,
};
use omdesky::protocol::{HealthResponse, NodeInfoResponse};
use omdesky::release::{ReleaseLine, RELEASE};
use omdesky::session_record::{
    owns_record, parse_start_ticks, stat_path, SessionRecord, SupervisedProcess,
};
use omdesky::state::{
    check_file, file_mode, read_limited, read_limited_to_string, temporary_name, StateError,
};
use omdesky::sunshine::{
    after_legacy, after_removal, after_store, config_value, ensure_ready, parse_credentials,
    pin_url, readiness, status, submit_pairing_pin, LoadStep, PinReply, StoredSecret,
    SunshineCredentialError, SunshineCredentialStore, SunshineCredentials, DEFAULT_API_BASE,
};
use omdesky::systemd::{agent_service_query, parse_exec_start};
use omdesky::tailscale::{
    connection_info, dns_hostname, identify_source, local_node, parse_status, parse_whois, peers,
    raw_peer_to_domain, status_spec, whois_spec, RawPeer, TailscaleStatus, WhoisNode,
    WhoisResponse, MAX_ID_BYTES, MAX_PEERS, TAILSCALE_STATUS_LIMIT,
};
use omdesky::theme::{
    load_theme, parse_color, parse_theme, strip_wrong_type, theme_of_document, OmarchyTheme, Rgb,
    ThemeDocument, ThemeEntry, ThemeError, ThemeWatcher,
};

#[test]
fn test_parse_package_version_separates_release() {
    let version = parse_package_version("omarchy 4.0.1-2\n").expect("supported version");

    assert_eq!(version.major, 4);
    assert_eq!(version.patch, 1);
    assert_eq!(version.package_release.as_deref(), Some("2"));
}

#[test]
fn test_parse_package_version_rejects_non_quattro() {
    let error = parse_package_version("omarchy 3.2.0-1").expect_err("unsupported");

    assert_eq!(error.code, "OMARCHY_UNSUPPORTED_VERSION");
}

#[test]
fn notifications_are_arguments_of_their_own() {
    let spec = notification_spec(Notification {
        summary: "Omdesky".to_owned(),
        body: "; rm -rf /".to_owned(),
    });

    assert!(spec.args.contains(&"; rm -rf /".to_owned()));
    assert!(!version_query().args.is_empty());
}

#[test]
fn test_config_value_reads_exact_key() {
    let config = "keyboard = enabled\nmouse = disabled\n";

    assert_eq!(config_value(config, "keyboard"), Some("enabled".to_owned()));
    assert_eq!(config_value(config, "key"), None);
}

#[test]
fn test_ensure_ready_maps_missing_installation() {
    let readiness = HostReadiness {
        installed: false,
        running: false,
        capture_ready: false,
        input_ready: false,
        exposure_warning: None,
    };

    assert_eq!(
        ensure_ready(&readiness).expect_err("not ready").code,
        "SUNSHINE_NOT_INSTALLED"
    );
}

#[test]
fn a_stream_host_is_ready_when_everything_is() {
    let ready = readiness(true, true, "bind_address = 100.64.0.2\n", Ok(true)).expect("ready");

    assert_eq!(ensure_ready(&ready), Ok(()));
    assert_eq!(ready.exposure_warning, None);
    let told = status(&ready, Ok(true)).expect("a status");
    assert!(told.ready && told.pairing_api_available);
    assert_eq!(told.desktop_app.as_deref(), Some("Desktop"));

    let deaf = readiness(true, true, "mouse = disabled\n", Ok(true)).expect("readable");
    assert!(!deaf.input_ready);
    assert!(deaf.exposure_warning.is_some());
    assert_eq!(ensure_ready(&deaf).expect_err("not ready").code, "SUNSHINE_NOT_READY");

    let stopped = readiness(true, false, "", Ok(true)).expect("readable");
    assert_eq!(
        ensure_ready(&stopped).expect_err("not running").code,
        "SUNSHINE_NOT_RUNNING"
    );
}

#[test]
fn the_answer_to_a_pin_decides() {
    assert_eq!(pin_url(DEFAULT_API_BASE), "https://127.0.0.1:47990/api/pin");
    assert_eq!(submit_pairing_pin(PinReply::Answered(true)), Ok(()));
    assert_eq!(
        submit_pairing_pin(PinReply::Answered(false)).expect_err("refused").code,
        "SUNSHINE_PAIRING_FAILED"
    );
    assert_eq!(
        submit_pairing_pin(PinReply::Unreachable("refused".to_owned()))
            .expect_err("unreachable")
            .code,
        "SUNSHINE_API_UNAVAILABLE"
    );
    let refused = submit_pairing_pin(PinReply::Refused("401 Unauthorized".to_owned()))
        .expect_err("refused");
    assert_eq!(
        refused.message,
        "Sunshine rejected the pairing PIN (HTTP 401 Unauthorized)"
    );
    assert!(submit_pairing_pin(PinReply::Unreadable("eof".to_owned())).is_err());
}

fn credentials() -> SunshineCredentials {
    SunshineCredentials {
        username: "admin".to_owned(),
        password: "s3cret".to_owned(),
    }
}

fn holds(step: LoadStep) -> bool {
    matches!(
        step,
        LoadStep::Done(Ok(Some(found))) if found.username == "admin" && found.password == "s3cret"
    )
}

#[test]
fn test_credentials_round_trip_through_secret_store() {
    let store = SunshineCredentialStore::new(false);

    assert_eq!(store.store("admin", "s3cret"), Ok(()));
    assert!(holds(store.load(StoredSecret::Found(Some(credentials())))));
}

#[test]
fn test_legacy_plaintext_credentials_are_migrated_and_removed() {
    let store = SunshineCredentialStore::new(true);

    assert!(matches!(store.load(StoredSecret::Missing), LoadStep::ReadLegacy));
    assert!(matches!(
        after_legacy(StoredSecret::Found(Some(credentials()))),
        LoadStep::Store(found) if found.username == "admin"
    ));
    assert!(matches!(
        after_store(credentials(), Ok(())),
        LoadStep::RemoveLegacy(found) if found.password == "s3cret"
    ));
    assert!(holds(after_removal(credentials(), true)));
}

#[test]
fn test_failed_migration_keeps_legacy_plaintext_credentials() {
    assert!(matches!(
        after_store(
            credentials(),
            Err(SunshineCredentialError::SecretServiceUnavailable)
        ),
        LoadStep::Done(Err(_))
    ));
    assert!(matches!(
        after_removal(credentials(), false),
        LoadStep::Done(Err(SunshineCredentialError::MigrationFailed))
    ));
}

#[test]
fn test_empty_credentials_are_rejected() {
    let store = SunshineCredentialStore::new(false);

    assert_eq!(
        store.store("", ""),
        Err(SunshineCredentialError::InvalidCredentials)
    );
    assert!(matches!(
        store.load(StoredSecret::Missing),
        LoadStep::Done(Ok(None))
    ));
    assert!(parse_credentials(None).is_err());
    assert!(matches!(
        store.load(StoredSecret::Unavailable),
        LoadStep::Done(Err(SunshineCredentialError::SecretServiceUnavailable))
    ));
}

#[test]
fn test_identity_is_stable_across_reloads() {
    let (first, created) = NodeIdentity::load_or_create(None).expect("identity created");
    assert!(created);

    let (second, created) =
        NodeIdentity::load_or_create(Some(Ok(first))).expect("identity loaded");
    assert!(!created);
    assert_eq!(first.node_id, second.node_id);
    assert!(NodeIdentity::load_or_create(Some(Err("broken".to_owned()))).is_err());
}

#[test]
fn test_launcher_generation_is_idempotent_and_uses_node_id() {
    let store = DesktopLauncherStore::new("/apps".to_owned());
    let node_id = NodeId::new();
    let spec = LauncherSpec {
        node_id,
        display_name: "Workstation".to_owned(),
        aliases: vec!["workstation".to_owned()],
    };

    let content = DesktopLauncherStore::render(&spec);

    assert_eq!(store.path(node_id), store.path(node_id));
    assert!(store.path(node_id).contains(&node_id.to_text()));
    assert!(content.contains(&node_id.to_text()));
    assert!(!content.contains("100.64."));
    assert!(needs_write(None, &content));
    assert!(!needs_write(Some(&content), &content));
}

#[test]
fn launcher_names_stay_on_one_line() {
    assert!(!escape_value("a\nExec=evil").contains('\n'));
}

#[test]
fn written_launchers_are_found_again() {
    let store = DesktopLauncherStore::new("/apps".to_owned());
    let path = store.path(NodeId(7));
    let name = path.rsplit('/').next().expect("a name").to_owned();

    let listed = DesktopLauncherStore::list(vec![name, "firefox.desktop".to_owned()]);

    assert_eq!(listed, ["omdesk-00000000-0000-0000-0000-000000000007.desktop"]);
}

fn other_minor_release() -> String {
    let current = ReleaseLine::current().expect("current release parses");

    format!("{}.{}.0", current.major, current.minor + 1)
}

#[test]
fn test_parse_rejects_oversized_response_body() {
    let mut body = vec![b'x'; MAX_RESPONSE_BYTES - 1];

    assert_eq!(take_chunk(&mut body, b"x"), Ok(()));
    let error = take_chunk(&mut body, b"x").expect_err("oversized body fails");

    assert_eq!(error.code, "AGENT_RESPONSE_LIMIT");
    assert_eq!(body.len(), MAX_RESPONSE_BYTES);
}

#[test]
fn test_an_agent_without_a_release_header_is_incompatible() {
    assert_eq!(
        verify_release(None).expect_err("an earlier agent is refused").code,
        "VERSION_INCOMPATIBLE"
    );
}

#[test]
fn agent_client_test_an_agent_from_another_release_line_is_incompatible() {
    assert_eq!(
        verify_release(Some(&other_minor_release()))
            .expect_err("another release line is refused")
            .code,
        "VERSION_INCOMPATIBLE"
    );
    assert_eq!(verify_release(Some(RELEASE)), Ok(()));
}

#[test]
fn test_granted_capabilities_ignore_unknown_values() {
    let names = ["send_shortcut", "future_capability", "close_stream"].map(str::to_owned);

    assert_eq!(
        granted_capabilities(&names),
        ControlCapability::CALLBACK.to_vec()
    );
}

fn health(agent_version: &str) -> HealthResponse {
    HealthResponse {
        status: "ok".to_owned(),
        protocol: 1,
        agent_version: agent_version.to_owned(),
    }
}

#[test]
fn test_health_reports_an_agent_from_another_release_line() {
    let other = other_minor_release();

    let health = checked_health(health(&other)).expect("health answers every release");

    assert_eq!(health.agent_version, other);
}

#[test]
fn test_health_accepts_an_agent_from_the_same_release_line() {
    let health = checked_health(health(RELEASE)).expect("the same release line is accepted");

    assert_eq!(health.agent_version, RELEASE);
}

fn info(hostname: String, capabilities: Vec<String>) -> NodeInfoResponse {
    NodeInfoResponse {
        node_id: "node".to_owned(),
        hostname,
        omarchy_version: "4.0.0".to_owned(),
        agent_version: "0.1.0".to_owned(),
        protocol_versions: vec![1],
        capabilities,
    }
}

#[test]
fn test_validate_node_info_rejects_oversized_fields() {
    let response = info("x".repeat(MAX_NODE_FIELD_BYTES + 1), Vec::new());

    let error = validate_node_info(response).expect_err("oversized field fails");

    assert_eq!(error.code, "AGENT_FIELD_LIMIT");
}

#[test]
fn test_validate_node_info_rejects_too_many_capabilities() {
    let response = info(
        "host".to_owned(),
        vec!["capability".to_owned(); MAX_CAPABILITIES + 1],
    );

    let error = validate_node_info(response).expect_err("too many capabilities fail");

    assert_eq!(error.code, "AGENT_FIELD_LIMIT");
}

#[test]
fn test_remote_metadata_cannot_carry_terminal_control_sequences() {
    let response = sanitize_node_info(NodeInfoResponse {
        node_id: "node".to_owned(),
        hostname: "desk\u{1b}]8;;https://evil.example\u{7}top".to_owned(),
        omarchy_version: "4.0.0\u{202e}".to_owned(),
        agent_version: "0.1.1".to_owned(),
        protocol_versions: vec![1],
        capabilities: vec!["desktop.input\u{1b}[2J".to_owned()],
    });

    assert!(!response.hostname.contains('\u{1b}'));
    assert!(!response.hostname.contains('\u{7}'));
    assert!(!response.omarchy_version.contains('\u{202e}'));
    assert!(!response.capabilities[0].contains('\u{1b}'));
}

#[test]
fn test_remote_window_titles_are_sanitized_but_handles_are_preserved() {
    let window = sanitize_window(Window {
        id: WindowId("0x55aa".to_owned()),
        app_id: Some("code\u{1b}[31m".to_owned()),
        class: None,
        title: Some("main\u{202e}txt.exe".to_owned()),
        workspace: WorkspaceId(1),
        focused: false,
    });

    assert_eq!(window.id, WindowId("0x55aa".to_owned()));
    assert!(!window.app_id.expect("app id").contains('\u{1b}'));
    assert!(!window.title.expect("title").contains('\u{202e}'));
}

#[test]
fn test_remote_display_names_are_sanitized() {
    let display = sanitize_display(Display {
        id: "DP-2".to_owned(),
        name: "external\u{1b}[2J".to_owned(),
        width: 2560,
        height: 1440,
        refresh_bits: 144.0_f64.to_bits(),
        focused: true,
    });

    assert_eq!(display.id, "DP-2");
    assert!(!display.name.contains('\u{1b}'));
}

#[test]
fn test_http_error_preserves_every_known_wire_code() {
    for code in ErrorCode::ALL {
        let error = http_error(
            409,
            "409 Conflict",
            Some(ErrorEnvelope::new(code, "detail".to_owned())),
        );

        assert_eq!(error.code, code.as_str());
        assert_eq!(error.retryable, code.retryable());
    }
}

#[test]
fn test_http_error_reports_an_unknown_wire_code_as_a_failed_request() {
    let mut envelope = ErrorEnvelope::new(ErrorCode::Internal, "detail".to_owned());
    envelope.error.code = "FUTURE_ERROR".to_owned();

    let error = http_error(409, "409 Conflict", Some(envelope));

    assert_eq!(error.code, "AGENT_REQUEST_FAILED");
}

#[test]
fn test_http_error_keeps_public_message_user_friendly() {
    let error = http_error(
        503,
        "503 Service Unavailable",
        Some(ErrorEnvelope {
            error: ProtocolError {
                code: "HYPRLAND_UNAVAILABLE".to_owned(),
                message: "socket /run/user/1000/hypr/private is missing".to_owned(),
                retryable: true,
            },
        }),
    );

    assert_eq!(
        error.user_message(),
        "The desktop could not be controlled. Make sure Hyprland is running."
    );
    assert!(!error.user_message().contains("/run/user"));
}

#[test]
fn requests_go_to_the_agent() {
    let v4 = AgentEndpoint {
        address: IpAddr::V4(100, 64, 0, 2),
        port: 48155,
    };
    let v6 = AgentEndpoint {
        address: IpAddr::V6(0xfd7a, 0x115c, 0xa1e0, 0, 0, 0, 0, 7),
        port: 80,
    };

    assert_eq!(url(&v4, "/v1/health"), "http://100.64.0.2:48155/v1/health");
    assert_eq!(url(&v6, "/v1/node"), "http://[fd7a:115c:a1e0::7]:80/v1/node");
    assert_eq!(focus_window_path("0x55"), "/v1/windows/0x55/focus");
    assert_eq!(network_error().code, "AGENT_UNREACHABLE");
}

#[test]
fn addresses_are_written_as_is_usual() {
    assert_eq!(address_text(IpAddr::V4(127, 0, 0, 1)), "127.0.0.1");
    assert_eq!(address_text(IpAddr::V6(0, 0, 0, 0, 0, 0, 0, 0)), "::");
    assert_eq!(address_text(IpAddr::V6(0, 0, 0, 0, 0, 0, 0, 1)), "::1");
    assert_eq!(
        address_text(IpAddr::V6(1, 0, 0, 2, 0, 0, 0, 3)),
        "1:0:0:2::3"
    );
    assert_eq!(
        address_text(IpAddr::V6(1, 0, 2, 3, 4, 5, 6, 7)),
        "1:0:2:3:4:5:6:7"
    );
    assert_eq!(
        address_text(IpAddr::V6(0, 0, 0, 0, 0, 0xffff, 0x6440, 2)),
        "::ffff:100.64.0.2"
    );
}

#[test]
fn test_config_uses_secure_defaults() {
    let config = Config::default();

    assert!(config.network.strict_tailnet_only);
    assert!(!config.network.allow_unsafe_wildcard_bind);
    assert_eq!(config.network.agent_port, 48155);
}

#[test]
fn the_environment_may_set_the_port() {
    let config = Config::default()
        .with_environment_port(Some("5000"))
        .expect("a port");
    assert_eq!(config.network.agent_port, 5000);
    assert_eq!(
        Config::default().with_environment_port(None).expect("none").network.agent_port,
        48155
    );
    let error = Config::default()
        .with_environment_port(Some("70000"))
        .expect_err("no port");
    assert!(matches!(error, ConfigError::InvalidEnvironment(_)));
    assert!(error.message().contains("PORT"));
    assert_eq!(parse_port("65535"), Some(65535));
    assert_eq!(parse_port("65536"), None);
    assert_eq!(parse_number("+7"), Some(7));
    assert_eq!(parse_number(""), None);
}

#[test]
fn a_saved_profile_is_read_back() {
    let profile = StreamProfile {
        width: 2560,
        height: 1440,
        fps: 120,
        codec_preference: CodecPreference::Av1,
        audio: false,
        bitrate_kbps: Some(25_000),
    };

    let config = with_profile(Config::default(), &profile);

    assert_eq!(config.stream.bitrate_mbps, 25);
    assert_eq!(config.stream.fps, 120);
    assert_eq!(stream_profile(&config), profile);
}

#[test]
fn files_are_where_the_environment_says() {
    assert_eq!(
        config_path(Some("/conf"), Some("/home/me")),
        Ok("/conf/omdesky/config.toml".to_owned())
    );
    assert_eq!(
        config_path(None, Some("/home/me")),
        Ok("/home/me/.config/omdesky/config.toml".to_owned())
    );
    assert!(matches!(
        config_path(None, None),
        Err(ConfigError::MissingEnvironment(_))
    ));
    assert!(state_dir(None, Some("/home/me")).expect("a path").starts_with("/home/me/"));
    assert!(runtime_session_path(None).is_err());
    assert!(access_path(Some("/state"), None).expect("a path").starts_with("/state/"));
    assert!(sunshine_config_path(Some("/home/me")).is_ok());
    assert!(!theme_path(None, Some("/home/me")).is_empty());
}

fn request(fullscreen: bool, input_mode: InputMode) -> StreamLaunchRequest {
    StreamLaunchRequest {
        host: StreamHostDescriptor {
            address: IpAddr::V4(100, 64, 0, 2),
            application: "Desktop".to_owned(),
        },
        profile: StreamProfile::default(),
        fullscreen,
        input_mode,
    }
}

#[test]
fn test_launch_arguments_use_modern_moonlight_cli() {
    assert_eq!(
        launch_arguments(&request(false, InputMode::Local)),
        [
            "stream",
            "100.64.0.2",
            "Desktop",
            "--resolution",
            "1920x1080",
            "--fps",
            "60",
            "--display-mode",
            "windowed",
        ]
    );
}

#[test]
fn test_stream_output_is_discarded_to_protect_terminal_ui() {
    let spec = launch_spec(&request(true, InputMode::Local));

    assert_eq!(spec.capture, CapturePolicy::Discard);
}

#[test]
fn test_fullscreen_omits_display_mode_override() {
    let args = launch_arguments(&request(true, InputMode::Local));
    assert!(!args.contains(&"--display-mode".to_owned()));
    assert!(args.contains(&"--resolution".to_owned()));
}

#[test]
fn test_specific_codec_uses_moonlight_codec_names() {
    let mut request = request(true, InputMode::Local);
    request.profile.codec_preference = CodecPreference::H264;
    let args = launch_arguments(&request);
    let index = args
        .iter()
        .position(|a| a == "--video-codec")
        .expect("codec");
    assert_eq!(args[index + 1], "H.264");
}

#[test]
fn test_remote_input_enables_system_key_capture() {
    let request = request(false, InputMode::Remote);
    let args = launch_arguments(&request);
    let index = args
        .iter()
        .position(|a| a == "--capture-system-keys")
        .expect("capture flag present");
    assert_eq!(args[index + 1], "always");

    let spec = launch_spec(&request);
    assert!(spec
        .environment
        .contains(&("QT_QPA_PLATFORM".to_owned(), "wayland".to_owned())));
}

#[test]
fn test_fullscreen_remote_stream_captures_system_keys() {
    let args = launch_arguments(&request(true, InputMode::Remote));
    let index = args
        .iter()
        .position(|argument| argument == "--capture-system-keys")
        .expect("capture flag present");

    assert_eq!(args[index + 1], "always");
}

#[test]
fn test_bitrate_cap_is_passed_in_kbps() {
    let mut request = request(true, InputMode::Local);
    request.profile.bitrate_kbps = Some(10_000);
    let args = launch_arguments(&request);
    let index = args.iter().position(|a| a == "--bitrate").expect("bitrate");
    assert_eq!(args[index + 1], "10000");
}

#[test]
fn test_extract_pin_reads_four_digit_code() {
    assert_eq!(
        extract_pin("Please enter the following PIN on the host PC: 1234"),
        Some("1234".to_owned())
    );
    assert_eq!(extract_pin("no pin here"), None);
}

#[test]
fn moonlight_is_not_launched_with_an_unsafe_application() {
    let mut request = request(true, InputMode::Local);
    assert!(launch(&request).is_ok());
    request.host.application = "--config".to_owned();
    assert!(launch(&request).is_err());
    assert!(pairing_query(&request.host).is_err());
}

#[test]
fn the_answer_of_moonlight_tells_whether_it_is_paired() {
    assert_eq!(pairing_state(Ok(())), Ok(PairingState::Paired));
    assert_eq!(
        pairing_state(Err(PortError::new("COMMAND_FAILED", "1".to_owned(), false))),
        Ok(PairingState::Required)
    );
    assert!(pairing_state(Err(PortError::new(
        "COMMAND_NOT_AVAILABLE",
        "gone".to_owned(),
        false
    )))
    .is_err());
    assert!(!pairing_failure(PairingFailure::TimedOut).message.is_empty());
}

#[test]
fn test_bare_program_names_resolve_only_from_trusted_directories() {
    let resolved =
        resolve_program("env", [false, true, true, false]).expect("env is a trusted program");

    assert!(TRUSTED_PROGRAM_DIRECTORIES
        .iter()
        .any(|directory| resolved.starts_with(directory)));
    assert_eq!(resolved, "/usr/bin/env");
    assert_eq!(candidates("env").len(), TRUSTED_PROGRAM_DIRECTORIES.len());
    assert_eq!(
        resolve_program("omdesky-definitely-not-installed", [false; 4])
            .expect_err("unknown program")
            .code,
        "COMMAND_NOT_AVAILABLE"
    );
}

#[test]
fn test_explicit_paths_are_preserved() {
    assert_eq!(
        resolve_program("/usr/bin/printf", [false; 4]).expect("explicit path"),
        "/usr/bin/printf"
    );
}

fn environment() -> Vec<(String, String)> {
    [
        ("LANG", "C"),
        ("LD_PRELOAD", "/tmp/evil.so"),
        ("CARGO_PKG_NAME", "x"),
        ("PATH", "/tmp"),
        ("HOME", "/home/me"),
    ]
    .iter()
    .map(|(key, value)| (key.to_string(), value.to_string()))
    .collect()
}

fn value<'a>(set: &'a [(String, String)], key: &str) -> Option<&'a str> {
    set.iter()
        .rev()
        .find(|(name, _)| name == key)
        .map(|(_, value)| value.as_str())
}

#[test]
fn test_session_policy_drops_loader_and_unlisted_variables() {
    let plan = environment_plan(EnvironmentPolicy::Session, &environment());

    assert!(plan.clear);
    assert_eq!(value(&plan.set, "PATH"), Some(TRUSTED_PATH));
    assert_eq!(value(&plan.set, "HOME"), Some("/home/me"));
    assert_eq!(value(&plan.set, "LD_PRELOAD"), None);
    assert_eq!(value(&plan.set, "CARGO_PKG_NAME"), None);
}

#[test]
fn test_inherited_policy_still_forces_the_trusted_path() {
    let plan = environment_plan(EnvironmentPolicy::Inherited, &environment());

    assert!(!plan.clear);
    assert_eq!(value(&plan.set, "PATH"), Some(TRUSTED_PATH));
    assert!(plan.remove.contains(&"LD_PRELOAD".to_owned()));
}

#[test]
fn test_runner_can_clear_inherited_environment() {
    let plan = environment_plan(EnvironmentPolicy::Empty, &environment());

    assert!(plan.clear);
    assert!(plan.set.is_empty());
}

#[test]
fn test_runner_rejects_nonzero_exit() {
    let mut run = CommandRun::new("/usr/bin/false".to_owned(), 1_000);

    assert!(matches!(
        run.event(RunEvent::Output { is_stdout: true, output: Ok(Vec::new()) }),
        RunStep::Wait
    ));
    assert!(matches!(
        run.event(RunEvent::Output { is_stdout: false, output: Ok(Vec::new()) }),
        RunStep::Wait
    ));
    assert!(matches!(
        run.event(RunEvent::Exited { code: Some(1), success: false }),
        RunStep::Done(Err(error)) if error.code == "COMMAND_FAILED"
    ));
}

#[test]
fn a_program_that_ends_well_gives_its_output() {
    let mut run = CommandRun::new("printf".to_owned(), 1_000);

    run.event(RunEvent::Exited { code: Some(0), success: true });
    run.event(RunEvent::Output { is_stdout: true, output: Ok(b"; echo unsafe".to_vec()) });
    assert!(matches!(
        run.event(RunEvent::Output { is_stdout: false, output: Ok(Vec::new()) }),
        RunStep::Done(Ok(output)) if output.stdout == b"; echo unsafe"
    ));

    let mut run = CommandRun::new("sleep".to_owned(), 1_000);
    assert!(matches!(
        run.event(RunEvent::TimedOut),
        RunStep::Kill(error) if error.code == "COMMAND_TIMEOUT"
    ));
    assert!(matches!(run.event(RunEvent::ReaderStopped), RunStep::Done(Err(_))));
    assert!(matches!(
        run.event(RunEvent::WaitFailed("gone".to_owned())),
        RunStep::Done(Err(_))
    ));
}

#[test]
fn test_runner_rejects_stdout_over_limit() {
    let mut output = Vec::new();
    let error = omdesky::process::read_limited(&mut output, b"123456789", 8)
        .expect_err("large output fails");
    assert_eq!(error.code, "COMMAND_OUTPUT_LIMIT");

    let mut run = CommandRun::new("yes".to_owned(), 5_000);
    assert!(matches!(
        run.event(RunEvent::Output { is_stdout: true, output: Err(error) }),
        RunStep::Kill(error) if error.code == "COMMAND_OUTPUT_LIMIT"
    ));
}

fn stat_line(start_ticks: u64) -> String {
    let mut fields = vec!["S".to_owned()];
    fields.extend((3..=21).map(|index| index.to_string()));
    fields[19] = start_ticks.to_string();

    format!("4242 (moonlight (qt)) {}", fields.join(" "))
}

#[test]
fn test_start_ticks_are_read_past_a_command_name_containing_parentheses() {
    assert_eq!(parse_start_ticks(&stat_line(987_654)), Some(987_654));
}

#[test]
fn test_malformed_stat_yields_no_start_time() {
    assert_eq!(parse_start_ticks(""), None);
    assert_eq!(parse_start_ticks("4242 (moonlight) S"), None);
}

#[test]
fn test_this_process_reports_a_stable_start_time() {
    let line = stat_line(99);
    let observed = SupervisedProcess::observe(4242, Some(&line)).expect("a start time");

    assert!(observed.is_still_running(Some(&line)));
    assert!(!observed.is_still_running(Some(&stat_line(100))));
    assert!(!observed.is_still_running(None));
    assert_eq!(stat_path(4242), "/proc/4242/stat");
}

#[test]
fn test_a_record_round_trips_and_is_only_removed_by_its_owner() {
    let record = SessionRecord::new("workstation".to_owned(), InputMode::Remote);

    assert_eq!(record.remote_node, "workstation");
    assert_eq!(record.moonlight, None);
    assert!(record.started_at > 1_600_000_000_000_000_000);
    assert!(!owns_record(Some(&record), SessionId::new()));
    assert!(owns_record(Some(&record), record.session_id));
    assert!(!owns_record(None, record.session_id));
}

#[test]
fn test_reading_rejects_oversized_state() {
    let error = check_file(true, 64, 32).expect_err("oversized state is rejected");
    assert!(matches!(error, StateError::TooLarge { limit: 32 }));

    let error = read_limited(vec![b'x'; 64], 32).expect_err("oversized state is rejected");
    assert!(matches!(error, StateError::TooLarge { limit: 32 }));
    assert_eq!(read_limited(vec![1, 2], 2), Ok(vec![1, 2]));
}

#[test]
fn text_is_read_whole_or_not_at_all() {
    let text = "é=1";
    let bytes = || text.as_bytes().to_vec();

    assert_eq!(read_limited_to_string(true, 4, bytes(), 4), Ok(text.to_owned()));
    assert_eq!(
        read_limited_to_string(true, 4, bytes(), 3),
        Err(StateError::TooLarge { limit: 3 })
    );
    assert_eq!(
        read_limited_to_string(true, 0, bytes(), 3),
        Err(StateError::TooLarge { limit: 3 })
    );
    assert_eq!(
        read_limited_to_string(false, 4, bytes(), 4),
        Err(StateError::NotARegularFile)
    );
    assert_eq!(
        read_limited_to_string(true, 1, vec![0xc3], 4),
        Err(StateError::NotUtf8)
    );
}

#[test]
fn what_is_set_for_a_device_stands_once() {
    let mut config = Config::default();
    let named = |alias: &str| DeviceConfig {
        alias: Some(alias.to_owned()),
    };
    config.set_device("desk".to_owned(), named("one"));
    config.set_device("lap".to_owned(), named("two"));
    config.set_device("desk".to_owned(), named("three"));

    let set: Vec<(&str, Option<&str>)> = config
        .devices
        .iter()
        .map(|(name, device)| (name.as_str(), device.alias.as_deref()))
        .collect();
    assert_eq!(set, [("desk", Some("three")), ("lap", Some("two"))]);
}

#[test]
fn a_theme_may_hold_what_is_not_a_color() {
    let with = |line: &str| format!("{line}\n{}", theme_text("#112233"));

    assert!(parse_theme(&with("other = 9223372036854775808")).is_ok());
    assert!(parse_theme(&with("other = [1, { a = 'b' }]")).is_ok());
    for line in [
        format!("other = {}", "9".repeat(60)),
        "red = '#000000'".to_owned(),
    ] {
        assert!(matches!(parse_theme(&with(&line)), Err(ThemeError::Toml(_))));
    }
}

/// The colors of a theme file as a type that serde reads: unknown keys are ignored, every color has
/// to be there.
struct Colors;

struct ColorsVisitor;

impl<'de> serde::de::Visitor<'de> for ColorsVisitor {
    type Value = Colors;

    fn expecting(&self, formatter: &mut std::fmt::Formatter<'_>) -> std::fmt::Result {
        formatter.write_str("struct RawTheme")
    }

    fn visit_map<A: serde::de::MapAccess<'de>>(self, mut map: A) -> Result<Colors, A::Error> {
        let mut found: Vec<String> = Vec::new();
        while let Some(key) = map.next_key::<String>()? {
            if COLORS.contains(&key.as_str()) {
                map.next_value::<String>()?;
                found.push(key);
            } else {
                map.next_value::<serde::de::IgnoredAny>()?;
            }
        }
        for color in COLORS {
            if !found.iter().any(|key| key == color) {
                return Err(serde::de::Error::missing_field(color));
            }
        }

        Ok(Colors)
    }
}

impl<'de> serde::de::Deserialize<'de> for Colors {
    fn deserialize<D: serde::de::Deserializer<'de>>(source: D) -> Result<Self, D::Error> {
        source.deserialize_struct("RawTheme", &COLORS, ColorsVisitor)
    }
}

const COLORS: [&str; 8] = [
    "accent", "selection", "muted", "background", "foreground", "red", "green", "yellow",
];

#[test]
fn a_theme_file_is_refused_in_the_words_of_the_parser() {
    let whole = theme_text("#112233");
    let without = |color: &str| -> String {
        whole
            .lines()
            .filter(|line| !line.starts_with(color))
            .map(|line| format!("{line}\n"))
            .collect()
    };
    let documents = [
        String::new(),
        "accent = ".to_owned(),
        "accent = 3".to_owned(),
        "x = [".to_owned(),
        format!("é = 'ü'\n{whole}red = '#000000'\n"),
        format!("other = {}\n{whole}", "9".repeat(60)),
        format!("zz = [{}]\n{}accent = true\n", "9".repeat(60), without("accent")),
        format!("{}muted = 1979-05-27\n", without("muted")),
        format!("{}muted = 3\ngreen = 4\n", without("green").replace("muted", "# muted")),
        without("yellow"),
        without("accent"),
        without("red"),
    ];

    for document in documents {
        let expected = match toml::from_str::<Colors>(&document) {
            Ok(_) => panic!("{document:?} is no theme"),
            Err(error) => error.to_string(),
        };
        let error = parse_theme(&document).expect_err("no theme");

        assert_eq!(error.message(), format!("invalid Omarchy theme file: {expected}"));
        assert_eq!(error, ThemeError::Toml(expected));
    }
    assert_eq!(
        parse_theme("").expect_err("empty").message(),
        "invalid Omarchy theme file: TOML parse error at line 1, column 1\n  |\n1 | \n  | ^\nmissing field `accent`\n"
    );
    assert_eq!(
        strip_wrong_type("here\ninvalid type: map, expected a string\n"),
        "here\n"
    );
    assert_eq!(strip_wrong_type("here\n"), "");
}

#[test]
fn the_first_entry_that_fails_is_the_error() {
    let entry = |key: &str, value: Result<Option<&str>, &str>| ThemeEntry {
        key: key.to_owned(),
        value: value
            .map(|text| text.map(str::to_owned))
            .map_err(str::to_owned),
    };
    let colors = || -> Vec<ThemeEntry> {
        COLORS.iter().map(|color| entry(color, Ok(Some("#102030")))).collect()
    };
    let toml = |detail: &str| Err(ThemeError::Toml(detail.to_owned()));
    let read = |entries: Vec<ThemeEntry>| {
        Ok(ThemeDocument {
            entries,
            place: "here: ".to_owned(),
        })
    };

    let theme = theme_of_document(read(colors())).expect("a theme");
    assert_eq!(theme.warning, Rgb::new(0x10, 0x20, 0x30));
    assert_eq!(theme_of_document(Err("broken".to_owned())), toml("broken"));
    assert_eq!(
        theme_of_document(read(vec![
            entry("a", Ok(None)),
            entry("b", Err("first")),
            entry("c", Err("second")),
        ])),
        toml("first")
    );
    let mut short = colors();
    short.remove(5);
    short.remove(2);
    assert_eq!(theme_of_document(read(short)), toml("here: missing field `muted`\n"));
    let mut wrong = colors();
    wrong[6].value = Ok(Some("green".to_owned()));
    assert_eq!(theme_of_document(read(wrong)), Err(ThemeError::InvalidColor("green")));
}

#[test]
fn test_reading_rejects_a_directory_in_place_of_state() {
    let error = check_file(false, 0, 32).expect_err("a directory is not state");

    assert!(matches!(error, StateError::NotARegularFile));
    assert!(!error.message().is_empty());
    assert!(!StateError::MissingParent.message().is_empty());
}

#[test]
fn secret_files_are_for_their_owner() {
    assert_eq!(file_mode(true), 0o600);
    assert!(temporary_name(Some("peers.json")).contains("peers.json"));
}

#[test]
fn test_exec_start_yields_the_service_executable() {
    let value = "{ path=/usr/bin/omdesky-agent ; argv[]=/usr/bin/omdesky-agent ; ignore_errors=no ; start_time=[n/a] ; stop_time=[n/a] ; pid=0 ; code=(null) ; status=0/0 }\n";

    assert_eq!(
        parse_exec_start(value),
        Some("/usr/bin/omdesky-agent".to_owned())
    );
    assert!(!agent_service_query().args.is_empty());
}

#[test]
fn test_a_missing_unit_yields_no_executable() {
    assert_eq!(parse_exec_start(""), None);
    assert_eq!(parse_exec_start("\n"), None);
}

#[test]
fn test_a_relative_path_is_not_trusted() {
    assert_eq!(parse_exec_start("{ path=omdesky-agent ; argv[]=x }"), None);
}

fn raw_peer(id: &str, hostname: Option<&str>, last_octet: u8) -> RawPeer {
    RawPeer {
        id: id.to_owned(),
        dns_name: None,
        host_name: hostname.map(str::to_owned),
        tailscale_ips: vec![Some(IpAddr::V4(100, 64, 0, last_octet))],
        online: true,
        cur_addr: None,
        relay: None,
    }
}

fn tailnet(peers: Vec<RawPeer>) -> TailscaleStatus {
    TailscaleStatus {
        self_node: raw_peer("self-node", Some("local"), 2),
        peers,
    }
}

#[test]
fn test_parse_status_ignores_unknown_fields() {
    let status = parse_status(100, Ok(tailnet(vec![raw_peer("peer", Some("desk"), 3)])))
        .expect("a status");

    assert_eq!(status.self_node.id, "self-node");
    assert_eq!(status.peers.len(), 1);
}

#[test]
fn test_local_node_preserves_tailscale_hostname() {
    let status = parse_status(100, Ok(tailnet(Vec::new()))).expect("a status");

    assert_eq!(status.self_node.host_name.as_deref(), Some("local"));
    let local = local_node(status);
    assert_eq!(local.hostname.as_deref(), Some("local"));
    assert_eq!(local.addresses, [IpAddr::V4(100, 64, 0, 2)]);
}

#[test]
fn test_direct_peer_maps_to_direct_connection() {
    let mut direct = raw_peer("peer", Some("desk"), 3);
    direct.cur_addr = Some("192.0.2.1:41641".to_owned());

    let peer = raw_peer_to_domain(direct);

    assert_eq!(peer.connection, ConnectionKind::Direct);
    assert!(peer.online);
}

#[test]
fn a_relayed_peer_is_told_from_a_direct_one() {
    let mut relayed = raw_peer("peer", Some("desk"), 3);
    relayed.relay = Some("fra".to_owned());
    let status = tailnet(vec![relayed]);

    let info = connection_info(&status, "peer").expect("a known peer");
    assert_eq!(info.kind, ConnectionKind::Relay);
    assert!(connection_info(&status, "nobody").is_err());
    assert_eq!(peers(status).len(), 1);
    assert_eq!(dns_hostname("desk.tail.ts.net."), "desk");
    assert_eq!(status_spec().args, ["status", "--json"]);
    assert!(whois_spec(IpAddr::V4(100, 64, 0, 7))
        .args
        .contains(&"100.64.0.7".to_owned()));
}

fn whois(id: &str, hostname: &str, login: &str) -> WhoisResponse {
    WhoisResponse {
        node: WhoisNode {
            stable_id: Some(id.to_owned()),
            name: Some("desktop-a.tail.ts.net.".to_owned()),
            host_name: Some(hostname.to_owned()),
        },
        login_name: Some(login.to_owned()),
    }
}

#[test]
fn test_parse_whois_extracts_stable_identity() {
    let identity = parse_whois(Ok(whois("nABC123", "desktop-a", "user@example.com")))
        .expect("whois parses");

    assert_eq!(identity.tailnet_node_id, "nABC123");
    assert_eq!(identity.user.as_deref(), Some("user@example.com"));
}

#[test]
fn test_hostile_peer_hostnames_are_stripped_of_terminal_controls() {
    let peer = raw_peer_to_domain(raw_peer(
        "id",
        Some("desk\u{1b}]8;;https://evil.example\u{7}top"),
        3,
    ));

    let hostname = peer.hostname.expect("hostname");
    assert!(!hostname.contains('\u{1b}'));
    assert!(!hostname.contains('\u{7}'));
    assert_eq!(peer.tailnet_node_id, "id");
}

#[test]
fn test_whois_identity_is_compared_byte_for_byte() {
    let identity = parse_whois(Ok(whois("nABC123", "desk\u{1b}[2Jtop", "user\u{1b}@example.com")))
        .expect("whois parses");

    assert_eq!(identity.tailnet_node_id, "nABC123");
    assert!(!identity.hostname.expect("hostname").contains('\u{1b}'));
    assert!(!identity.user.expect("user").contains('\u{1b}'));
}

#[test]
fn an_unknown_source_is_no_failure() {
    let found = identify_source(Ok(Ok(whois("nABC123", "desk", "user")))).expect("answered");
    assert_eq!(found.expect("known").tailnet_node_id, "nABC123");
    assert_eq!(
        identify_source(Err(PortError::new("COMMAND_FAILED", "1".to_owned(), false))),
        Ok(None)
    );
}

#[test]
fn test_parse_status_rejects_oversized_input() {
    let error = parse_status(TAILSCALE_STATUS_LIMIT + 1, Err("not read".to_owned()))
        .expect_err("oversized status fails");

    assert_eq!(error.code, "TAILSCALE_STATUS_LIMIT");
}

#[test]
fn test_parse_status_rejects_too_many_peers() {
    let peers = (0..=MAX_PEERS)
        .map(|index| raw_peer(&format!("id-{index}"), None, 1))
        .collect();

    let error = parse_status(100, Ok(tailnet(peers))).expect_err("too many peers fail");

    assert_eq!(error.code, "TAILSCALE_PEER_LIMIT");
}

#[test]
fn test_parse_status_rejects_oversized_identity() {
    let mut status = tailnet(Vec::new());
    status.self_node.id = "x".repeat(MAX_ID_BYTES + 1);

    let error = parse_status(100, Ok(status)).expect_err("oversized identity fails");

    assert_eq!(error.code, "TAILSCALE_FIELD_LIMIT");
}

#[test]
fn test_parse_theme_uses_omarchy_color_roles() {
    let theme = parse_theme(
        r##"
mode = "dark"
accent = "#7daea3"
selection = "#504945"
muted = "#665c54"
background = "#282828"
foreground = "#d4be98"
red = "#ea6962"
green = "#a9b665"
yellow = "#d8a657"
"##,
    )
    .expect("valid Omarchy theme");

    assert_eq!(theme.accent, Rgb::new(0x7d, 0xae, 0xa3));
    assert_eq!(theme.background, Rgb::new(0x28, 0x28, 0x28));
    assert_eq!(theme.foreground, Rgb::new(0xd4, 0xbe, 0x98));
}

#[test]
fn test_load_theme_falls_back_when_current_theme_is_missing() {
    assert_eq!(load_theme(None), OmarchyTheme::default());
    assert_eq!(load_theme(Some("accent = 7")), OmarchyTheme::default());
}

fn theme_text(accent: &str) -> String {
    format!(
        r##"
accent = "{accent}"
selection = "#222222"
muted = "#333333"
background = "#000000"
foreground = "#ffffff"
red = "#ff0000"
green = "#00ff00"
yellow = "#ffff00"
"##
    )
}

#[test]
fn test_theme_watcher_reloads_changed_theme() {
    let mut watcher = ThemeWatcher::new(Some(theme_text("#112233")));

    assert!(watcher.refresh(Some(theme_text("#445566"))));
    assert_eq!(watcher.current().accent, Rgb::new(0x44, 0x55, 0x66));
    assert!(!watcher.refresh(Some(theme_text("#445566"))));
}

#[test]
fn test_parse_theme_rejects_invalid_hex_color() {
    let error = parse_theme(&theme_text("blue")).expect_err("invalid color must fail");

    assert!(error.message().contains("accent"));
    assert_eq!(error, ThemeError::InvalidColor("accent"));
    assert!(matches!(parse_theme("accent = "), Err(ThemeError::Toml(_))));
    assert_eq!(parse_color("red", "#0a0B0c"), Ok(Rgb::new(10, 11, 12)));
}

#[test]
fn test_allowlist_persists_and_revokes_identity() {
    let list = allowed(
        Vec::new(),
        AllowedController::new(
            "node-abc".to_owned(),
            Some("desktop-a".to_owned()),
            0,
            ControlCapability::ALL.to_vec(),
        ),
    );

    assert_eq!(list.len(), 1);
    assert!(revoked(list, "node-abc").is_empty());
}

#[test]
fn test_allow_is_idempotent_per_identity() {
    let controller = || {
        AllowedController::new("node-abc".to_owned(), None, 0, ControlCapability::ALL.to_vec())
    };

    let list = allowed(allowed(Vec::new(), controller()), controller());

    assert_eq!(list.len(), 1);
}
