use omdesky::domain::{CodecPreference, ConnectionKind, IpAddr, NodeCapabilities, StreamProfile};
use omdesky::panels::{draw_overlay, empty_state_lines, footer_line, header_line};
use omdesky::ports::{AgentEndpoint, AllowedController};
use omdesky::screen::{
    detail_lines, device_item, draw_details, input_line, join_texts, pad_right, property_line,
    settings_line, status_label, wrapped_property_lines, Line,
};
use omdesky::services::{DeviceStatus, DiscoveredNode};
use omdesky::settings::{change_stream_setting, codec_label, cycle_index, StreamSetting};
use omdesky::theme::{OmarchyTheme, ThemeWatcher};
use omdesky::tui::{
    access_rows, connect_request, disconnect_notice, local_agent_endpoint, point_in_rect,
    popup_area, requires_terminal_reset, AccessRow, Action, Activity, AppState, AsyncMessage, Key,
    MessageKind, Overlay, Rect,
};
use omdesky::wrap::{split_lines, split_whitespace, wrap_text};

fn width(line: &Line) -> usize {
    line.to_text().chars().count()
}

#[test]
fn test_wrap_text_breaks_on_width_and_preserves_words() {
    let wrapped = wrap_text("the quick brown fox jumps", 10);
    assert!(wrapped.iter().all(|line| line.chars().count() <= 10));
    assert_eq!(wrapped.join(" "), "the quick brown fox jumps");
}

#[test]
fn test_wrap_text_hard_splits_long_tokens() {
    let wrapped = wrap_text("SUNSHINE_API_UNAVAILABLE", 8);
    assert!(wrapped.len() >= 3);
    assert!(wrapped.iter().all(|line| line.chars().count() <= 8));
    assert_eq!(wrapped.concat(), "SUNSHINE_API_UNAVAILABLE");
}

#[test]
fn test_wrap_text_honours_existing_newlines() {
    let wrapped = wrap_text("line one\nline two", 40);
    assert_eq!(wrapped, vec!["line one".to_owned(), "line two".to_owned()]);
}

#[test]
fn lines_and_words_are_split_as_usual() {
    assert_eq!(split_lines("a\nb\n\nc"), ["a", "b", "", "c"]);
    assert_eq!(split_lines("a\n"), ["a", ""]);
    assert_eq!(split_lines(""), [""]);
    assert_eq!(split_whitespace("  a \t b\u{a0}c\n"), ["a", "b", "c"]);
}

#[test]
fn test_overview_content_wraps_all_long_values() {
    let mut selected = node("workstation-with-a-name-that-does-not-fit");
    selected.capabilities = NodeCapabilities::new(vec![
        "desktop.stream-host".to_owned(),
        "desktop.remote-input".to_owned(),
    ]);
    let mut state = state();
    state.apply_refresh(Ok(vec![selected]));
    let theme = *state.theme.current();

    let lines = detail_lines(state.selected().expect("selected node"), &state, &theme, 18);

    assert!(lines.len() > 12);
    assert!(lines.iter().all(|line| width(line) <= 18));
}

#[test]
fn test_stream_setting_cycles_through_supported_values() {
    let mut profile = StreamProfile::default();

    change_stream_setting(&mut profile, StreamSetting::Bitrate, 1);
    change_stream_setting(&mut profile, StreamSetting::Fps, 1);
    change_stream_setting(&mut profile, StreamSetting::Codec, 1);
    change_stream_setting(&mut profile, StreamSetting::Audio, 1);

    assert_eq!(profile.bitrate_kbps, Some(10_000));
    assert_eq!(profile.fps, 90);
    assert_eq!(profile.codec_preference, CodecPreference::H264);
    assert!(!profile.audio);
}

#[test]
fn a_step_back_undoes_a_step() {
    let start = StreamProfile::default();
    for setting in StreamSetting::ALL {
        let mut profile = start;
        change_stream_setting(&mut profile, setting, 1);
        assert_ne!(profile, start);
        assert_eq!(profile.validate(), Ok(()));
        change_stream_setting(&mut profile, setting, -1);
        assert_eq!(profile, start, "{setting:?}");
        assert_eq!(setting.next().previous(), setting);
    }
    assert_eq!(cycle_index(0, 3, -1), 2);
    assert_eq!(cycle_index(2, 3, 1), 0);
    assert_eq!(cycle_index(7, 3, 1), 2);
    assert_eq!(cycle_index(7, 3, -1), 0);
    assert_eq!(codec_label(CodecPreference::Auto), "Auto");
}

fn node(name: &str) -> DiscoveredNode {
    DiscoveredNode {
        tailnet_node_id: format!("tail-{name}"),
        name: name.to_owned(),
        address: IpAddr::V4(100, 64, 0, 2),
        status: DeviceStatus::Ready,
        connection: ConnectionKind::Direct,
        latency_ms: Some(4),
        agent_version: Some("0.1.0".to_owned()),
        omarchy_version: Some("4.0.1".to_owned()),
        capabilities: NodeCapabilities::new(vec!["desktop.stream-host".to_owned()]),
        is_local: false,
    }
}

fn state() -> AppState {
    AppState::new(ThemeWatcher::new(None))
}

fn theme() -> OmarchyTheme {
    OmarchyTheme::default()
}

#[test]
fn test_loading_state_is_visible_before_discovery_finishes() {
    let mut state = state();
    state.loading = true;
    let lines = empty_state_lines(&state, &theme());

    assert!(lines[1].to_text().contains("Discovering"));
}

#[test]
fn test_completed_activity_requires_terminal_reset() {
    let message = AsyncMessage::Activity(Ok("disconnected".to_owned()));

    assert!(requires_terminal_reset(&message));
    assert!(!requires_terminal_reset(&AsyncMessage::Discovery(Ok(Vec::new()))));
}

#[test]
fn test_refresh_selects_first_device() {
    let mut state = state();
    state.apply_refresh(Ok(vec![node("workstation")]));

    assert_eq!(state.selection, Some(0));
    assert_eq!(
        state.selected().map(|node| node.name.as_str()),
        Some("workstation")
    );
}

#[test]
fn test_navigation_wraps_around_device_list() {
    let mut state = state();
    state.apply_refresh(Ok(vec![node("workstation"), node("notebook")]));

    state.select_previous();
    assert_eq!(state.selection, Some(1));

    state.select_next();
    assert_eq!(state.selection, Some(0));
}

#[test]
fn test_local_device_is_visible_but_cannot_connect() {
    let mut local = node("omarchy");
    local.is_local = true;
    let mut state = state();

    state.apply_refresh(Ok(vec![local]));

    assert!(state.selected().is_some());
    assert!(state.selected_remote().is_none());
    assert_eq!(
        state.unavailable_reason(),
        Some("This device cannot connect to itself")
    );
}

#[test]
fn test_discovery_error_is_actionable_in_tui() {
    let mut state = state();
    state.apply_refresh(Err("TAILSCALE_NOT_CONNECTED".to_owned()));
    let lines = empty_state_lines(&state, &theme());

    assert!(lines[2].to_text().contains("TAILSCALE_NOT_CONNECTED"));
    assert!(lines[4].to_text().contains('r'));
    assert!(matches!(state.message(), Some((MessageKind::Error, _))));
}

#[test]
fn a_ready_remote_can_be_connected_to() {
    let mut state = state();
    state.apply_refresh(Ok(vec![node("workstation")]));

    let Action::Connect(chosen) = state.handle_key(Key::Enter) else {
        panic!("a connection");
    };
    assert_eq!(chosen.name, "workstation");
    assert_eq!(state.activity, Activity::Connecting);
    assert_eq!(state.handle_key(Key::Enter), Action::Nothing);

    state.apply_message(AsyncMessage::Activity(Ok(disconnect_notice("workstation", 0))));
    assert_eq!(state.activity, Activity::Idle);
    assert!(matches!(state.message(), Some((MessageKind::Notice, _))));
    assert_eq!(state.handle_key(Key::Char('q')), Action::Quit);
}

#[test]
fn an_offline_device_is_not_connected_to() {
    let mut offline = node("workstation");
    offline.status = DeviceStatus::Offline;
    let mut state = state();
    state.apply_refresh(Ok(vec![offline]));

    assert_eq!(state.handle_key(Key::Enter), Action::Nothing);
    assert_eq!(state.activity, Activity::Idle);
    assert!(state.unavailable_reason().is_some());
}

#[test]
fn settings_are_changed_and_saved_from_the_menu() {
    let mut state = state();
    state.open_settings(true, StreamProfile::default());
    assert!(matches!(state.overlay, Some(Overlay::Menu { .. })));

    let action = state.handle_key(Key::Right);
    assert_eq!(action, Action::SaveProfile);
    assert_ne!(state.stream_profile, StreamProfile::default());

    state.profile_saved(Err("disk full".to_owned()));
    assert!(matches!(state.message(), Some((MessageKind::Error, _))));
    state.handle_key(Key::Esc);
    assert!(state.overlay.is_none());
}

#[test]
fn credentials_are_typed_without_showing_the_password() {
    let mut state = state();
    state.overlay = Some(Overlay::CredentialsUser {
        user: String::new(),
    });
    for key in ['a', 'd', 'm'] {
        state.handle_key(Key::Char(key));
    }
    state.handle_key(Key::Enter);
    state.handle_key(Key::Char('x'));
    state.handle_key(Key::Char('y'));
    state.handle_key(Key::Backspace);

    let panel = draw_overlay(state.overlay.as_ref().expect("an overlay"), &state, &theme());
    assert!(panel.lines.iter().any(|line| line.to_text().contains('•') || line.to_text().contains('*')));

    assert_eq!(
        state.handle_key(Key::Enter),
        Action::StoreCredentials {
            user: "adm".to_owned(),
            pass: "x".to_owned()
        }
    );
    state.credentials_stored(Ok(()));
    assert!(state.sunshine_configured);

    let one = input_line("Password", "secret", true, &theme());
    let other = input_line("Password", "hidden", true, &theme());
    assert_eq!(one, other);
}

#[test]
fn controllers_are_listed_by_their_labels() {
    let entries = vec![
        AllowedController::new("nA".to_owned(), Some("desk".to_owned()), 0, Vec::new()),
        AllowedController::new("nB".to_owned(), None, 0, Vec::new()),
    ];

    let rows = access_rows(&entries);

    assert_eq!(
        rows[0],
        AccessRow {
            tailnet_node_id: "nA".to_owned(),
            label: "desk".to_owned()
        }
    );
    assert_eq!(rows[1].tailnet_node_id, "nB");
}

#[test]
fn a_connection_starts_from_this_computer() {
    let local = local_agent_endpoint(&vec![IpAddr::V4(100, 64, 0, 1)], 48155);
    assert_eq!(
        local,
        Some(AgentEndpoint {
            address: IpAddr::V4(100, 64, 0, 1),
            port: 48155
        })
    );

    let request = connect_request(
        IpAddr::V4(100, 64, 0, 2),
        48155,
        local,
        StreamProfile::default(),
    );
    assert_eq!(request.endpoint.address, IpAddr::V4(100, 64, 0, 2));
    assert_eq!(request.controller_endpoint.address, IpAddr::V4(100, 64, 0, 1));
    assert!(request.auto_pair);
}

#[test]
fn popups_stay_on_the_screen() {
    let screen = Rect {
        x: 0,
        y: 0,
        width: 40,
        height: 10,
    };

    let popup = popup_area(screen, 62, 20);

    assert!(popup.width <= 40 && popup.height <= 10);
    assert!(point_in_rect(popup.x, popup.y, screen));
    assert!(!point_in_rect(40, 0, screen));
}

#[test]
fn a_long_overview_is_opened_by_a_click() {
    let mut state = state();
    state.apply_refresh(Ok(vec![node("workstation")]));
    let panel = Rect {
        x: 2,
        y: 3,
        width: 30,
        height: 6,
    };

    let closed = draw_details(&mut state, panel, &theme()).len();
    assert!(state.detail_overflow);
    assert!(closed <= 6);

    state.click(5, 5);
    assert!(state.detail_expanded);
    let open = draw_details(&mut state, panel, &theme()).len();
    assert!(open > closed);
}

#[test]
fn lines_are_built_from_their_parts() {
    assert_eq!(pad_right("ab", 4), "ab  ");
    assert_eq!(join_texts(&["a".to_owned(), "b".to_owned()], ", "), "a, b");
    assert_eq!(status_label(DeviceStatus::Ready), "READY");
    assert!(property_line("Name", "desk", &theme()).to_text().contains("desk"));
    assert!(settings_line("FPS", "60", true, &theme()).to_text().contains("60"));
    assert!(wrapped_property_lines("Name", "a b c d e f g h", 16, &theme())
        .iter()
        .all(|line| width(line) <= 16));
    assert!(!device_item(&node("desk"), &theme()).is_empty());
    assert!(!header_line(&theme()).to_text().is_empty());
    assert!(!footer_line(&state(), &theme()).to_text().is_empty());
}
