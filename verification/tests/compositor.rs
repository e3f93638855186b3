use omdesky::display::{
    current_display, display_switch_index, event_socket_candidates, is_focus_event,
    resolve_display_switch_shortcut, switch_display_command, SUNSHINE_MAX_SWITCH_DISPLAYS,
};
use omdesky::domain::{
    Display, DisplayId, IpAddr, KeyChord, KeyModifier, RemoteCommand, SessionRole, WindowId,
    WindowSelector, WorkspaceId, WorkspaceTarget,
};
use omdesky::hyprland::{
    active_display, active_window_address, checked_address, dispatch_failure, focus_window_spec,
    focus_workspace_spec, hyprland_failure, hyprland_output, is_window_handle, parse_active_window,
    parse_monitors, parse_windows, parse_workspaces, plan_command, query_spec,
    shortcut_after_query, CommandPlan, HyprClient, HyprMonitor, HyprWorkspace,
};
use omdesky::input::{
    command_actions, install_session_keybinds_spec, moonlight_shortcut,
    remove_session_keybinds_spec,
};
use omdesky::ports::{AgentEndpoint, CommandSpec, PortError, PortResult};
use omdesky::services::MOONLIGHT_WINDOW_CLASS;

#[test]
fn test_parse_monitors_ignores_disabled_outputs() {
    let displays = parse_monitors(Ok(vec![
        HyprMonitor {
            name: "DP-1".to_owned(),
            description: Some("Main".to_owned()),
            width: 2560,
            height: 1440,
            refresh_bits: 165.0_f64.to_bits(),
            focused: true,
            disabled: false,
        },
        HyprMonitor {
            name: "HDMI-A-1".to_owned(),
            description: None,
            width: 1920,
            height: 1080,
            refresh_bits: 60.0_f64.to_bits(),
            focused: false,
            disabled: true,
        },
    ]))
    .expect("monitors parse");

    assert_eq!(displays.len(), 1);
    assert_eq!(displays[0].id, "DP-1");
    assert!(displays[0].focused);
    assert_eq!(displays[0].name, "Main");
    assert_eq!(active_display(&displays).map(|display| display.id.as_str()), Some("DP-1"));
}

#[test]
fn answers_that_cannot_be_read_are_reported() {
    let error = parse_monitors(Err("expected value".to_owned())).expect_err("unreadable");

    assert_eq!(error.code, "HYPRLAND_UNAVAILABLE");
    assert_eq!(error.message, "unable to parse Hyprland output: expected value");
    assert!(parse_workspaces(Err("x".to_owned())).is_err());
    assert!(parse_windows(Err("x".to_owned())).is_err());
}

fn workspace(id: i64, name: &str, windows: u32) -> HyprWorkspace {
    HyprWorkspace {
        id,
        name: Some(name.to_owned()),
        monitor: Some("DP-1".to_owned()),
        windows,
    }
}

#[test]
fn test_parse_workspaces_orders_by_id() {
    let workspaces =
        parse_workspaces(Ok(vec![workspace(3, "Media", 1), workspace(1, "Web", 2)]))
            .expect("workspaces parse");

    assert_eq!(workspaces[0].id, WorkspaceId(1));
    assert_eq!(workspaces[1].id, WorkspaceId(3));
    assert_eq!(workspaces[0].windows, 2);
}

fn client() -> HyprClient {
    HyprClient {
        address: "0x55c9".to_owned(),
        class: Some("firefox".to_owned()),
        initial_class: Some("firefox".to_owned()),
        title: Some("News".to_owned()),
        workspace_id: 1,
    }
}

#[test]
fn test_parse_windows_maps_stable_handle_and_workspace() {
    let windows = parse_windows(Ok(vec![client()])).expect("windows parse");

    assert_eq!(windows[0].id, WindowId("0x55c9".to_owned()));
    assert_eq!(windows[0].app_id.as_deref(), Some("firefox"));
    assert_eq!(windows[0].workspace, WorkspaceId(1));
}

#[test]
fn test_parse_active_window_handles_empty() {
    assert_eq!(
        parse_active_window("{}", Err("missing field".to_owned())).expect("empty"),
        None
    );
    assert_eq!(
        parse_active_window("{..}", Ok(client()))
            .expect("a window")
            .expect("a window")
            .id,
        WindowId("0x55c9".to_owned())
    );
    assert!(parse_active_window("[]", Err("invalid".to_owned())).is_err());
}

#[test]
fn test_window_handle_validation_rejects_injection() {
    assert!(is_window_handle("0x55c9ab"));
    assert!(!is_window_handle("0x55; rm -rf"));
    assert!(!is_window_handle("firefox"));
}

#[test]
fn the_compositor_is_asked_for_json() {
    assert_eq!(query_spec("monitors").program, "hyprctl");
    assert!(query_spec("monitors").args.contains(&"monitors".to_owned()));
}

#[test]
fn focusing_refuses_what_could_be_another_command() {
    assert!(focus_window_spec("0x55c9").is_ok());
    assert!(focus_window_spec("0x55; rm").is_err());

    let spec = focus_workspace_spec(&WorkspaceTarget::Id(WorkspaceId(-3))).expect("a command");
    assert!(spec.args.iter().any(|argument| argument.contains("-3")));
    assert!(focus_workspace_spec(&WorkspaceTarget::Name("a\"; exec".to_owned())).is_err());
}

#[test]
fn failures_of_the_compositor_keep_their_words() {
    let failed = || PortError::new("COMMAND_FAILED", "no socket".to_owned(), true);

    assert_eq!(dispatch_failure(failed()).message, "no socket");
    assert_eq!(hyprland_failure(failed()).message, "no socket");
    assert_eq!(hyprland_output("ok", ""), Ok(()));
    assert_eq!(
        hyprland_output("", "Window not found ")
            .expect_err("missing")
            .message,
        "Hyprland reported: Window not found"
    );
}

fn controller() -> AgentEndpoint {
    AgentEndpoint {
        address: IpAddr::V4(100, 64, 0, 7),
        port: 8765,
    }
}

#[test]
fn test_controller_bind_dispatches_directly_without_http() {
    let spec = install_session_keybinds_spec(SessionRole::Controller, None);

    assert_eq!(spec.program, "hyprctl");
    assert!(spec.args[1].contains("SUPER + R"));
    assert!(spec.args[1].contains("SUPER + Q"));
    assert!(spec.args[1].contains("hl.timer(function()"));
    assert!(spec.args[1].contains("timeout = 100"));
    assert!(spec.args[1]
        .contains("hl.dsp.focus({ window = \"class:com.moonlight_stream.Moonlight\" })"));
    assert!(spec.args[1].contains(
        "hl.dsp.send_key_state({ mods = \"CTRL ALT SHIFT\", key = \"Z\", state = \"down\" })"
    ));
    assert!(spec.args[1].contains(
        "hl.dsp.send_key_state({ mods = \"CTRL ALT SHIFT\", key = \"Z\", state = \"up\" })"
    ));
    assert!(spec.args[1].contains("timeout = 50"));
    assert!(!spec.args[1].contains("key = \"Super_L\""));
    assert!(!spec.args[1].contains("hl.dsp.send_shortcut"));
    assert!(!spec.args[1].contains("omdesk command"));
    assert!(spec.args[1].contains("omarchy-notification-send 'Omarchy Desk'"));
    assert!(spec.args[1].contains("allow_input_capture = false"));
    assert!(!spec.args[1].contains("allow_input_capture = true"));
}

#[test]
fn test_close_session_bind_closes_moonlight_window() {
    let controller_spec = install_session_keybinds_spec(SessionRole::Controller, None);
    assert!(controller_spec.args[1].contains(
        "eval hl.dispatch(hl.dsp.window.close({ window = \"class:com.moonlight_stream.Moonlight\" }))"
    ));

    let remote = install_session_keybinds_spec(SessionRole::Remote, Some(controller()));
    assert!(remote.args[1].contains("omdesk command close-window 100.64.0.7 --port 8765"));
    assert!(remote.args[1].contains("--window-class com.moonlight_stream.Moonlight"));
    assert!(remote.args[1].contains("close remote session"));
}

#[test]
fn test_remote_bind_forwards_to_controller_with_diagnostic_notify() {
    let spec = install_session_keybinds_spec(SessionRole::Remote, Some(controller()));

    assert!(spec.args[1].contains("SUPER + R"));
    assert!(spec.args[1].contains("omdesk command send-shortcut 100.64.0.7 --port 8765"));
    assert!(spec.args[1].contains("--mods 'CTRL ALT SHIFT' --key Z"));
    assert!(spec.args[1].contains("--window-class com.moonlight_stream.Moonlight"));
    assert!(!spec.args[1].contains("&& omarchy-notification-send 'Omarchy Desk'"));
    assert!(spec.args[1].contains("|| omarchy-notification-send 'Omarchy Desk'"));
    assert!(spec.args[1].contains("allow_input_capture = true"));
    assert!(!spec.args[1].contains("allow_input_capture = false"));
    assert!(spec.args[1].contains("${XDG_RUNTIME_DIR:-/tmp}/omdesk-keybind.log"));
}

#[test]
fn test_install_clears_prior_bindings_before_registering() {
    let spec = install_session_keybinds_spec(SessionRole::Controller, None);

    let clear = spec.args[1].find(":remove()").expect("clears prior binds");
    let register = spec.args[1].find("hl.bind(").expect("registers binds");
    assert!(clear < register);
}

#[test]
fn test_remote_install_without_controller_registers_nothing() {
    let spec = install_session_keybinds_spec(SessionRole::Remote, None);

    assert!(!spec.args[1].contains("hl.bind"));
}

#[test]
fn test_remove_clears_only_omdesk_bindings() {
    let spec = remove_session_keybinds_spec();

    assert!(spec.args[1].contains("omdesk_binds"));
    assert!(spec.args[1].contains(":remove()"));
    assert!(!spec.args[1].contains("hl.unbind"));
}

#[test]
fn test_command_actions_build_focus_and_key_state_sequence() {
    let actions = command_actions(&moonlight_shortcut("Z"), &[]).expect("action renders");

    assert_eq!(
        actions,
        vec![
            "hl.dsp.focus({ window = \"class:com.moonlight_stream.Moonlight\" })".to_owned(),
            "hl.dsp.send_key_state({ mods = \"\", key = \"Control_L\", state = \"down\" })"
                .to_owned(),
            "hl.dsp.send_key_state({ mods = \"\", key = \"Alt_L\", state = \"down\" })".to_owned(),
            "hl.dsp.send_key_state({ mods = \"\", key = \"Shift_L\", state = \"down\" })"
                .to_owned(),
            "hl.dsp.send_key_state({ mods = \"\", key = \"Z\", state = \"down\" })".to_owned(),
            "hl.dsp.send_key_state({ mods = \"\", key = \"Z\", state = \"up\" })".to_owned(),
            "hl.dsp.send_key_state({ mods = \"\", key = \"Shift_L\", state = \"up\" })".to_owned(),
            "hl.dsp.send_key_state({ mods = \"\", key = \"Alt_L\", state = \"up\" })".to_owned(),
            "hl.dsp.send_key_state({ mods = \"\", key = \"Control_L\", state = \"up\" })"
                .to_owned(),
        ]
    );
}

#[test]
fn test_command_actions_release_held_trigger_modifiers_before_chord() {
    let actions =
        command_actions(&moonlight_shortcut("Z"), &[KeyModifier::Super]).expect("action renders");

    assert_eq!(
        actions[0],
        "hl.dsp.focus({ window = \"class:com.moonlight_stream.Moonlight\" })"
    );
    assert_eq!(
        actions[1],
        "hl.dsp.send_key_state({ mods = \"\", key = \"Super_L\", state = \"up\" })"
    );
    assert_eq!(
        actions[2],
        "hl.dsp.send_key_state({ mods = \"\", key = \"Control_L\", state = \"down\" })"
    );
    assert!(!actions
        .iter()
        .any(|action| action.contains("key = \"Super_L\", state = \"down\"")));
}

/// Runs a command against a compositor that answers the question for the window with `answer`, and
/// collects what it is told.
fn execute(command: RemoteCommand, answer: &str) -> (Vec<CommandSpec>, PortResult<()>) {
    let mut calls = Vec::new();
    match plan_command(&command) {
        Err(error) => (calls, Err(error)),
        Ok(CommandPlan::Run(spec)) => {
            calls.push(spec);
            (calls, Ok(()))
        }
        Ok(CommandPlan::Query(spec)) => {
            calls.push(spec);
            let RemoteCommand::SendShortcut { chord, window } = command else {
                panic!("only a shortcut asks for the window");
            };
            let focused = active_window_address(answer.as_bytes());
            match shortcut_after_query(&chord, &window, focused) {
                Err(error) => (calls, Err(error)),
                Ok(spec) => {
                    calls.push(spec);
                    (calls, Ok(()))
                }
            }
        }
    }
}

#[test]
fn test_shortcut_focuses_target_sends_key_states_and_restores_focus() {
    let (calls, result) = execute(moonlight_shortcut("F2"), r#"{"address":"0xabc123"}"#);

    assert_eq!(result, Ok(()));
    assert_eq!(calls.len(), 2);
    assert_eq!(calls[0].args, ["activewindow", "-j"]);
    assert_eq!(calls[1].args[0], "eval");
    let lua = &calls[1].args[1];
    assert!(lua.contains("hl.dsp.focus({ window = \"class:com.moonlight_stream.Moonlight\" })"));
    let expected = [
        "key = \"Control_L\", state = \"down\"",
        "key = \"Alt_L\", state = \"down\"",
        "key = \"Shift_L\", state = \"down\"",
        "key = \"F2\", state = \"down\"",
        "key = \"F2\", state = \"up\"",
        "key = \"Shift_L\", state = \"up\"",
        "key = \"Alt_L\", state = \"up\"",
        "key = \"Control_L\", state = \"up\"",
        "address:0xabc123",
    ];
    let mut previous = 0;
    for fragment in expected {
        let position = lua[previous..]
            .find(fragment)
            .map(|position| position + previous)
            .expect("timed sequence contains ordered action");
        previous = position + fragment.len();
    }
    assert_eq!(lua.matches("timeout = 25").count(), 8);
    assert!(!lua.contains("mods = \"CTRL ALT SHIFT\""));
}

#[test]
fn test_capture_toggle_uses_combined_modifiers_for_moonlight_hotkey() {
    let (calls, _) = execute(moonlight_shortcut("Z"), r#"{"address":"0xabc123"}"#);

    let lua = &calls[1].args[1];
    assert!(lua.contains(
        "hl.dsp.send_key_state({ mods = \"CTRL ALT SHIFT\", key = \"Z\", state = \"down\" })"
    ));
    assert!(lua.contains(
        "hl.dsp.send_key_state({ mods = \"CTRL ALT SHIFT\", key = \"Z\", state = \"up\" })"
    ));
    assert_eq!(lua.matches("timeout = 50").count(), 1);
}

#[test]
fn test_shortcut_restores_focus_when_target_focus_fails() {
    let (calls, _) = execute(moonlight_shortcut("F2"), r#"{"address":"0xabc123"}"#);
    let error = hyprland_failure(PortError::new(
        "TEST_FAILURE",
        "target focus failed".to_owned(),
        false,
    ));

    assert_eq!(error.message, "target focus failed");
    assert_eq!(calls.len(), 2);
    assert!(calls[1].args[1].contains("address:0xabc123"));
    assert!(calls[1].args[1].contains("send_key_state"));
}

#[test]
fn test_shortcut_rejects_invalid_previous_window_without_injecting_input() {
    let (calls, result) = execute(moonlight_shortcut("F2"), r#"{"address":"$(unsafe)"}"#);

    assert_eq!(
        result.expect_err("invalid address fails").code,
        "HYPRLAND_TARGET_MISSING"
    );
    assert_eq!(calls.len(), 1);
}

#[test]
fn test_active_window_shortcut_uses_key_state_flow_without_focus_changes() {
    let command = RemoteCommand::SendShortcut {
        chord: KeyChord::new(vec![KeyModifier::Ctrl], "Z".to_owned()).expect("valid chord"),
        window: WindowSelector::ActiveWindow,
    };

    let (calls, result) = execute(command, "");

    assert_eq!(result, Ok(()));
    assert_eq!(calls.len(), 1);
    assert_eq!(calls[0].args[0], "eval");
    let lua = &calls[0].args[1];
    assert!(lua.contains("hl.dsp.send_key_state({ mods = \"CTRL\", key = \"Z\", state = \"down\" })"));
    assert!(lua.contains("hl.dsp.send_key_state({ mods = \"CTRL\", key = \"Z\", state = \"up\" })"));
    assert!(!lua.contains("hl.dsp.focus"));
}

#[test]
fn the_address_of_a_window_is_read_from_json() {
    assert_eq!(
        active_window_address(br#"{"class":"foot","address":"0xabc123"}"#),
        Ok("0xabc123".to_owned())
    );
    for answer in ["{}", r#"{"address":7}"#, "not json", "", r#"{"address":"0xzz"}"#] {
        assert!(active_window_address(answer.as_bytes()).is_err(), "{answer}");
    }
    assert_eq!(
        checked_address(Ok(Some("0x1f".to_owned()))),
        Ok("0x1f".to_owned())
    );
    assert!(checked_address(Ok(None)).is_err());
    assert!(checked_address(Err("bad".to_owned())).is_err());
}

fn display(id: &str) -> Display {
    Display {
        id: id.to_owned(),
        name: id.to_owned(),
        width: 1920,
        height: 1080,
        refresh_bits: 60.0_f64.to_bits(),
        focused: false,
    }
}

#[test]
fn test_display_maps_to_deterministic_switch_index() {
    let displays = [display("eDP-1"), display("DP-2"), display("HDMI-A-1")];

    assert_eq!(
        display_switch_index(&displays, &DisplayId::from_text("eDP-1")),
        Some(0)
    );
    assert_eq!(
        display_switch_index(&displays, &DisplayId::from_text("HDMI-A-1")),
        Some(2)
    );
    assert_eq!(
        display_switch_index(&displays, &DisplayId::from_text("absent")),
        None
    );
}

#[test]
fn test_resolve_display_switch_shortcut_targets_moonlight_with_function_key() {
    let displays = [display("eDP-1"), display("DP-2"), display("HDMI-A-1")];
    let command = resolve_display_switch_shortcut(&displays, &DisplayId::from_text("DP-2"))
        .expect("valid display");

    match command {
        RemoteCommand::SendShortcut { chord, window } => {
            assert_eq!(chord.modifiers_hypr(), "CTRL ALT SHIFT");
            assert_eq!(chord.key(), "F2");
            assert_eq!(window.as_hypr(), format!("class:{MOONLIGHT_WINDOW_CLASS}"));
        }
        other => panic!("unexpected command: {other:?}"),
    }
}

#[test]
fn test_resolve_display_switch_shortcut_rejects_absent_display() {
    let displays = [display("eDP-1")];
    assert_eq!(
        resolve_display_switch_shortcut(&displays, &DisplayId::from_text("absent"))
            .expect_err("absent display")
            .code,
        "DISPLAY_NOT_FOUND"
    );
}

#[test]
fn test_resolve_display_switch_shortcut_rejects_index_beyond_sunshine_range() {
    let displays: Vec<Display> = (0..(SUNSHINE_MAX_SWITCH_DISPLAYS + 1))
        .map(|index| display(&format!("MON-{index}")))
        .collect();
    let target = DisplayId::from_text(format!("MON-{SUNSHINE_MAX_SWITCH_DISPLAYS}").as_str());

    assert_eq!(
        resolve_display_switch_shortcut(&displays, &target)
            .expect_err("out of range")
            .code,
        "DISPLAY_NOT_FOUND"
    );
}

#[test]
fn test_focus_event_detection_matches_relevant_hyprland_events() {
    assert!(is_focus_event("focusedmon>>DP-2,3"));
    assert!(is_focus_event("workspace>>3"));
    assert!(is_focus_event("monitorremoved>>DP-2"));
    assert!(!is_focus_event("openwindow>>0x55,3,foot,shell"));
    assert!(!is_focus_event("activelayout>>keyboard,us"));
}

#[test]
fn the_streamed_monitor_is_the_focused_one() {
    let mut focused = display("DP-2");
    focused.focused = true;

    assert_eq!(
        current_display(&[display("eDP-1"), focused]),
        Ok(DisplayId::from_text("DP-2"))
    );
    assert!(current_display(&[]).is_err());
    assert!(switch_display_command(&DisplayId::from_text("DP-2")).is_ok());
    assert!(switch_display_command(&DisplayId::from_text("DP;2")).is_err());
}

#[test]
fn events_come_from_the_socket_of_the_instance() {
    let paths = event_socket_candidates("abc", Some("/run/user/1000"));

    assert_eq!(paths[0], "/run/user/1000/hypr/abc/.socket2.sock");
    assert!(!event_socket_candidates("abc", None).is_empty());
}
