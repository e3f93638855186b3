use omdesky::domain::{
    bitrate_kbps_from_mbps, choose_address, follow_focus_target, is_tailscale_address,
    ControlCapability, Display, DisplayId, DisplayMode, DomainError, IpAddr, KeyChord, KeyModifier,
    NodeCapabilities, RemoteCommand, RemoteDesktopTopology, SessionClaim, SessionEndpoint,
    SessionGrant, SessionRole, StreamProfile, WindowSelector,
};
use omdesky::ids::{InvalidId, NodeId, SessionId};

fn texts(values: &[&str]) -> Vec<String> {
    values.iter().map(|value| value.to_string()).collect()
}

fn topology(displays: &[&str], focused: Option<&str>) -> RemoteDesktopTopology {
    RemoteDesktopTopology::new(
        displays.iter().map(|id| DisplayId::from_text(id)).collect(),
        focused.map(DisplayId::from_text),
    )
}

#[test]
fn test_capabilities_preserve_unknown_values() {
    let capabilities =
        NodeCapabilities::new(texts(&["desktop.stream-host", "future.capability"]));

    assert!(capabilities.contains("future.capability"));
    assert!(!capabilities.contains("future"));
}

#[test]
fn capabilities_are_kept_once_and_in_order() {
    let capabilities = NodeCapabilities::new(texts(&["b", "a", "b"]));

    assert_eq!(capabilities.as_slice(), texts(&["a", "b"]).as_slice());
    assert_eq!(capabilities.clone(), capabilities);
    assert!(NodeCapabilities::default().as_slice().is_empty());
}

#[test]
fn test_key_chord_rejects_unsafe_key_token() {
    assert_eq!(
        KeyChord::new(vec![KeyModifier::Ctrl], "Z; rm".to_owned()),
        Err(DomainError::InvalidKeyChord)
    );
    assert_eq!(
        KeyChord::new(vec![KeyModifier::Ctrl], "".to_owned()),
        Err(DomainError::InvalidKeyChord)
    );
}

#[test]
fn test_key_chord_renders_sorted_deduplicated_modifiers() {
    let chord = KeyChord::new(
        vec![
            KeyModifier::Shift,
            KeyModifier::Ctrl,
            KeyModifier::Alt,
            KeyModifier::Ctrl,
        ],
        "Z".to_owned(),
    )
    .expect("valid chord");

    assert_eq!(chord.modifiers_hypr(), "CTRL ALT SHIFT");
    assert_eq!(chord.key(), "Z");
    assert_eq!(
        chord.modifiers(),
        [KeyModifier::Ctrl, KeyModifier::Alt, KeyModifier::Shift]
    );
}

#[test]
fn test_window_selector_accepts_reverse_dns_class() {
    let selector = WindowSelector::Class("com.moonlight_stream.Moonlight".to_owned());

    assert!(selector.validate().is_ok());
    assert_eq!(selector.as_hypr(), "class:com.moonlight_stream.Moonlight");
}

#[test]
fn test_window_selector_rejects_unsafe_address() {
    assert_eq!(
        WindowSelector::Address("0x55; rm -rf /".to_owned()).validate(),
        Err(DomainError::InvalidWindowSelector)
    );
    assert_eq!(
        WindowSelector::Address("moonlight".to_owned()).validate(),
        Err(DomainError::InvalidWindowSelector)
    );
    assert_eq!(
        WindowSelector::Address(format!("0x{}", "a".repeat(64))).validate(),
        Err(DomainError::InvalidWindowSelector)
    );
    assert_eq!(WindowSelector::Address("0x55aF".to_owned()).validate(), Ok(()));
    assert_eq!(
        WindowSelector::Address("0x55".to_owned()).as_hypr(),
        "address:0x55"
    );
    assert_eq!(WindowSelector::ActiveWindow.as_hypr(), "activewindow");
}

#[test]
fn test_only_the_cgnat_range_counts_as_tailscale() {
    assert!(is_tailscale_address(IpAddr::V4(100, 64, 0, 1)));
    assert!(is_tailscale_address(IpAddr::V4(100, 127, 255, 254)));
    assert!(!is_tailscale_address(IpAddr::V4(100, 0, 0, 1)));
    assert!(!is_tailscale_address(IpAddr::V4(100, 63, 255, 255)));
    assert!(!is_tailscale_address(IpAddr::V4(100, 128, 0, 1)));
    assert!(!is_tailscale_address(IpAddr::V4(192, 168, 1, 10)));
    assert!(!is_tailscale_address(IpAddr::V4(127, 0, 0, 1)));
}

#[test]
fn test_only_the_tailscale_ula_prefix_counts_as_tailscale() {
    assert!(is_tailscale_address(IpAddr::V6(0xfd7a, 0x115c, 0xa1e0, 0, 0, 0, 0, 1)));
    assert!(!is_tailscale_address(IpAddr::V6(0xfd7a, 0, 0, 0, 0, 0, 0, 1)));
    assert!(!is_tailscale_address(IpAddr::V6(0xfd7a, 0x115c, 0xa1e1, 0, 0, 0, 0, 1)));
    assert!(!is_tailscale_address(IpAddr::V6(0, 0, 0, 0, 0, 0, 0, 1)));
}

#[test]
fn an_ipv4_address_is_preferred() {
    let v4 = IpAddr::V4(100, 64, 0, 7);
    let v6 = IpAddr::V6(0xfd7a, 0x115c, 0xa1e0, 0, 0, 0, 0, 7);

    assert_eq!(choose_address(&vec![v6, v4]), Some(v4));
    assert_eq!(choose_address(&vec![v6]), Some(v6));
    assert_eq!(choose_address(&vec![]), None);
}

#[test]
fn test_capabilities_round_trip_through_their_wire_names() {
    for capability in ControlCapability::ALL {
        assert_eq!(ControlCapability::from_str(capability.as_str()), Ok(capability));
    }

    assert_eq!(
        ControlCapability::from_str("root_shell"),
        Err(DomainError::UnknownCapability)
    );
}

#[test]
fn test_commands_require_their_narrowest_capability() {
    assert_eq!(
        RemoteCommand::DetachSession.required_capability(),
        ControlCapability::ControlSession
    );
    assert_eq!(
        RemoteCommand::CloseWindow {
            window: WindowSelector::ActiveWindow
        }
        .required_capability(),
        ControlCapability::CloseStream
    );
    assert_eq!(
        RemoteCommand::SwitchStreamDisplay {
            display: DisplayId::from_text("DP-2")
        }
        .required_capability(),
        ControlCapability::SendShortcut
    );
}

#[test]
fn test_renew_session_is_session_control() {
    let command = RemoteCommand::RenewSession;

    assert!(command.is_session_control());
    assert_eq!(command.kind(), "renew_session");
    assert!(command.validate().is_ok());
}

#[test]
fn test_session_grant_yields_a_matching_claim() {
    let grant = SessionGrant {
        id: SessionId::new(),
        generation: 7,
        lease_seconds: 30,
    };

    assert_eq!(
        grant.claim(),
        SessionClaim {
            id: grant.id,
            generation: 7
        }
    );
}

#[test]
fn test_stream_profile_rejects_out_of_range_geometry() {
    let mut profile = StreamProfile::default();
    assert!(profile.validate().is_ok());

    profile.width = 0;
    assert_eq!(profile.validate(), Err(DomainError::InvalidStreamProfile));

    let mut profile = StreamProfile {
        fps: 1_000,
        ..StreamProfile::default()
    };
    assert_eq!(profile.validate(), Err(DomainError::InvalidStreamProfile));

    profile.fps = 60;
    profile.bitrate_kbps = Some(u32::MAX);
    assert_eq!(profile.validate(), Err(DomainError::InvalidStreamProfile));
}

#[test]
fn test_bitrate_conversion_rejects_overflow_and_out_of_range_values() {
    assert_eq!(bitrate_kbps_from_mbps(25), Ok(25_000));
    assert_eq!(
        bitrate_kbps_from_mbps(u32::MAX),
        Err(DomainError::InvalidStreamProfile)
    );
    assert_eq!(
        bitrate_kbps_from_mbps(4_300_000),
        Err(DomainError::InvalidStreamProfile)
    );
    assert_eq!(
        bitrate_kbps_from_mbps(0),
        Err(DomainError::InvalidStreamProfile)
    );
}

#[test]
fn test_window_selector_rejects_unsafe_class() {
    assert_eq!(
        WindowSelector::Class("class:foo bar".to_owned()).validate(),
        Err(DomainError::InvalidWindowSelector)
    );
}

#[test]
fn test_remote_command_validate_rejects_deserialized_unsafe_payload() {
    let command = RemoteCommand::SendShortcut {
        chord: KeyChord::from_wire(vec![KeyModifier::Ctrl], "Z Z".to_owned()),
        window: WindowSelector::ActiveWindow,
    };

    assert_eq!(command.validate(), Err(DomainError::InvalidKeyChord));
}

#[test]
fn test_attach_session_requires_controller_for_remote_role() {
    let remote_without_controller = RemoteCommand::AttachSession {
        role: SessionRole::Remote,
        controller: None,
        window: None,
    };
    assert_eq!(
        remote_without_controller.validate(),
        Err(DomainError::InvalidSessionEndpoint)
    );

    let controller_role = RemoteCommand::AttachSession {
        role: SessionRole::Controller,
        controller: None,
        window: None,
    };
    assert!(controller_role.validate().is_ok());
}

#[test]
fn test_attach_session_roundtrips_with_typed_endpoint() {
    let command = RemoteCommand::AttachSession {
        role: SessionRole::Remote,
        controller: Some(SessionEndpoint {
            address: IpAddr::V4(100, 64, 0, 3),
            port: 8765,
        }),
        window: None,
    };

    assert!(command.validate().is_ok());
    assert_eq!(command.kind(), "attach_session");
    assert!(command.is_session_control());
}

#[test]
fn test_switch_stream_display_validates_supported_monitor_names() {
    let command = RemoteCommand::SwitchStreamDisplay {
        display: DisplayId::from_text("HDMI-A-1"),
    };
    assert!(command.validate().is_ok());
    assert_eq!(command.kind(), "switch_stream_display");
    assert!(!command.is_session_control());
}

#[test]
fn test_switch_stream_display_rejects_unsafe_monitor_identifiers() {
    let command = RemoteCommand::SwitchStreamDisplay {
        display: DisplayId::from_text("DP-1;rm -rf"),
    };
    assert_eq!(command.validate(), Err(DomainError::InvalidDisplayId));

    let empty = RemoteCommand::SwitchStreamDisplay {
        display: DisplayId::from_text(""),
    };
    assert_eq!(empty.validate(), Err(DomainError::InvalidDisplayId));
}

#[test]
fn the_only_display_mode_follows_the_focus() {
    assert_eq!(DisplayMode::default(), DisplayMode::FollowFocus);
    assert_eq!(DisplayMode::all(), [DisplayMode::FollowFocus]);
}

#[test]
fn test_follow_focus_same_display_requests_no_switch() {
    let topology = topology(&["eDP-1", "DP-2"], Some("eDP-1"));

    assert_eq!(
        follow_focus_target(&topology, &DisplayId::from_text("eDP-1")),
        None
    );
}

#[test]
fn test_follow_focus_switches_to_newly_focused_display() {
    let topology = topology(&["eDP-1", "DP-2"], Some("DP-2"));

    assert_eq!(
        follow_focus_target(&topology, &DisplayId::from_text("eDP-1")),
        Some(DisplayId::from_text("DP-2"))
    );
}

#[test]
fn test_follow_focus_falls_back_when_streamed_display_disappears() {
    let topology = topology(&["eDP-1"], Some("eDP-1"));

    assert_eq!(
        follow_focus_target(&topology, &DisplayId::from_text("DP-2")),
        Some(DisplayId::from_text("eDP-1"))
    );
}

#[test]
fn test_follow_focus_without_displays_requests_no_switch() {
    let topology = topology(&[], None);

    assert_eq!(
        follow_focus_target(&topology, &DisplayId::from_text("eDP-1")),
        None
    );
}

#[test]
fn following_the_focus_settles_after_one_switch() {
    let topology = topology(&["eDP-1", "DP-2"], Some("DP-2"));
    let target = follow_focus_target(&topology, &DisplayId::from_text("eDP-1")).expect("a switch");

    assert_eq!(follow_focus_target(&topology, &target), None);
}

#[test]
fn test_topology_from_displays_tracks_focused_monitor() {
    let displays = [
        Display {
            id: "eDP-1".to_owned(),
            name: "internal".to_owned(),
            width: 1920,
            height: 1080,
            refresh_bits: 60.0_f64.to_bits(),
            focused: false,
        },
        Display {
            id: "DP-2".to_owned(),
            name: "external".to_owned(),
            width: 2560,
            height: 1440,
            refresh_bits: 144.0_f64.to_bits(),
            focused: true,
        },
    ];

    let topology = RemoteDesktopTopology::from_displays(&displays);

    assert_eq!(topology.focused(), Some(&DisplayId::from_text("DP-2")));
    assert!(topology.contains(&DisplayId::from_text("eDP-1")));
}

#[test]
fn domain_errors_have_their_own_messages() {
    let errors = [
        DomainError::InvalidKeyChord,
        DomainError::InvalidWindowSelector,
        DomainError::InvalidSessionEndpoint,
        DomainError::InvalidDisplayId,
        DomainError::InvalidStreamProfile,
        DomainError::UnknownCapability,
    ];

    for (index, error) in errors.iter().enumerate() {
        for other in &errors[index + 1..] {
            assert_ne!(error.message(), other.message());
        }
    }
}

#[test]
fn identifiers_are_random_and_read_back() {
    let node = NodeId::new();
    let session = SessionId::new();

    assert_ne!(node, NodeId::new());
    assert_ne!(session, SessionId::new());
    assert_eq!(NodeId::from_str(&node.to_text()), Ok(node));
    assert_eq!(SessionId::from_str(&session.to_text()), Ok(session));
    assert_eq!(node.to_text().len(), 36);
    assert_eq!(
        NodeId(0x67e5504410b1426f9247bb680e5fe0c8).to_text(),
        "67e55044-10b1-426f-9247-bb680e5fe0c8"
    );
    assert_eq!(
        SessionId::from_str("67e55044-10b1-426f-9247-bb680e5fe0c8"),
        Ok(SessionId(0x67e5504410b1426f9247bb680e5fe0c8))
    );
    assert_eq!(NodeId::from_str("not-a-uuid"), Err(InvalidId));
    assert_eq!(SessionId::from_str(""), Err(InvalidId));
}
