use omdesky::domain::{KeyChord, KeyModifier, RemoteCommand, SessionClaim, SessionGrant, WindowSelector};
use omdesky::error_code::{ErrorCode, ErrorEnvelope};
use omdesky::ids::SessionId;
use omdesky::protocol::{
    describe_fields, negotiate_protocol, CommandRequest, CommandResponse, PairingFieldError,
    SunshinePairRequest,
};
use omdesky::release::{is_compatible_release, ReleaseLine, MAX_RELEASE_BYTES, RELEASE};
use std::collections::HashSet;

#[test]
fn lib_test_negotiate_protocol_selects_highest_common_version() {
    assert_eq!(negotiate_protocol(&[1, 2, 3], &[1, 2]), Some(2));
}

#[test]
fn lib_test_negotiate_protocol_rejects_incompatible_versions() {
    assert_eq!(negotiate_protocol(&[2], &[1]), None);
}

#[test]
fn test_command_request_carries_freshness_and_session_claim() {
    let claim = SessionClaim {
        id: SessionId::new(),
        generation: 3,
    };
    let request = CommandRequest::for_session(RemoteCommand::DetachSession, claim);

    assert_eq!(request.session.map(|session| session.generation), Some(3));
    assert!(request.request_id.is_some());
    assert!(request.issued_at.is_some());
    assert_eq!(request.session, Some(claim));
}

#[test]
fn every_request_has_its_own_number_and_a_recent_time() {
    let command = RemoteCommand::SendShortcut {
        chord: KeyChord::new(vec![KeyModifier::Ctrl], "Z".to_owned()).expect("valid chord"),
        window: WindowSelector::ActiveWindow,
    };
    let first = CommandRequest::new(command);
    let second = CommandRequest::new(RemoteCommand::DetachSession);

    assert_ne!(first.request_id, second.request_id);
    assert_eq!(first.session, None);
    assert!(first.issued_at.expect("a time") > 1_600_000_000_000_000_000);
    assert!(first.issued_at <= second.issued_at);
}

#[test]
fn test_command_response_reports_a_session_grant() {
    let grant = SessionGrant {
        id: SessionId::new(),
        generation: 1,
        lease_seconds: 30,
    };
    let response = CommandResponse::granted(grant);

    assert!(response.executed);
    assert_eq!(response.session.map(|session| session.lease_seconds), Some(30));
    assert_eq!(CommandResponse::ignored().session, None);
    assert!(!CommandResponse::ignored().executed);
    assert!(CommandResponse::executed().executed);
}

#[test]
fn test_pairing_request_rejects_malformed_fields() {
    let valid = SunshinePairRequest {
        pairing_id: Some("ab-12".to_owned()),
        pin: "1234".to_owned(),
        client_name: "desktop-a".to_owned(),
    };
    assert_eq!(valid.validate(), Ok(()));

    let long_pin = SunshinePairRequest {
        pin: "12345".to_owned(),
        ..valid.clone()
    };
    assert_eq!(long_pin.validate(), Err(PairingFieldError::Pin));

    let hostile_name = SunshinePairRequest {
        client_name: "desk\u{1b}[2Jtop".to_owned(),
        ..valid.clone()
    };
    assert_eq!(hostile_name.validate(), Err(PairingFieldError::ClientName));

    let hostile_challenge = SunshinePairRequest {
        pairing_id: Some("../../etc".to_owned()),
        ..valid
    };
    assert_eq!(
        hostile_challenge.validate(),
        Err(PairingFieldError::PairingId)
    );
}

#[test]
fn test_pairing_request_debug_never_reveals_the_pin() {
    let request = SunshinePairRequest {
        pairing_id: None,
        pin: "4821".to_owned(),
        client_name: "desktop-a".to_owned(),
    };

    let rendered = request.describe();

    assert!(!rendered.contains("4821"));
    assert!(rendered.contains("<redacted>"));
}

#[test]
fn a_pairing_request_is_described_with_its_fields_escaped() {
    let request = |pairing_id: Option<&str>, client_name: &str| SunshinePairRequest {
        pairing_id: pairing_id.map(str::to_owned),
        pin: "4821".to_owned(),
        client_name: client_name.to_owned(),
    };

    assert_eq!(
        request(None, r#"a"b\c"#).describe(),
        r#"SunshinePairRequest { pairing_id: None, pin: "<redacted>", client_name: "a\"b\\c" }"#
    );
    assert_eq!(
        request(Some("ab-1"), "tab\tline\nzero\u{200b}").describe(),
        r#"SunshinePairRequest { pairing_id: Some("ab-1"), pin: "<redacted>", client_name: "tab\tline\nzero\u{200b}" }"#
    );
    assert_eq!(
        describe_fields(Some("1"), "2"),
        "SunshinePairRequest { pairing_id: Some(1), pin: \"<redacted>\", client_name: 2 }"
    );
}

#[test]
fn test_every_code_round_trips_through_its_wire_string() {
    for code in ErrorCode::ALL {
        assert_eq!(ErrorCode::from_code(code.as_str()), Some(code));
    }
}

#[test]
fn test_wire_strings_are_unique_uppercase_tokens() {
    let mut seen = HashSet::new();

    for code in ErrorCode::ALL {
        let value = code.as_str();

        assert!(seen.insert(value), "{value} is duplicated");
        assert!(
            value
                .bytes()
                .all(|byte| byte.is_ascii_uppercase() || byte == b'_'),
            "{value} is not an uppercase token"
        );
    }
}

#[test]
fn test_every_code_maps_to_an_error_status() {
    for code in ErrorCode::ALL {
        assert!((400..600).contains(&code.http_status()), "{code:?}");
    }
}

#[test]
fn test_an_unknown_code_is_not_recognized() {
    assert_eq!(ErrorCode::from_code("FUTURE_ERROR"), None);
}

#[test]
fn test_envelope_carries_the_code_and_its_retryability() {
    let envelope = ErrorEnvelope::new(ErrorCode::RateLimited, "slow down".to_owned());

    assert_eq!(envelope.error.code, "RATE_LIMITED");
    assert!(envelope.error.retryable);
    assert_eq!(envelope.error.message, "slow down");
    assert_eq!(envelope.error.known_code(), Some(ErrorCode::RateLimited));
}

#[test]
fn test_release_line_parses_major_and_minor() {
    assert_eq!(
        ReleaseLine::parse("0.2.7"),
        Some(ReleaseLine { major: 0, minor: 2 })
    );
}

#[test]
fn test_release_line_ignores_prerelease_and_build_metadata() {
    assert_eq!(
        ReleaseLine::parse("1.4.0-rc.1+abc"),
        Some(ReleaseLine { major: 1, minor: 4 })
    );
}

#[test]
fn test_release_line_rejects_malformed_versions() {
    for version in [
        "", "0.2", "0.2.x", "0.2.0.1", "v0.2.0", "00.2.0", " 0.2.0", "0..0",
    ] {
        assert_eq!(ReleaseLine::parse(version), None, "{version}");
    }
}

#[test]
fn test_release_line_rejects_oversized_versions() {
    let version = format!("0.2.{}", "1".repeat(MAX_RELEASE_BYTES));

    assert_eq!(ReleaseLine::parse(&version), None);
}

#[test]
fn test_current_release_is_parseable() {
    assert!(ReleaseLine::current().is_some());
    assert!(is_compatible_release(RELEASE));
}

#[test]
fn test_compatible_release_accepts_other_patch_versions() {
    let current = ReleaseLine::current().expect("current release parses");

    let other_patch = format!("{}.{}.999", current.major, current.minor);

    assert!(is_compatible_release(&other_patch));
}

#[test]
fn test_compatible_release_rejects_other_minor_and_major_versions() {
    let current = ReleaseLine::current().expect("current release parses");

    let previous_minor = format!("{}.{}.0", current.major, current.minor.wrapping_sub(1));
    let next_minor = format!("{}.{}.0", current.major, current.minor + 1);
    let next_major = format!("{}.{}.0", current.major + 1, current.minor);

    assert!(!is_compatible_release(&previous_minor));
    assert!(!is_compatible_release(&next_minor));
    assert!(!is_compatible_release(&next_major));
    assert!(!is_compatible_release("garbage"));
}

#[test]
fn older_release_lines_come_first() {
    let old = ReleaseLine { major: 0, minor: 9 };
    let new = ReleaseLine { major: 1, minor: 0 };

    assert!(old.is_older_than(&new));
    assert!(!new.is_older_than(&old));
    assert!(!new.is_older_than(&new));
}
