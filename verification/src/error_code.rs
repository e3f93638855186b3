//! The error codes that an agent answers with, and the envelope that carries them.
use vstd::prelude::*;
use vstd::string::*;

use crate::strings::same_text;

verus! {

/// Why an agent refused or failed a request.
#[derive(Clone, Copy, Debug, PartialEq, Eq, Hash, Structural)]
pub enum ErrorCode {
    Unauthorized,
    CapabilityDenied,
    CallbackAccessMissing,
    RateLimited,
    IdentityUnavailable,
    AccessStoreFailed,
    VersionIncompatible,
    ControllerUnreachable,
    NoController,
    InvalidCommand,
    RequestStale,
    RequestReplayed,
    PairingChallengeInvalid,
    SessionAlreadyOwned,
    SessionNotOwned,
    SessionNotFound,
    SessionEffectsFailed,
    HyprlandUnavailable,
    DisplayNotFound,
    WorkspaceNotFound,
    WindowNotFound,
    SunshineNotInstalled,
    SunshineNotRunning,
    SunshineApiUnavailable,
    SunshinePairingFailed,
    Internal,
}

impl ErrorCode {
    pub const ALL: [ErrorCode; 26] = [
        ErrorCode::Unauthorized,
        ErrorCode::CapabilityDenied,
        ErrorCode::CallbackAccessMissing,
        ErrorCode::RateLimited,
        ErrorCode::IdentityUnavailable,
        ErrorCode::AccessStoreFailed,
        ErrorCode::VersionIncompatible,
        ErrorCode::ControllerUnreachable,
        ErrorCode::NoController,
        ErrorCode::InvalidCommand,
        ErrorCode::RequestStale,
        ErrorCode::RequestReplayed,
        ErrorCode::PairingChallengeInvalid,
        ErrorCode::SessionAlreadyOwned,
        ErrorCode::SessionNotOwned,
        ErrorCode::SessionNotFound,
        ErrorCode::SessionEffectsFailed,
        ErrorCode::HyprlandUnavailable,
        ErrorCode::DisplayNotFound,
        ErrorCode::WorkspaceNotFound,
        ErrorCode::WindowNotFound,
        ErrorCode::SunshineNotInstalled,
        ErrorCode::SunshineNotRunning,
        ErrorCode::SunshineApiUnavailable,
        ErrorCode::SunshinePairingFailed,
        ErrorCode::Internal,
    ];

    /// The text of the code on the wire.
    pub open spec fn wire(self) -> Seq<char> {
        match self {
            ErrorCode::Unauthorized => "UNAUTHORIZED"@,
            ErrorCode::CapabilityDenied => "CAPABILITY_DENIED"@,
            ErrorCode::CallbackAccessMissing => "CALLBACK_ACCESS_MISSING"@,
            ErrorCode::RateLimited => "RATE_LIMITED"@,
            ErrorCode::IdentityUnavailable => "IDENTITY_UNAVAILABLE"@,
            ErrorCode::AccessStoreFailed => "ACCESS_STORE_FAILED"@,
            ErrorCode::VersionIncompatible => "VERSION_INCOMPATIBLE"@,
            ErrorCode::ControllerUnreachable => "CONTROLLER_UNREACHABLE"@,
            ErrorCode::NoController => "NO_CONTROLLER"@,
            ErrorCode::InvalidCommand => "INVALID_COMMAND"@,
            ErrorCode::RequestStale => "REQUEST_STALE"@,
            ErrorCode::RequestReplayed => "REQUEST_REPLAYED"@,
            ErrorCode::PairingChallengeInvalid => "PAIRING_CHALLENGE_INVALID"@,
            ErrorCode::SessionAlreadyOwned => "SESSION_ALREADY_OWNED"@,
            ErrorCode::SessionNotOwned => "SESSION_NOT_OWNED"@,
            ErrorCode::SessionNotFound => "SESSION_NOT_FOUND"@,
            ErrorCode::SessionEffectsFailed => "SESSION_EFFECTS_FAILED"@,
            ErrorCode::HyprlandUnavailable => "HYPRLAND_UNAVAILABLE"@,
            ErrorCode::DisplayNotFound => "DISPLAY_NOT_FOUND"@,
            ErrorCode::WorkspaceNotFound => "WORKSPACE_NOT_FOUND"@,
            ErrorCode::WindowNotFound => "WINDOW_NOT_FOUND"@,
            ErrorCode::SunshineNotInstalled => "SUNSHINE_NOT_INSTALLED"@,
            ErrorCode::SunshineNotRunning => "SUNSHINE_NOT_RUNNING"@,
            ErrorCode::SunshineApiUnavailable => "SUNSHINE_API_UNAVAILABLE"@,
            ErrorCode::SunshinePairingFailed => "SUNSHINE_PAIRING_FAILED"@,
            ErrorCode::Internal => "INTERNAL_ERROR"@,
        }
    }

    /// The status of the HTTP answer that carries the code.
    pub open spec fn status(self) -> u16 {
        match self {
            ErrorCode::Unauthorized => 401,
            ErrorCode::CapabilityDenied => 403,
            ErrorCode::CallbackAccessMissing => 403,
            ErrorCode::RateLimited => 429,
            ErrorCode::IdentityUnavailable => 503,
            ErrorCode::AccessStoreFailed => 500,
            ErrorCode::VersionIncompatible => 409,
            ErrorCode::ControllerUnreachable => 502,
            ErrorCode::NoController => 409,
            ErrorCode::InvalidCommand => 400,
            ErrorCode::RequestStale => 400,
            ErrorCode::RequestReplayed => 409,
            ErrorCode::PairingChallengeInvalid => 403,
            ErrorCode::SessionAlreadyOwned => 409,
            ErrorCode::SessionNotOwned => 403,
            ErrorCode::SessionNotFound => 404,
            ErrorCode::SessionEffectsFailed => 503,
            ErrorCode::HyprlandUnavailable => 503,
            ErrorCode::DisplayNotFound => 404,
            ErrorCode::WorkspaceNotFound => 404,
            ErrorCode::WindowNotFound => 404,
            ErrorCode::SunshineNotInstalled => 503,
            ErrorCode::SunshineNotRunning => 503,
            ErrorCode::SunshineApiUnavailable => 503,
            ErrorCode::SunshinePairingFailed => 502,
            ErrorCode::Internal => 500,
        }
    }

    /// Whether the same request may succeed later.
    pub open spec fn may_retry(self) -> bool {
        self == ErrorCode::RateLimited
            || self == ErrorCode::IdentityUnavailable
            || self == ErrorCode::ControllerUnreachable
            || self == ErrorCode::SessionEffectsFailed
            || self == ErrorCode::HyprlandUnavailable
            || self == ErrorCode::SunshineNotRunning
    }

    pub fn as_str(self) -> (r: &'static str)
        ensures
            r@ == self.wire(),
    {
        match self {
            ErrorCode::Unauthorized => "UNAUTHORIZED",
            ErrorCode::CapabilityDenied => "CAPABILITY_DENIED",
            ErrorCode::CallbackAccessMissing => "CALLBACK_ACCESS_MISSING",
            ErrorCode::RateLimited => "RATE_LIMITED",
            ErrorCode::IdentityUnavailable => "IDENTITY_UNAVAILABLE",
            ErrorCode::AccessStoreFailed => "ACCESS_STORE_FAILED",
            ErrorCode::VersionIncompatible => "VERSION_INCOMPATIBLE",
            ErrorCode::ControllerUnreachable => "CONTROLLER_UNREACHABLE",
            ErrorCode::NoController => "NO_CONTROLLER",
            ErrorCode::InvalidCommand => "INVALID_COMMAND",
            ErrorCode::RequestStale => "REQUEST_STALE",
            ErrorCode::RequestReplayed => "REQUEST_REPLAYED",
            ErrorCode::PairingChallengeInvalid => "PAIRING_CHALLENGE_INVALID",
            ErrorCode::SessionAlreadyOwned => "SESSION_ALREADY_OWNED",
            ErrorCode::SessionNotOwned => "SESSION_NOT_OWNED",
            ErrorCode::SessionNotFound => "SESSION_NOT_FOUND",
            ErrorCode::SessionEffectsFailed => "SESSION_EFFECTS_FAILED",
            ErrorCode::HyprlandUnavailable => "HYPRLAND_UNAVAILABLE",
            ErrorCode::DisplayNotFound => "DISPLAY_NOT_FOUND",
            ErrorCode::WorkspaceNotFound => "WORKSPACE_NOT_FOUND",
            ErrorCode::WindowNotFound => "WINDOW_NOT_FOUND",
            ErrorCode::SunshineNotInstalled => "SUNSHINE_NOT_INSTALLED",
            ErrorCode::SunshineNotRunning => "SUNSHINE_NOT_RUNNING",
            ErrorCode::SunshineApiUnavailable => "SUNSHINE_API_UNAVAILABLE",
            ErrorCode::SunshinePairingFailed => "SUNSHINE_PAIRING_FAILED",
            ErrorCode::Internal => "INTERNAL_ERROR",
        }
    }

    pub fn http_status(self) -> (r: u16)
        ensures
            r == self.status(),
    {
        match self {
            ErrorCode::Unauthorized => 401,
            ErrorCode::CapabilityDenied => 403,
            ErrorCode::CallbackAccessMissing => 403,
            ErrorCode::RateLimited => 429,
            ErrorCode::IdentityUnavailable => 503,
            ErrorCode::AccessStoreFailed => 500,
            ErrorCode::VersionIncompatible => 409,
            ErrorCode::ControllerUnreachable => 502,
            ErrorCode::NoController => 409,
            ErrorCode::InvalidCommand => 400,
            ErrorCode::RequestStale => 400,
            ErrorCode::RequestReplayed => 409,
            ErrorCode::PairingChallengeInvalid => 403,
            ErrorCode::SessionAlreadyOwned => 409,
            ErrorCode::SessionNotOwned => 403,
            ErrorCode::SessionNotFound => 404,
            ErrorCode::SessionEffectsFailed => 503,
            ErrorCode::HyprlandUnavailable => 503,
            ErrorCode::DisplayNotFound => 404,
            ErrorCode::WorkspaceNotFound => 404,
            ErrorCode::WindowNotFound => 404,
            ErrorCode::SunshineNotInstalled => 503,
            ErrorCode::SunshineNotRunning => 503,
            ErrorCode::SunshineApiUnavailable => 503,
            ErrorCode::SunshinePairingFailed => 502,
            ErrorCode::Internal => 500,
        }
    }

    pub fn retryable(self) -> (r: bool)
        ensures
            r == self.may_retry(),
    {
        match self {
            ErrorCode::RateLimited => true,
            ErrorCode::IdentityUnavailable => true,
            ErrorCode::ControllerUnreachable => true,
            ErrorCode::SessionEffectsFailed => true,
            ErrorCode::HyprlandUnavailable => true,
            ErrorCode::SunshineNotRunning => true,
            _ => false,
        }
    }

    /// The code of that text on the wire.
    pub fn from_code(code: &str) -> (r: Option<ErrorCode>)
        ensures
            r is Some <==> exists|c: ErrorCode| code@ == #[trigger] c.wire(),
            r matches Some(c) ==> c.wire() == code@,
    {
        if same_text(code, "UNAUTHORIZED") {
            assert(code@ == ErrorCode::Unauthorized.wire());
            return Some(ErrorCode::Unauthorized);
        }
        if same_text(code, "CAPABILITY_DENIED") {
            assert(code@ == ErrorCode::CapabilityDenied.wire());
            return Some(ErrorCode::CapabilityDenied);
        }
        if same_text(code, "CALLBACK_ACCESS_MISSING") {
            assert(code@ == ErrorCode::CallbackAccessMissing.wire());
            return Some(ErrorCode::CallbackAccessMissing);
        }
        if same_text(code, "RATE_LIMITED") {
            assert(code@ == ErrorCode::RateLimited.wire());
            return Some(ErrorCode::RateLimited);
        }
        if same_text(code, "IDENTITY_UNAVAILABLE") {
            assert(code@ == ErrorCode::IdentityUnavailable.wire());
            return Some(ErrorCode::IdentityUnavailable);
        }
        if same_text(code, "ACCESS_STORE_FAILED") {
            assert(code@ == ErrorCode::AccessStoreFailed.wire());
            return Some(ErrorCode::AccessStoreFailed);
        }
        if same_text(code, "VERSION_INCOMPATIBLE") {
            assert(code@ == ErrorCode::VersionIncompatible.wire());
            return Some(ErrorCode::VersionIncompatible);
        }
        if same_text(code, "CONTROLLER_UNREACHABLE") {
            assert(code@ == ErrorCode::ControllerUnreachable.wire());
            return Some(ErrorCode::ControllerUnreachable);
        }
        if same_text(code, "NO_CONTROLLER") {
            assert(code@ == ErrorCode::NoController.wire());
            return Some(ErrorCode::NoController);
        }
        if same_text(code, "INVALID_COMMAND") {
            assert(code@ == ErrorCode::InvalidCommand.wire());
            return Some(ErrorCode::InvalidCommand);
        }
        if same_text(code, "REQUEST_STALE") {
            assert(code@ == ErrorCode::RequestStale.wire());
            return Some(ErrorCode::RequestStale);
        }
        if same_text(code, "REQUEST_REPLAYED") {
            assert(code@ == ErrorCode::RequestReplayed.wire());
            return Some(ErrorCode::RequestReplayed);
        }
        if same_text(code, "PAIRING_CHALLENGE_INVALID") {
            assert(code@ == ErrorCode::PairingChallengeInvalid.wire());
            return Some(ErrorCode::PairingChallengeInvalid);
        }
        if same_text(code, "SESSION_ALREADY_OWNED") {
            assert(code@ == ErrorCode::SessionAlreadyOwned.wire());
            return Some(ErrorCode::SessionAlreadyOwned);
        }
        if same_text(code, "SESSION_NOT_OWNED") {
            assert(code@ == ErrorCode::SessionNotOwned.wire());
            return Some(ErrorCode::SessionNotOwned);
        }
        if same_text(code, "SESSION_NOT_FOUND") {
            assert(code@ == ErrorCode::SessionNotFound.wire());
            return Some(ErrorCode::SessionNotFound);
        }
        if same_text(code, "SESSION_EFFECTS_FAILED") {
            assert(code@ == ErrorCode::SessionEffectsFailed.wire());
            return Some(ErrorCode::SessionEffectsFailed);
        }
        if same_text(code, "HYPRLAND_UNAVAILABLE") {
            assert(code@ == ErrorCode::HyprlandUnavailable.wire());
            return Some(ErrorCode::HyprlandUnavailable);
        }
        if same_text(code, "DISPLAY_NOT_FOUND") {
            assert(code@ == ErrorCode::DisplayNotFound.wire());
            return Some(ErrorCode::DisplayNotFound);
        }
        if same_text(code, "WORKSPACE_NOT_FOUND") {
            assert(code@ == ErrorCode::WorkspaceNotFound.wire());
            return Some(ErrorCode::WorkspaceNotFound);
        }
        if same_text(code, "WINDOW_NOT_FOUND") {
            assert(code@ == ErrorCode::WindowNotFound.wire());
            return Some(ErrorCode::WindowNotFound);
        }
        if same_text(code, "SUNSHINE_NOT_INSTALLED") {
            assert(code@ == ErrorCode::SunshineNotInstalled.wire());
            return Some(ErrorCode::SunshineNotInstalled);
        }
        if same_text(code, "SUNSHINE_NOT_RUNNING") {
            assert(code@ == ErrorCode::SunshineNotRunning.wire());
            return Some(ErrorCode::SunshineNotRunning);
        }
        if same_text(code, "SUNSHINE_API_UNAVAILABLE") {
            assert(code@ == ErrorCode::SunshineApiUnavailable.wire());
            return Some(ErrorCode::SunshineApiUnavailable);
        }
        if same_text(code, "SUNSHINE_PAIRING_FAILED") {
            assert(code@ == ErrorCode::SunshinePairingFailed.wire());
            return Some(ErrorCode::SunshinePairingFailed);
        }
        if same_text(code, "INTERNAL_ERROR") {
            assert(code@ == ErrorCode::Internal.wire());
            return Some(ErrorCode::Internal);
        }
        None
    }
}

/// Different codes differ on the wire, so a code is read back as what was written.
pub proof fn law_wire_codes_are_distinct(a: ErrorCode, b: ErrorCode)
    ensures
        a.wire() == b.wire() ==> a == b,
{
    reveal_strlit("UNAUTHORIZED");
    assert("UNAUTHORIZED"@.len() == 12 && "UNAUTHORIZED"@[0] == 'U');
    reveal_strlit("CAPABILITY_DENIED");
    assert("CAPABILITY_DENIED"@.len() == 17 && "CAPABILITY_DENIED"@[0] == 'C');
    reveal_strlit("CALLBACK_ACCESS_MISSING");
    assert("CALLBACK_ACCESS_MISSING"@.len() == 23 && "CALLBACK_ACCESS_MISSING"@[0] == 'C');
    reveal_strlit("RATE_LIMITED");
    assert("RATE_LIMITED"@.len() == 12 && "RATE_LIMITED"@[0] == 'R');
    reveal_strlit("IDENTITY_UNAVAILABLE");
    assert("IDENTITY_UNAVAILABLE"@.len() == 20 && "IDENTITY_UNAVAILABLE"@[0] == 'I');
    reveal_strlit("ACCESS_STORE_FAILED");
    assert("ACCESS_STORE_FAILED"@.len() == 19 && "ACCESS_STORE_FAILED"@[0] == 'A');
    reveal_strlit("VERSION_INCOMPATIBLE");
    assert("VERSION_INCOMPATIBLE"@.len() == 20 && "VERSION_INCOMPATIBLE"@[0] == 'V');
    reveal_strlit("CONTROLLER_UNREACHABLE");
    assert("CONTROLLER_UNREACHABLE"@.len() == 22 && "CONTROLLER_UNREACHABLE"@[0] == 'C');
    reveal_strlit("NO_CONTROLLER");
    assert("NO_CONTROLLER"@.len() == 13 && "NO_CONTROLLER"@[0] == 'N');
    reveal_strlit("INVALID_COMMAND");
    assert("INVALID_COMMAND"@.len() == 15 && "INVALID_COMMAND"@[0] == 'I');
    reveal_strlit("REQUEST_STALE");
    assert("REQUEST_STALE"@.len() == 13 && "REQUEST_STALE"@[0] == 'R');
    reveal_strlit("REQUEST_REPLAYED");
    assert("REQUEST_REPLAYED"@.len() == 16 && "REQUEST_REPLAYED"@[0] == 'R');
    reveal_strlit("PAIRING_CHALLENGE_INVALID");
    assert("PAIRING_CHALLENGE_INVALID"@.len() == 25 && "PAIRING_CHALLENGE_INVALID"@[0] == 'P');
    reveal_strlit("SESSION_ALREADY_OWNED");
    assert("SESSION_ALREADY_OWNED"@.len() == 21 && "SESSION_ALREADY_OWNED"@[0] == 'S');
    reveal_strlit("SESSION_NOT_OWNED");
    assert("SESSION_NOT_OWNED"@.len() == 17 && "SESSION_NOT_OWNED"@[0] == 'S' && "SESSION_NOT_OWNED"@[12] == 'O');
    reveal_strlit("SESSION_NOT_FOUND");
    assert("SESSION_NOT_FOUND"@.len() == 17 && "SESSION_NOT_FOUND"@[0] == 'S' && "SESSION_NOT_FOUND"@[12] == 'F');
    reveal_strlit("SESSION_EFFECTS_FAILED");
    assert("SESSION_EFFECTS_FAILED"@.len() == 22 && "SESSION_EFFECTS_FAILED"@[0] == 'S' && "SESSION_EFFECTS_FAILED"@[1] == 'E');
    reveal_strlit("HYPRLAND_UNAVAILABLE");
    assert("HYPRLAND_UNAVAILABLE"@.len() == 20 && "HYPRLAND_UNAVAILABLE"@[0] == 'H');
    reveal_strlit("DISPLAY_NOT_FOUND");
    assert("DISPLAY_NOT_FOUND"@.len() == 17 && "DISPLAY_NOT_FOUND"@[0] == 'D');
    reveal_strlit("WORKSPACE_NOT_FOUND");
    assert("WORKSPACE_NOT_FOUND"@.len() == 19 && "WORKSPACE_NOT_FOUND"@[0] == 'W');
    reveal_strlit("WINDOW_NOT_FOUND");
    assert("WINDOW_NOT_FOUND"@.len() == 16 && "WINDOW_NOT_FOUND"@[0] == 'W');
    reveal_strlit("SUNSHINE_NOT_INSTALLED");
    assert("SUNSHINE_NOT_INSTALLED"@.len() == 22 && "SUNSHINE_NOT_INSTALLED"@[0] == 'S' && "SUNSHINE_NOT_INSTALLED"@[1] == 'U');
    reveal_strlit("SUNSHINE_NOT_RUNNING");
    assert("SUNSHINE_NOT_RUNNING"@.len() == 20 && "SUNSHINE_NOT_RUNNING"@[0] == 'S');
    reveal_strlit("SUNSHINE_API_UNAVAILABLE");
    assert("SUNSHINE_API_UNAVAILABLE"@.len() == 24 && "SUNSHINE_API_UNAVAILABLE"@[0] == 'S');
    reveal_strlit("SUNSHINE_PAIRING_FAILED");
    assert("SUNSHINE_PAIRING_FAILED"@.len() == 23 && "SUNSHINE_PAIRING_FAILED"@[0] == 'S');
    reveal_strlit("INTERNAL_ERROR");
    assert("INTERNAL_ERROR"@.len() == 14 && "INTERNAL_ERROR"@[0] == 'I');
}

/// Every code is answered with a status of the client or server error class.
pub proof fn law_every_code_has_an_error_status(code: ErrorCode)
    ensures
        400 <= code.status() < 600,
{
}

/// An error as it is answered.
#[derive(Debug, PartialEq, Eq)]
pub struct ProtocolError {
    pub code: String,
    pub message: String,
    pub retryable: bool,
}

#[derive(Debug, PartialEq, Eq)]
pub struct ErrorEnvelope {
    pub error: ProtocolError,
}

impl ErrorEnvelope {
    pub fn new(code: ErrorCode, message: String) -> (r: Self)
        ensures
            r.error.code@ == code.wire(),
            r.error.message == message,
            r.error.retryable == code.may_retry(),
    {
        ErrorEnvelope {
            error: ProtocolError { code: code.as_str().to_owned(), message, retryable: code.retryable() },
        }
    }
}

impl ProtocolError {
    /// The code, where it is one that this release knows.
    pub fn known_code(&self) -> (r: Option<ErrorCode>)
        ensures
            r is Some <==> exists|c: ErrorCode| self.code@ == #[trigger] c.wire(),
            r matches Some(c) ==> c.wire() == self.code@,
    {
        ErrorCode::from_code(self.code.as_str())
    }
}

/// A code is read back from its text on the wire, and the texts are these.
pub proof fn law_codes_are_read_back(code: ErrorCode, text: &'static str, r: Option<ErrorCode>)
    requires
        call_ensures(ErrorCode::as_str, (code,), text),
        call_ensures(ErrorCode::from_code, (text,), r),
    ensures
        r == Some(code),
        code == ErrorCode::Unauthorized ==> text@ == "UNAUTHORIZED"@,
        code == ErrorCode::CapabilityDenied ==> text@ == "CAPABILITY_DENIED"@,
        code == ErrorCode::CallbackAccessMissing ==> text@ == "CALLBACK_ACCESS_MISSING"@,
        code == ErrorCode::RateLimited ==> text@ == "RATE_LIMITED"@,
        code == ErrorCode::IdentityUnavailable ==> text@ == "IDENTITY_UNAVAILABLE"@,
        code == ErrorCode::AccessStoreFailed ==> text@ == "ACCESS_STORE_FAILED"@,
        code == ErrorCode::VersionIncompatible ==> text@ == "VERSION_INCOMPATIBLE"@,
        code == ErrorCode::ControllerUnreachable ==> text@ == "CONTROLLER_UNREACHABLE"@,
        code == ErrorCode::NoController ==> text@ == "NO_CONTROLLER"@,
        code == ErrorCode::InvalidCommand ==> text@ == "INVALID_COMMAND"@,
        code == ErrorCode::RequestStale ==> text@ == "REQUEST_STALE"@,
        code == ErrorCode::RequestReplayed ==> text@ == "REQUEST_REPLAYED"@,
        code == ErrorCode::PairingChallengeInvalid ==> text@ == "PAIRING_CHALLENGE_INVALID"@,
        code == ErrorCode::SessionAlreadyOwned ==> text@ == "SESSION_ALREADY_OWNED"@,
        code == ErrorCode::SessionNotOwned ==> text@ == "SESSION_NOT_OWNED"@,
        code == ErrorCode::SessionNotFound ==> text@ == "SESSION_NOT_FOUND"@,
        code == ErrorCode::SessionEffectsFailed ==> text@ == "SESSION_EFFECTS_FAILED"@,
        code == ErrorCode::HyprlandUnavailable ==> text@ == "HYPRLAND_UNAVAILABLE"@,
        code == ErrorCode::DisplayNotFound ==> text@ == "DISPLAY_NOT_FOUND"@,
        code == ErrorCode::WorkspaceNotFound ==> text@ == "WORKSPACE_NOT_FOUND"@,
        code == ErrorCode::WindowNotFound ==> text@ == "WINDOW_NOT_FOUND"@,
        code == ErrorCode::SunshineNotInstalled ==> text@ == "SUNSHINE_NOT_INSTALLED"@,
        code == ErrorCode::SunshineNotRunning ==> text@ == "SUNSHINE_NOT_RUNNING"@,
        code == ErrorCode::SunshineApiUnavailable ==> text@ == "SUNSHINE_API_UNAVAILABLE"@,
        code == ErrorCode::SunshinePairingFailed ==> text@ == "SUNSHINE_PAIRING_FAILED"@,
        code == ErrorCode::Internal ==> text@ == "INTERNAL_ERROR"@,
{
    assert(text@ == code.wire());
    if let Some(c) = r {
        law_wire_codes_are_distinct(code, c);
    }
}

/// The status tells whose the fault is: who asks is not known (401), may not (403), asks for what is
/// not there (404) or not now (409), asks too often (429) or badly (400); else the fault is here (500),
/// at the other end (502), or passes (503).
pub proof fn law_the_status_tells_whose_fault_it_is(code: ErrorCode, r: u16)
    requires
        call_ensures(ErrorCode::http_status, (code,), r),
    ensures
        r == 401 <==> code == ErrorCode::Unauthorized,
        r == 403 <==> code == ErrorCode::CapabilityDenied || code == ErrorCode::CallbackAccessMissing
            || code == ErrorCode::PairingChallengeInvalid || code == ErrorCode::SessionNotOwned,
        r == 404 <==> code == ErrorCode::SessionNotFound || code == ErrorCode::DisplayNotFound || code
            == ErrorCode::WorkspaceNotFound || code == ErrorCode::WindowNotFound,
        r == 409 <==> code == ErrorCode::VersionIncompatible || code == ErrorCode::NoController || code
            == ErrorCode::RequestReplayed || code == ErrorCode::SessionAlreadyOwned,
        r == 429 <==> code == ErrorCode::RateLimited,
        r == 400 <==> code == ErrorCode::InvalidCommand || code == ErrorCode::RequestStale,
        r == 500 <==> code == ErrorCode::AccessStoreFailed || code == ErrorCode::Internal,
        r == 502 <==> code == ErrorCode::ControllerUnreachable || code
            == ErrorCode::SunshinePairingFailed,
        r == 503 <==> code == ErrorCode::IdentityUnavailable || code == ErrorCode::SessionEffectsFailed
            || code == ErrorCode::HyprlandUnavailable || code == ErrorCode::SunshineNotInstalled || code
            == ErrorCode::SunshineNotRunning || code == ErrorCode::SunshineApiUnavailable,
{
}

/// Only what passes by itself is worth trying again, and an answer says so under its code.
pub proof fn law_only_what_passes_is_tried_again(
    code: ErrorCode,
    r: bool,
    message: String,
    envelope: ErrorEnvelope,
    text: &'static str,
)
    requires
        call_ensures(ErrorCode::retryable, (code,), r),
        call_ensures(ErrorEnvelope::new, (code, message), envelope),
        call_ensures(ErrorCode::as_str, (code,), text),
    ensures
        r <==> code == ErrorCode::RateLimited || code == ErrorCode::IdentityUnavailable || code
            == ErrorCode::ControllerUnreachable || code == ErrorCode::SessionEffectsFailed || code
            == ErrorCode::HyprlandUnavailable || code == ErrorCode::SunshineNotRunning,
        envelope.error.retryable == r,
        envelope.error.code@ == text@,
        envelope.error.message@ == message@,
{
}

/// An answer of this release is understood as the code that it was given for.
pub proof fn law_an_answer_is_understood(
    code: ErrorCode,
    message: String,
    envelope: ErrorEnvelope,
    r: Option<ErrorCode>,
)
    requires
        call_ensures(ErrorEnvelope::new, (code, message), envelope),
        call_ensures(ProtocolError::known_code, (&envelope.error,), r),
    ensures
        r == Some(code),
{
    assert(envelope.error.code@ == code.wire());
    if let Some(c) = r {
        law_wire_codes_are_distinct(code, c);
    }
}

} // verus!
