//! What computers say to each other: requests, answers and their checks.
use vstd::prelude::*;
use vstd::string::*;

use crate::domain::{
    ControlCapability, Display, RemoteCommand, SessionClaim, SessionGrant, Window, Workspace,
    WorkspaceTarget,
};
use crate::ids::{is_random_uuid, NodeId};
use crate::strings::{
    all_digits, ascii_alphanumeric, byte_count, byte_len, digit, every_char, is_ascii_alphanumeric,
    is_digit, opt_text,
};

verus! {

pub const PROTOCOL_V1: u16 = 1;

/// The protocol that this release speaks.
pub const PROTOCOL: u16 = 1;

pub const MAX_PAIRING_ID_BYTES: usize = 64;

pub const MAX_PIN_BYTES: usize = 16;

pub const MAX_CLIENT_NAME_BYTES: usize = 64;

#[derive(Debug, PartialEq, Eq)]
pub struct HealthResponse {
    pub status: String,
    pub protocol: u16,
    pub agent_version: String,
}

#[derive(Debug, PartialEq, Eq)]
pub struct NodeInfoResponse {
    pub node_id: String,
    pub hostname: String,
    pub omarchy_version: String,
    pub agent_version: String,
    pub protocol_versions: Vec<u16>,
    pub capabilities: Vec<String>,
}

#[derive(Debug, PartialEq, Eq)]
pub struct DisplaysResponse {
    pub displays: Vec<Display>,
}

#[derive(Debug, PartialEq, Eq)]
pub struct WorkspacesResponse {
    pub workspaces: Vec<Workspace>,
}

#[derive(Debug, PartialEq, Eq)]
pub struct WindowsResponse {
    pub windows: Vec<Window>,
}

#[derive(Debug, PartialEq, Eq)]
pub struct ActiveWindowResponse {
    pub window: Option<Window>,
}

#[derive(Debug, PartialEq, Eq)]
pub struct FocusWorkspaceRequest {
    pub target: WorkspaceTarget,
}

#[derive(Clone, Copy, Debug, PartialEq, Eq, Structural)]
pub struct FocusResponse {
    pub focused: bool,
}

/// A command with the session that it belongs to, and what shows that it is fresh: an identifier
/// that is used once, and the time of issue in nanoseconds since the Unix epoch.
#[derive(Debug, PartialEq, Eq)]
pub struct CommandRequest {
    pub command: RemoteCommand,
    pub session: Option<SessionClaim>,
    pub request_id: Option<u128>,
    pub issued_at: Option<i128>,
}

/// `OffsetDateTime::now_utc` reads the clock. Nothing is claimed of the time that it gives.
#[verifier::external_body]
pub(crate) fn now_unix_nanos() -> (r: i128)
{
    time::OffsetDateTime::now_utc().unix_timestamp_nanos()
}

impl CommandRequest {
    pub fn new(command: RemoteCommand) -> (r: Self)
        ensures
            r.command == command,
            r.session is None,
            r.request_id matches Some(id) && is_random_uuid(id),
            r.issued_at is Some,
    {
        CommandRequest {
            command,
            session: None,
            request_id: Some(NodeId::new().0),
            issued_at: Some(now_unix_nanos()),
        }
    }

    pub fn for_session(command: RemoteCommand, session: SessionClaim) -> (r: Self)
        ensures
            r.command == command,
            r.session == Some(session),
            r.request_id matches Some(id) && is_random_uuid(id),
            r.issued_at is Some,
    {
        let request = Self::new(command);
        CommandRequest {
            command: request.command,
            session: Some(session),
            request_id: request.request_id,
            issued_at: request.issued_at,
        }
    }
}

#[derive(Clone, Copy, Debug, PartialEq, Eq, Structural)]
pub struct CommandResponse {
    pub executed: bool,
    pub session: Option<SessionGrant>,
}

impl CommandResponse {
    pub fn executed() -> (r: Self)
        ensures
            r == (CommandResponse { executed: true, session: None }),
    {
        CommandResponse { executed: true, session: None }
    }

    pub fn ignored() -> (r: Self)
        ensures
            r == (CommandResponse { executed: false, session: None }),
    {
        CommandResponse { executed: false, session: None }
    }

    pub fn granted(session: SessionGrant) -> (r: Self)
        ensures
            r == (CommandResponse { executed: true, session: Some(session) }),
    {
        CommandResponse { executed: true, session: Some(session) }
    }
}

#[derive(Debug, PartialEq, Eq)]
pub struct SunshineStatusResponse {
    pub installed: bool,
    pub running: bool,
    pub ready: bool,
    pub desktop_app: Option<String>,
    pub pairing_api_available: bool,
}

#[derive(Debug, PartialEq, Eq)]
pub struct SunshinePairChallengeResponse {
    pub pairing_id: String,
    pub expires_in_seconds: u64,
}

/// A request to approve a Moonlight client by its PIN.
#[derive(PartialEq, Eq)]
pub struct SunshinePairRequest {
    pub pairing_id: Option<String>,
    pub pin: String,
    pub client_name: String,
}

impl Clone for SunshinePairRequest {
    fn clone(&self) -> (r: Self)
        ensures
            r == *self,
    {
        SunshinePairRequest {
            pairing_id: crate::domain::clone_optional(&self.pairing_id),
            pin: self.pin.clone(),
            client_name: self.client_name.clone(),
        }
    }
}

#[derive(Clone, Copy, Debug, PartialEq, Eq, Structural)]
pub enum PairingFieldError {
    Pin,
    ClientName,
    PairingId,
}

impl PairingFieldError {
    pub open spec fn spec_code(self) -> Seq<char> {
        match self {
            PairingFieldError::Pin => "INVALID_PAIRING_PIN"@,
            PairingFieldError::ClientName => "INVALID_PAIRING_CLIENT"@,
            PairingFieldError::PairingId => "INVALID_PAIRING_CHALLENGE"@,
        }
    }

    pub fn code(self) -> (r: &'static str)
        ensures
            r@ == self.spec_code(),
    {
        match self {
            PairingFieldError::Pin => "INVALID_PAIRING_PIN",
            PairingFieldError::ClientName => "INVALID_PAIRING_CLIENT",
            PairingFieldError::PairingId => "INVALID_PAIRING_CHALLENGE",
        }
    }
}

/// Four decimal digits.
pub open spec fn valid_pin(pin: Seq<char>) -> bool {
    byte_len(pin) == 4 && all_digits(pin)
}

/// A visible character of ASCII, or a space.
pub open spec fn printable(c: char) -> bool {
    ' ' <= c <= '~'
}

fn is_printable(c: char) -> (r: bool)
    ensures
        r == printable(c),
{
    ' ' <= c && c <= '~'
}

pub open spec fn valid_client_name(name: Seq<char>) -> bool {
    name.len() > 0 && byte_len(name) <= MAX_CLIENT_NAME_BYTES && forall|i: int|
        0 <= i < name.len() ==> printable(#[trigger] name[i])
}

pub open spec fn challenge_char(c: char) -> bool {
    ascii_alphanumeric(c) || c == '-'
}

fn is_challenge_char(c: char) -> (r: bool)
    ensures
        r == challenge_char(c),
{
    is_ascii_alphanumeric(c) || c == '-'
}

pub open spec fn valid_pairing_id(id: Seq<char>) -> bool {
    id.len() > 0 && byte_len(id) <= MAX_PAIRING_ID_BYTES && forall|i: int|
        0 <= i < id.len() ==> challenge_char(#[trigger] id[i])
}

/// The first field that a pairing request is refused for.
pub open spec fn pairing_checked(
    pairing_id: Option<Seq<char>>,
    pin: Seq<char>,
    client_name: Seq<char>,
) -> Result<(), PairingFieldError> {
    if !valid_pin(pin) {
        Err(PairingFieldError::Pin)
    } else if !valid_client_name(client_name) {
        Err(PairingFieldError::ClientName)
    } else if pairing_id is Some && !valid_pairing_id(pairing_id->0) {
        Err(PairingFieldError::PairingId)
    } else {
        Ok(())
    }
}

/// A text between quotation marks, with the characters escaped that the standard library escapes in
/// the debug form of a string.
pub uninterp spec fn quoted(text: Seq<char>) -> Seq<char>;

/// The `Debug` form of a `str`. It is named by the text: which characters it escapes is a matter of
/// the tables of Unicode, and is not spelled out here.
#[verifier::external_body]
fn quote(text: &str) -> (r: String)
    ensures
        r@ == quoted(text@),
{
    format!("{text:?}")
}

/// A pairing request in words, without its PIN, by its other two fields as they are shown.
pub open spec fn described(pairing_id: Option<Seq<char>>, client_name: Seq<char>) -> Seq<char> {
    "SunshinePairRequest { pairing_id: "@ + (match pairing_id {
        Some(id) => "Some("@ + id + ")"@,
        None => "None"@,
    }) + ", pin: \"<redacted>\", client_name: "@ + client_name + " }"@
}

/// The words around the two fields.
pub fn describe_fields(pairing_id: Option<&str>, client_name: &str) -> (r: String)
    ensures
        r@ == described(
            match pairing_id {
                Some(id) => Some(id@),
                None => None,
            },
            client_name@,
        ),
{
    let id = match pairing_id {
        Some(id) => "Some(".to_owned().concat(id).concat(")"),
        None => "None".to_owned(),
    };
    "SunshinePairRequest { pairing_id: ".to_owned().concat(id.as_str()).concat(
        ", pin: \"<redacted>\", client_name: ",
    ).concat(client_name).concat(" }")
}

impl SunshinePairRequest {
    pub fn validate(&self) -> (r: Result<(), PairingFieldError>)
        ensures
            r == pairing_checked(opt_text(self.pairing_id), self.pin@, self.client_name@),
    {
        if !(byte_count(self.pin.as_str()) == 4 && every_char(
            self.pin.as_str(),
            is_digit,
            Ghost(|c: char| digit(c)),
        )) {
            return Err(PairingFieldError::Pin);
        }
        let name = self.client_name.as_str();
        if name.is_empty() || byte_count(name) > MAX_CLIENT_NAME_BYTES || !every_char(
            name,
            is_printable,
            Ghost(|c: char| printable(c)),
        ) {
            return Err(PairingFieldError::ClientName);
        }
        if let Some(id) = &self.pairing_id {
            if id.as_str().is_empty() || byte_count(id.as_str()) > MAX_PAIRING_ID_BYTES
                || !every_char(id.as_str(), is_challenge_char, Ghost(|c: char| challenge_char(c))) {
                return Err(PairingFieldError::PairingId);
            }
        }
        Ok(())
    }

    /// The request in words. The PIN is not among what the words are made of.
    pub fn describe(&self) -> (r: String)
        ensures
            r@ == described(
                match self.pairing_id {
                    Some(id) => Some(quoted(id@)),
                    None => None,
                },
                quoted(self.client_name@),
            ),
    {
        let name = quote(self.client_name.as_str());
        match &self.pairing_id {
            Some(id) => {
                let id = quote(id.as_str());
                describe_fields(Some(id.as_str()), name.as_str())
            },
            None => describe_fields(None, name.as_str()),
        }
    }
}

#[derive(Clone, Copy, Debug, PartialEq, Eq, Structural)]
pub struct SunshinePairResponse {
    pub paired: bool,
}

#[derive(Debug, PartialEq, Eq)]
pub struct CapabilitiesResponse {
    pub capabilities: Vec<ControlCapability>,
}

pub open spec fn common_version(client: Seq<u16>, agent: Seq<u16>, version: u16) -> bool {
    client.contains(version) && agent.contains(version)
}

fn has_version(versions: &[u16], version: u16) -> (r: bool)
    ensures
        r == versions@.contains(version),
{
    let mut i: usize = 0;
    while i < versions.len()
        invariant
            i <= versions@.len(),
            forall|k: int| 0 <= k < i ==> versions@[k] != version,
        decreases versions@.len() - i,
    {
        if versions[i] == version {
            return true;
        }
        i += 1;
    }
    false
}

/// The highest version that both sides speak.
pub fn negotiate_protocol(client: &[u16], agent: &[u16]) -> (r: Option<u16>)
    ensures
        match r {
            Some(version) => common_version(client@, agent@, version) && forall|other: u16| #[trigger]
                common_version(client@, agent@, other) ==> other <= version,
            None => forall|other: u16| !#[trigger] common_version(client@, agent@, other),
        },
{
    let mut best: Option<u16> = None;
    let mut i: usize = 0;
    while i < client.len()
        invariant
            i <= client@.len(),
            match best {
                Some(version) => common_version(client@, agent@, version) && forall|k: int|
                    0 <= k < i && agent@.contains(#[trigger] client@[k]) ==> client@[k] <= version,
                None => forall|k: int| 0 <= k < i ==> !agent@.contains(#[trigger] client@[k]),
            },
        decreases client@.len() - i,
    {
        let version: u16 = client[i];
        if has_version(agent, version) {
            assert(client@.contains(version));
            best = match best {
                Some(other) => if other >= version {
                    Some(other)
                } else {
                    Some(version)
                },
                None => Some(version),
            };
        }
        i += 1;
    }
    best
}

/// A pairing request has a PIN of four digits, a name of up to sixty-four visible characters, and
/// where it names a challenge one of up to sixty-four letters, digits and hyphens. It is refused for
/// the first of these that it does not have.
pub proof fn law_pairing_requests_are_checked_field_by_field(
    request: SunshinePairRequest,
    r: Result<(), PairingFieldError>,
)
    requires
        call_ensures(SunshinePairRequest::validate, (&request,), r),
    ensures
        ({
            let pin = byte_len(request.pin@) == 4 && forall|i: int|
                0 <= i < request.pin@.len() ==> '0' <= #[trigger] request.pin@[i] <= '9';
            let name = request.client_name@.len() >= 1 && byte_len(request.client_name@) <= 64
                && forall|i: int|
                0 <= i < request.client_name@.len() ==> ' ' <= #[trigger] request.client_name@[i] <= '~';
            let id = request.pairing_id matches Some(id) ==> id@.len() >= 1 && byte_len(id@) <= 64
                && forall|i: int|
                0 <= i < id@.len() ==> {
                    let c = #[trigger] id@[i];
                    ('a' <= c <= 'z') || ('A' <= c <= 'Z') || ('0' <= c <= '9') || c == '-'
                };
            &&& r is Ok <==> pin && name && id
            &&& !pin ==> r == Err::<(), PairingFieldError>(PairingFieldError::Pin)
            &&& pin && !name ==> r == Err::<(), PairingFieldError>(PairingFieldError::ClientName)
            &&& pin && name && !id ==> r == Err::<(), PairingFieldError>(PairingFieldError::PairingId)
        }),
{
    let pin = byte_len(request.pin@) == 4 && forall|i: int|
        0 <= i < request.pin@.len() ==> '0' <= #[trigger] request.pin@[i] <= '9';
    if pin {
        assert forall|i: int| 0 <= i < request.pin@.len() implies digit(#[trigger] request.pin@[i]) by {
            assert('0' <= request.pin@[i] <= '9');
        }
    }
    if valid_pin(request.pin@) {
        assert forall|i: int| 0 <= i < request.pin@.len() implies '0' <= #[trigger] request.pin@[i] <= '9' by {
            assert(digit(request.pin@[i]));
        }
    }
}

/// Each field has a code of its own.
pub proof fn law_pairing_fields_have_their_code(error: PairingFieldError, r: &'static str)
    requires
        call_ensures(PairingFieldError::code, (error,), r),
    ensures
        error == PairingFieldError::Pin ==> r@ == "INVALID_PAIRING_PIN"@,
        error == PairingFieldError::ClientName ==> r@ == "INVALID_PAIRING_CLIENT"@,
        error == PairingFieldError::PairingId ==> r@ == "INVALID_PAIRING_CHALLENGE"@,
{
}

/// Requests that differ only in their PIN read the same: the PIN is not shown.
pub proof fn law_a_pin_is_not_shown(
    a: SunshinePairRequest,
    b: SunshinePairRequest,
    r: String,
    s: String,
)
    requires
        call_ensures(SunshinePairRequest::describe, (&a,), r),
        call_ensures(SunshinePairRequest::describe, (&b,), s),
        a.client_name@ == b.client_name@,
        opt_text(a.pairing_id) == opt_text(b.pairing_id),
    ensures
        r@ == s@,
{
}

/// Both sides speak the version that is agreed on, and no higher one that both speak.
pub proof fn law_the_highest_common_version_is_agreed_on(
    client: &[u16],
    agent: &[u16],
    r: Option<u16>,
    other: u16,
)
    requires
        call_ensures(negotiate_protocol, (client, agent), r),
    ensures
        r matches Some(version) ==> client@.contains(version) && agent@.contains(version),
        (r matches Some(version) && client@.contains(other) && agent@.contains(other)) ==> r->0 >= other,
{
    if client@.contains(other) && agent@.contains(other) {
        assert(common_version(client@, agent@, other));
    }
}

/// A granted session was executed and is told; a command without one tells none.
pub proof fn law_answers_tell_what_was_done(
    session: SessionGrant,
    executed: CommandResponse,
    ignored: CommandResponse,
    granted: CommandResponse,
)
    requires
        call_ensures(CommandResponse::executed, (), executed),
        call_ensures(CommandResponse::ignored, (), ignored),
        call_ensures(CommandResponse::granted, (session,), granted),
    ensures
        executed.executed && executed.session is None,
        !ignored.executed && ignored.session is None,
        granted.executed && granted.session == Some(session),
{
}

/// A request to pair is described without its PIN, which is not even known here.
pub proof fn law_a_pairing_request_is_described_without_its_pin(id: &str, client: &str, with: String, without: String)
    requires
        call_ensures(describe_fields, (Some(id), client), with),
        call_ensures(describe_fields, (None, client), without),
    ensures
        with@ == "SunshinePairRequest { pairing_id: "@ + ("Some("@ + id@ + ")"@)
            + ", pin: \"<redacted>\", client_name: "@ + client@ + " }"@,
        without@ == "SunshinePairRequest { pairing_id: "@ + "None"@
            + ", pin: \"<redacted>\", client_name: "@ + client@ + " }"@,
{
}

} // verus!
