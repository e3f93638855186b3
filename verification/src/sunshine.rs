//! Sunshine, the host of the stream: whether it is ready, its credentials and its pairing.
use vstd::prelude::*;
use vstd::string::*;

use crate::ports::{port_error, HostReadiness, PortError, PortErrorView, PortResult};
use crate::protocol::SunshineStatusResponse;
use crate::scan::{split_first, split_once};
use crate::strings::{opt_text, same_text, split_when, texts, trim_text, trimmed};
use crate::wrap::{is_newline, split_lines};

verus! {

pub const DEFAULT_API_BASE: &'static str = "https://127.0.0.1:47990";

pub const DESKTOP_APPLICATION: &'static str = "Desktop";

pub const KEYRING_SERVICE: &'static str = "io.omarchy.omdesk.sunshine";

pub const KEYRING_ACCOUNT: &'static str = "admin-api";

/// The account of Sunshine's administrator.
#[derive(PartialEq, Eq)]
pub struct SunshineCredentials {
    pub username: String,
    pub password: String,
}

pub struct CredentialsView {
    pub username: Seq<char>,
    pub password: Seq<char>,
}

impl View for SunshineCredentials {
    type V = CredentialsView;

    open spec fn view(&self) -> CredentialsView {
        CredentialsView { username: self.username@, password: self.password@ }
    }
}

impl CredentialsView {
    pub open spec fn complete(self) -> bool {
        self.username.len() > 0 && self.password.len() > 0
    }
}

#[derive(Clone, Copy, Debug, PartialEq, Eq, Structural)]
pub enum SunshineCredentialError {
    InvalidCredentials,
    SecretServiceUnavailable,
    InvalidStoredCredentials,
    MigrationFailed,
}

impl SunshineCredentialError {
    pub fn message(&self) -> (r: &'static str)
        ensures
            r@ == (match self {
                SunshineCredentialError::InvalidCredentials =>
                    "Sunshine credentials must include a username and password"@,
                SunshineCredentialError::SecretServiceUnavailable =>
                    "the desktop Secret Service is unavailable or locked"@,
                SunshineCredentialError::InvalidStoredCredentials =>
                    "the stored Sunshine credentials are invalid"@,
                SunshineCredentialError::MigrationFailed =>
                    "legacy Sunshine credentials could not be migrated"@,
            }),
    {
        match self {
            SunshineCredentialError::InvalidCredentials =>
                "Sunshine credentials must include a username and password",
            SunshineCredentialError::SecretServiceUnavailable =>
                "the desktop Secret Service is unavailable or locked",
            SunshineCredentialError::InvalidStoredCredentials =>
                "the stored Sunshine credentials are invalid",
            SunshineCredentialError::MigrationFailed =>
                "legacy Sunshine credentials could not be migrated",
        }
    }
}

/// Takes stored credentials, or nothing where they could not be read.
pub fn parse_credentials(raw: Option<SunshineCredentials>) -> (r: Result<SunshineCredentials, SunshineCredentialError>)
    ensures
        match raw {
            Some(raw) => if raw@.complete() {
                r is Ok && r->Ok_0 == raw
            } else {
                r is Err && r->Err_0 == SunshineCredentialError::InvalidStoredCredentials
            },
            None => r is Err && r->Err_0 == SunshineCredentialError::InvalidStoredCredentials,
        },
{
    match raw {
        Some(raw) => if raw.username.as_str().is_empty() || raw.password.as_str().is_empty() {
            Err(SunshineCredentialError::InvalidStoredCredentials)
        } else {
            Ok(raw)
        },
        None => Err(SunshineCredentialError::InvalidStoredCredentials),
    }
}

/// What the Secret Service or a file gave.
pub enum StoredSecret {
    Unavailable,
    Missing,
    /// A secret, with what was read of it.
    Found(Option<SunshineCredentials>),
}

/// What is to be done to load the credentials.
pub enum LoadStep {
    Done(Result<Option<SunshineCredentials>, SunshineCredentialError>),
    /// The file of earlier releases is to be read; then `after_legacy`.
    ReadLegacy,
    /// The credentials are to be put into the Secret Service; then `after_store`.
    Store(SunshineCredentials),
    /// The file is to be removed; then `after_removal`.
    RemoveLegacy(SunshineCredentials),
}

/// The store of the credentials: the Secret Service, before which earlier releases used a file.
#[derive(Clone, Copy, Debug, PartialEq, Eq, Structural)]
pub struct SunshineCredentialStore {
    /// Whether that file is there.
    pub has_legacy: bool,
}

impl SunshineCredentialStore {
    pub fn new(has_legacy: bool) -> (r: Self)
        ensures
            r.has_legacy == has_legacy,
    {
        SunshineCredentialStore { has_legacy }
    }

    /// By what the Secret Service gave.
    pub fn load(&self, stored: StoredSecret) -> (r: LoadStep)
        ensures
            match stored {
                StoredSecret::Unavailable => r == LoadStep::Done(
                    Err(SunshineCredentialError::SecretServiceUnavailable),
                ),
                StoredSecret::Found(raw) => match raw {
                    Some(credentials) => if credentials@.complete() {
                        r == LoadStep::Done(Ok(Some(credentials)))
                    } else {
                        r == LoadStep::Done(Err(SunshineCredentialError::InvalidStoredCredentials))
                    },
                    None => r == LoadStep::Done(Err(SunshineCredentialError::InvalidStoredCredentials)),
                },
                StoredSecret::Missing => if self.has_legacy {
                    r is ReadLegacy
                } else {
                    r == LoadStep::Done(Ok(None))
                },
            },
    {
        match stored {
            StoredSecret::Unavailable => LoadStep::Done(
                Err(SunshineCredentialError::SecretServiceUnavailable),
            ),
            StoredSecret::Found(raw) => match parse_credentials(raw) {
                Ok(credentials) => LoadStep::Done(Ok(Some(credentials))),
                Err(error) => LoadStep::Done(Err(error)),
            },
            StoredSecret::Missing => if self.has_legacy {
                LoadStep::ReadLegacy
            } else {
                LoadStep::Done(Ok(None))
            },
        }
    }

    /// Credentials may be stored only where both parts are there. What is allowed here goes to the Secret
    /// Service.
    pub fn store(&self, username: &str, password: &str) -> (r: Result<(), SunshineCredentialError>)
        ensures
            r == (if username@.len() > 0 && password@.len() > 0 {
                Ok::<(), SunshineCredentialError>(())
            } else {
                Err(SunshineCredentialError::InvalidCredentials)
            }),
    {
        if username.is_empty() || password.is_empty() {
            return Err(SunshineCredentialError::InvalidCredentials);
        }
        Ok(())
    }
}

/// By what the file of earlier releases held.
pub fn after_legacy(legacy: StoredSecret) -> (r: LoadStep)
    ensures
        match legacy {
            StoredSecret::Found(Some(credentials)) => if credentials@.complete() {
                r == LoadStep::Store(credentials)
            } else {
                r == LoadStep::Done(Err(SunshineCredentialError::InvalidStoredCredentials))
            },
            StoredSecret::Found(None) => r == LoadStep::Done(
                Err(SunshineCredentialError::InvalidStoredCredentials),
            ),
            _ => r == LoadStep::Done(Err(SunshineCredentialError::MigrationFailed)),
        },
{
    match legacy {
        StoredSecret::Found(raw) => match parse_credentials(raw) {
            Ok(credentials) => LoadStep::Store(credentials),
            Err(error) => LoadStep::Done(Err(error)),
        },
        _ => LoadStep::Done(Err(SunshineCredentialError::MigrationFailed)),
    }
}

/// By whether the credentials were stored. The file goes only once they were.
pub fn after_store(credentials: SunshineCredentials, stored: Result<(), SunshineCredentialError>) -> (r: LoadStep)
    ensures
        match stored {
            Ok(_) => r == LoadStep::RemoveLegacy(credentials),
            Err(error) => r == LoadStep::Done(Err(error)),
        },
{
    match stored {
        Ok(()) => LoadStep::RemoveLegacy(credentials),
        Err(error) => LoadStep::Done(Err(error)),
    }
}

pub fn after_removal(credentials: SunshineCredentials, removed: bool) -> (r: LoadStep)
    ensures
        r == LoadStep::Done(
            if removed {
                Ok(Some(credentials))
            } else {
                Err(SunshineCredentialError::MigrationFailed)
            },
        ),
{
    if removed {
        LoadStep::Done(Ok(Some(credentials)))
    } else {
        LoadStep::Done(Err(SunshineCredentialError::MigrationFailed))
    }
}

/// The value that a line of the configuration sets a key to.
pub open spec fn line_value(line: Seq<char>, key: Seq<char>) -> Option<Seq<char>> {
    match split_first(trimmed(line), '=') {
        Some((name, value)) => if trimmed(name) == key {
            Some(trimmed(value))
        } else {
            None
        },
        None => None,
    }
}

/// The value of the first line that sets a key.
pub open spec fn first_value(lines: Seq<Seq<char>>, key: Seq<char>) -> Option<Seq<char>>
    decreases lines.len(),
{
    if lines.len() == 0 {
        None
    } else {
        match line_value(lines[0], key) {
            Some(value) => Some(value),
            None => first_value(lines.drop_first(), key),
        }
    }
}

pub open spec fn setting_of(config: Seq<char>, key: Seq<char>) -> Option<Seq<char>> {
    first_value(split_when(config, is_newline()), key)
}

fn line_setting(line: &str, key: &str) -> (r: Option<String>)
    ensures
        opt_text(r) == line_value(line@, key@),
{
    let text = trim_text(line);
    match split_once(text.as_str(), '=') {
        Some((name, value)) => if same_text(trim_text(name.as_str()).as_str(), key) {
            Some(trim_text(value.as_str()))
        } else {
            None
        },
        None => None,
    }
}

pub fn config_value(config: &str, key: &str) -> (r: Option<String>)
    ensures
        opt_text(r) == setting_of(config@, key@),
{
    let lines = split_lines(config);
    let ghost all = split_when(config@, is_newline());
    let mut i: usize = 0;
    assert(all.skip(0) =~= all);
    while i < lines.len()
        invariant
            texts(lines@) == all,
            i <= lines@.len(),
            setting_of(config@, key@) == first_value(all.skip(i as int), key@),
        decreases lines@.len() - i,
    {
        assert(all.skip(i as int)[0] == lines@[i as int]@);
        assert(all.skip(i as int).drop_first() =~= all.skip(i + 1));
        let value = line_setting(lines[i].as_str(), key);
        if value.is_some() {
            return value;
        }
        i += 1;
    }
    None
}

pub open spec fn is_set_to(config: Seq<char>, key: Seq<char>, value: Seq<char>) -> bool {
    setting_of(config, key) == Some(value)
}

fn setting_is(config: &str, key: &str, value: &str) -> (r: bool)
    ensures
        r == is_set_to(config@, key@, value@),
{
    match config_value(config, key) {
        Some(found) => same_text(found.as_str(), value),
        None => false,
    }
}

/// Whether Sunshine listens on every interface.
pub open spec fn listens_everywhere(config: Seq<char>) -> bool {
    match setting_of(config, "bind_address"@) {
        None => true,
        Some(value) => value.len() == 0 || value == "0.0.0.0"@ || value == "::"@,
    }
}

fn is_wildcard(config: &str) -> (r: bool)
    ensures
        r == listens_everywhere(config@),
{
    match config_value(config, "bind_address") {
        None => true,
        Some(value) => value.as_str().is_empty() || same_text(value.as_str(), "0.0.0.0") || same_text(
            value.as_str(),
            "::",
        ),
    }
}

/// How ready Sunshine is, by what runs, how it is configured and whether the desktop has a monitor.
/// The monitors count only where Sunshine is installed and runs.
pub fn readiness(installed: bool, running: bool, config: &str, has_displays: PortResult<bool>) -> (r: PortResult<
    HostReadiness,
>)
    ensures
        match (installed && running, has_displays) {
            (true, Err(error)) => r is Err && r->Err_0@ == error@,
            _ => {
                &&& r is Ok
                &&& r->Ok_0.installed == installed
                &&& r->Ok_0.running == running
                &&& r->Ok_0.capture_ready == (installed && running && has_displays == Ok::<bool, PortError>(
                    true,
                ))
                &&& r->Ok_0.input_ready == (!is_set_to(config@, "keyboard"@, "disabled"@) && !is_set_to(
                    config@,
                    "mouse"@,
                    "disabled"@,
                ))
                &&& opt_text(r->Ok_0.exposure_warning) == (if listens_everywhere(config@) {
                    Some("Sunshine may be listening on non-Tailscale interfaces"@)
                } else {
                    None
                })
            },
        },
{
    let capture_ready = if installed && running {
        match has_displays {
            Ok(some) => some,
            Err(error) => {
                return Err(error);
            },
        }
    } else {
        false
    };
    let input_ready = !setting_is(config, "keyboard", "disabled") && !setting_is(
        config,
        "mouse",
        "disabled",
    );
    let exposure_warning = if is_wildcard(config) {
        Some("Sunshine may be listening on non-Tailscale interfaces".to_owned())
    } else {
        None
    };
    Ok(HostReadiness { installed, running, capture_ready, input_ready, exposure_warning })
}

/// What is told of Sunshine. Whether it can be paired counts only where it runs.
pub fn status(readiness: &HostReadiness, credentials: PortResult<bool>) -> (r: PortResult<SunshineStatusResponse>)
    ensures
        match (readiness.running, credentials) {
            (true, Err(error)) => r is Err && r->Err_0@ == error@,
            _ => {
                &&& r is Ok
                &&& r->Ok_0.installed == readiness.installed
                &&& r->Ok_0.running == readiness.running
                &&& r->Ok_0.ready == (readiness.installed && readiness.running && readiness.capture_ready
                    && readiness.input_ready)
                &&& opt_text(r->Ok_0.desktop_app) == (if readiness.installed {
                    Some(DESKTOP_APPLICATION@)
                } else {
                    None
                })
                &&& r->Ok_0.pairing_api_available == (readiness.running && credentials == Ok::<
                    bool,
                    PortError,
                >(true))
            },
        },
{
    let pairing_api_available = if readiness.running {
        match credentials {
            Ok(some) => some,
            Err(error) => {
                return Err(error);
            },
        }
    } else {
        false
    };
    let desktop_app = if readiness.installed {
        Some(DESKTOP_APPLICATION.to_owned())
    } else {
        None
    };
    Ok(
        SunshineStatusResponse {
            installed: readiness.installed,
            running: readiness.running,
            ready: readiness.installed && readiness.running && readiness.capture_ready
                && readiness.input_ready,
            desktop_app,
            pairing_api_available,
        },
    )
}

pub open spec fn readiness_error(readiness: HostReadiness) -> Option<PortErrorView> {
    if !readiness.installed {
        Some(port_error("SUNSHINE_NOT_INSTALLED"@, "Sunshine is not installed"@, false))
    } else if !readiness.running {
        Some(port_error("SUNSHINE_NOT_RUNNING"@, "Sunshine is not running"@, true))
    } else if !readiness.capture_ready || !readiness.input_ready {
        Some(port_error("SUNSHINE_NOT_READY"@, "Sunshine is not ready"@, false))
    } else {
        None
    }
}

pub fn ensure_ready(readiness: &HostReadiness) -> (r: PortResult<()>)
    ensures
        match readiness_error(*readiness) {
            Some(error) => r is Err && r->Err_0@ == error,
            None => r is Ok,
        },
{
    if !readiness.installed {
        Err(PortError::plain("SUNSHINE_NOT_INSTALLED", "Sunshine is not installed", false))
    } else if !readiness.running {
        Err(PortError::plain("SUNSHINE_NOT_RUNNING", "Sunshine is not running", true))
    } else if !readiness.capture_ready || !readiness.input_ready {
        Err(PortError::plain("SUNSHINE_NOT_READY", "Sunshine is not ready", false))
    } else {
        Ok(())
    }
}

/// What is reported where the Secret Service does not answer.
pub fn credential_port_error() -> (r: PortError)
    ensures
        r@ == port_error(
            "SUNSHINE_API_UNAVAILABLE"@,
            "the desktop Secret Service is unavailable or locked"@,
            true,
        ),
{
    PortError::plain(
        "SUNSHINE_API_UNAVAILABLE",
        "the desktop Secret Service is unavailable or locked",
        true,
    )
}

/// A PIN can be submitted only with the credentials of this computer.
pub fn pairing_credentials(credentials: PortResult<Option<SunshineCredentials>>) -> (r: PortResult<
    SunshineCredentials,
>)
    ensures
        match credentials {
            Ok(Some(credentials)) => r is Ok && r->Ok_0 == credentials,
            Ok(None) => r is Err && r->Err_0@ == port_error(
                "SUNSHINE_API_UNAVAILABLE"@,
                "Sunshine admin credentials are not configured on this node; run `omdesk setup` on the host"@,
                false,
            ),
            Err(error) => r is Err && r->Err_0@ == error@,
        },
{
    match credentials {
        Ok(Some(credentials)) => Ok(credentials),
        Ok(None) => Err(
            PortError::plain(
                "SUNSHINE_API_UNAVAILABLE",
                "Sunshine admin credentials are not configured on this node; run `omdesk setup` on the host",
                false,
            ),
        ),
        Err(error) => Err(error),
    }
}

/// Where a PIN is submitted.
pub fn pin_url(api_base: &str) -> (r: String)
    ensures
        r@ == api_base@ + "/api/pin"@,
{
    api_base.to_owned().concat("/api/pin")
}

/// How Sunshine answered a PIN.
#[derive(Debug, PartialEq, Eq)]
pub enum PinReply {
    Unreachable(String),
    /// With that status.
    Refused(String),
    Unreadable(String),
    /// Whether the PIN was taken.
    Answered(bool),
}

pub open spec fn pin_error(reply: PinReply) -> Option<PortErrorView> {
    match reply {
        PinReply::Unreachable(detail) => Some(
            port_error("SUNSHINE_API_UNAVAILABLE"@, detail@, true),
        ),
        PinReply::Refused(status) => Some(
            port_error(
                "SUNSHINE_PAIRING_FAILED"@,
                "Sunshine rejected the pairing PIN (HTTP "@ + status@ + ")"@,
                false,
            ),
        ),
        PinReply::Unreadable(detail) => Some(
            port_error("SUNSHINE_PAIRING_FAILED"@, detail@, false),
        ),
        PinReply::Answered(taken) => if taken {
            None
        } else {
            Some(
                port_error(
                    "SUNSHINE_PAIRING_FAILED"@,
                    "Sunshine did not accept the pairing PIN"@,
                    false,
                ),
            )
        },
    }
}

pub fn submit_pairing_pin(reply: PinReply) -> (r: PortResult<()>)
    ensures
        match pin_error(reply) {
            Some(error) => r is Err && r->Err_0@ == error,
            None => r is Ok,
        },
{
    match reply {
        PinReply::Unreachable(detail) => Err(
            PortError::new("SUNSHINE_API_UNAVAILABLE", detail, true),
        ),
        PinReply::Refused(status) => Err(
            PortError::new(
                "SUNSHINE_PAIRING_FAILED",
                "Sunshine rejected the pairing PIN (HTTP ".to_owned().concat(status.as_str()).concat(
                    ")",
                ),
                false,
            ),
        ),
        PinReply::Unreadable(detail) => Err(
            PortError::new("SUNSHINE_PAIRING_FAILED", detail, false),
        ),
        PinReply::Answered(taken) => if taken {
            Ok(())
        } else {
            Err(
                PortError::plain(
                    "SUNSHINE_PAIRING_FAILED",
                    "Sunshine did not accept the pairing PIN",
                    false,
                ),
            )
        },
    }
}

/// Credentials count only where both parts are there.
pub proof fn law_credentials_have_both_parts(
    raw: Option<SunshineCredentials>,
    r: Result<SunshineCredentials, SunshineCredentialError>,
    store: SunshineCredentialStore,
    username: &str,
    password: &str,
    stored: Result<(), SunshineCredentialError>,
)
    requires
        call_ensures(parse_credentials, (raw,), r),
        call_ensures(SunshineCredentialStore::store, (&store, username, password), stored),
    ensures
        r is Ok <==> (raw matches Some(found) && found.username@.len() > 0 && found.password@.len() > 0),
        r matches Ok(kept) ==> raw == Some(kept),
        r matches Err(error) ==> error == SunshineCredentialError::InvalidStoredCredentials,
        stored is Ok <==> username@.len() > 0 && password@.len() > 0,
        stored matches Err(error) ==> error == SunshineCredentialError::InvalidCredentials,
{
}

/// Credentials come from the Secret Service. Only where it has none and there is a file of an earlier
/// release, that is read; a service that does not answer is no reason to.
pub proof fn law_the_secret_service_comes_first(
    store: SunshineCredentialStore,
    stored: StoredSecret,
    r: LoadStep,
)
    requires
        call_ensures(SunshineCredentialStore::load, (&store, stored), r),
    ensures
        r is ReadLegacy <==> stored is Missing && store.has_legacy,
        stored is Missing && !store.has_legacy ==> r matches LoadStep::Done(Ok(None)),
        stored is Unavailable ==> r == LoadStep::Done(
            Err(SunshineCredentialError::SecretServiceUnavailable),
        ),
        r matches LoadStep::Done(Ok(Some(credentials))) ==> stored == StoredSecret::Found(
            Some(credentials),
        ) && credentials.username@.len() > 0 && credentials.password@.len() > 0,
        (stored matches StoredSecret::Found(Some(found)) && found.username@.len() > 0
            && found.password@.len() > 0) ==> r is Done,
        r !is Store && r !is RemoveLegacy,
{
}

/// The file of an earlier release is removed only once what it held is in the Secret Service, and the
/// credentials are given only once it is gone.
pub proof fn law_the_old_file_goes_last(
    legacy: StoredSecret,
    read: LoadStep,
    credentials: SunshineCredentials,
    stored: Result<(), SunshineCredentialError>,
    kept: LoadStep,
    removed: bool,
    done: LoadStep,
)
    requires
        call_ensures(after_legacy, (legacy,), read),
        call_ensures(after_store, (credentials, stored), kept),
        call_ensures(after_removal, (credentials, removed), done),
    ensures
        read is Store <==> (legacy matches StoredSecret::Found(Some(found)) && found.username@.len() > 0
            && found.password@.len() > 0),
        read matches LoadStep::Store(found) ==> legacy == StoredSecret::Found(Some(found)),
        legacy is Missing || legacy is Unavailable ==> read == LoadStep::Done(
            Err(SunshineCredentialError::MigrationFailed),
        ),
        kept is RemoveLegacy <==> stored is Ok,
        kept matches LoadStep::RemoveLegacy(found) ==> found == credentials,
        stored matches Err(error) ==> kept == LoadStep::Done(Err(error)),
        removed ==> done == LoadStep::Done(Ok(Some(credentials))),
        !removed ==> done == LoadStep::Done(Err(SunshineCredentialError::MigrationFailed)),
{
}

/// A setting has the value of the first line that sets it; lines that set something else do not count.
pub proof fn law_the_first_line_sets_the_value(
    config: &str,
    key: &str,
    lines: Seq<Seq<char>>,
    i: int,
    r: Option<String>,
)
    requires
        call_ensures(config_value, (config, key), r),
        lines == split_when(config@, |c: char| c == '\n'),
        0 <= i <= lines.len(),
        forall|k: int| 0 <= k < i ==> line_value(#[trigger] lines[k], key@) is None,
        i < lines.len() ==> line_value(lines[i], key@) is Some,
    ensures
        i < lines.len() ==> opt_text(r) == line_value(lines[i], key@),
        i == lines.len() ==> r is None,
{
    lemma_first_value(lines, key@, i);
}

proof fn lemma_first_value(lines: Seq<Seq<char>>, key: Seq<char>, i: int)
    requires
        0 <= i <= lines.len(),
        forall|k: int| 0 <= k < i ==> line_value(#[trigger] lines[k], key) is None,
        i < lines.len() ==> line_value(lines[i], key) is Some,
    ensures
        i < lines.len() ==> first_value(lines, key) == line_value(lines[i], key),
        i == lines.len() ==> first_value(lines, key) is None,
    decreases i,
{
    if i > 0 {
        let rest = lines.drop_first();
        assert(line_value(lines[0], key) is None);
        assert forall|k: int| 0 <= k < i - 1 implies line_value(#[trigger] rest[k], key) is None by {
            assert(rest[k] == lines[k + 1]);
        }
        lemma_first_value(rest, key, i - 1);
    }
}

/// A line sets what stands before its first equals sign to what stands behind it, without the white
/// space around either.
pub proof fn law_a_line_sets_a_key(line: Seq<char>, name: Seq<char>, value: Seq<char>)
    requires
        trimmed(line) == name.push('=') + value,
        !name.contains('='),
    ensures
        line_value(line, trimmed(name)) == Some(trimmed(value)),
        forall|other: Seq<char>| other != trimmed(name) ==> #[trigger] line_value(line, other) is None,
{
    let text = trimmed(line);
    assert forall|k: int| 0 <= k < name.len() implies text[k] != '=' by {
        assert(text[k] == name[k]);
        assert(name.contains(name[k]));
    }
    crate::scan::lemma_first_place(text, '=', name.len() as int);
    assert(text.take(name.len() as int) =~= name);
    assert(text.skip(name.len() as int + 1) =~= value);
}

/// Sunshine can capture where it is installed and runs and there is a monitor; input works unless the
/// keyboard or the mouse is disabled; and there is a warning where it listens everywhere.
pub proof fn law_readiness_is_what_is_there(
    installed: bool,
    running: bool,
    config: &str,
    has_displays: PortResult<bool>,
    r: PortResult<HostReadiness>,
)
    requires
        call_ensures(readiness, (installed, running, config, has_displays), r),
    ensures
        r is Err <==> installed && running && has_displays is Err,
        r matches Ok(ready) ==> {
            &&& ready.installed == installed
            &&& ready.running == running
            &&& ready.capture_ready <==> installed && running && (has_displays matches Ok(some) && some)
            &&& ready.input_ready <==> setting_of(config@, "keyboard"@) != Some("disabled"@)
                && setting_of(config@, "mouse"@) != Some("disabled"@)
            &&& ready.exposure_warning is Some <==> (match setting_of(config@, "bind_address"@) {
                None => true,
                Some(value) => value.len() == 0 || value == "0.0.0.0"@ || value == "::"@,
            })
        },
{
}

/// The status tells what is there: it is ready only where everything is, and it can be paired only
/// where it runs and there are credentials.
pub proof fn law_the_status_tells_what_is_there(
    ready: HostReadiness,
    credentials: PortResult<bool>,
    r: PortResult<SunshineStatusResponse>,
)
    requires
        call_ensures(status, (&ready, credentials), r),
    ensures
        r is Err <==> ready.running && credentials is Err,
        r matches Ok(told) ==> {
            &&& told.installed == ready.installed
            &&& told.running == ready.running
            &&& told.ready <==> ready.installed && ready.running && ready.capture_ready
                && ready.input_ready
            &&& told.pairing_api_available <==> ready.running && (credentials matches Ok(some) && some)
            &&& ready.installed ==> (told.desktop_app matches Some(name) && name@ == "Desktop"@)
            &&& !ready.installed ==> told.desktop_app is None
        },
{
}

/// Sunshine is ready only where it is installed, runs, captures and takes input; what it lacks is named
/// in that order, and only one that does not run is worth trying again.
pub proof fn law_what_sunshine_lacks_is_named(ready: HostReadiness, r: PortResult<()>)
    requires
        call_ensures(ensure_ready, (&ready,), r),
    ensures
        r is Ok <==> ready.installed && ready.running && ready.capture_ready && ready.input_ready,
        !ready.installed ==> (r matches Err(error) && error.code@ == "SUNSHINE_NOT_INSTALLED"@
            && !error.retryable),
        ready.installed && !ready.running ==> (r matches Err(error) && error.code@
            == "SUNSHINE_NOT_RUNNING"@ && error.retryable),
        ready.installed && ready.running && !(ready.capture_ready && ready.input_ready) ==> (r matches Err(
            error,
        ) && error.code@ == "SUNSHINE_NOT_READY"@ && !error.retryable),
{
    if let Err(error) = r {
        assert(error@.code == error.code@);
        assert(error@.retryable == error.retryable);
    }
}

/// A PIN is taken exactly when Sunshine says so; only one that could not be submitted is worth trying
/// again, and it is submitted with the credentials of this computer.
pub proof fn law_a_pin_is_taken_when_sunshine_says_so(
    reply: PinReply,
    r: PortResult<()>,
    credentials: PortResult<Option<SunshineCredentials>>,
    used: PortResult<SunshineCredentials>,
    base: &str,
    url: String,
)
    requires
        call_ensures(submit_pairing_pin, (reply,), r),
        call_ensures(pairing_credentials, (credentials,), used),
        call_ensures(pin_url, (base,), url),
    ensures
        r is Ok <==> reply == PinReply::Answered(true),
        r matches Err(error) ==> (error.retryable <==> reply is Unreachable),
        reply is Unreachable ==> r->Err_0.code@ == "SUNSHINE_API_UNAVAILABLE"@,
        reply is Refused || reply is Unreadable || reply == PinReply::Answered(false) ==> r->Err_0.code@
            == "SUNSHINE_PAIRING_FAILED"@,
        credentials matches Ok(Some(found)) ==> used == Ok::<SunshineCredentials, PortError>(found),
        credentials matches Ok(None) ==> (used matches Err(error) && error.code@
            == "SUNSHINE_API_UNAVAILABLE"@ && !error.retryable),
        credentials matches Err(error) ==> (used matches Err(told) && told@ == error@),
        url@ == base@ + "/api/pin"@,
{
    if let Err(error) = r {
        assert(error@.code == error.code@);
        assert(error@.retryable == error.retryable);
    }
    if let Err(error) = used {
        assert(error@.code == error.code@);
        assert(error@.retryable == error.retryable);
    }
}

/// What is wrong with the credentials is said in words of its own.
pub proof fn law_credential_errors_are_said_in_words(
    error: SunshineCredentialError,
    r: &'static str,
    unavailable: PortError,
)
    requires
        call_ensures(SunshineCredentialError::message, (&error,), r),
        call_ensures(credential_port_error, (), unavailable),
    ensures
        error == SunshineCredentialError::InvalidCredentials ==> r@
            == "Sunshine credentials must include a username and password"@,
        error == SunshineCredentialError::SecretServiceUnavailable ==> r@
            == "the desktop Secret Service is unavailable or locked"@,
        error == SunshineCredentialError::InvalidStoredCredentials ==> r@
            == "the stored Sunshine credentials are invalid"@,
        error == SunshineCredentialError::MigrationFailed ==> r@
            == "legacy Sunshine credentials could not be migrated"@,
        unavailable.code@ == "SUNSHINE_API_UNAVAILABLE"@ && unavailable.retryable,
{
    assert(unavailable@.code == unavailable.code@);
    assert(unavailable@.retryable == unavailable.retryable);
}

/// What Sunshine lacks is said, the first of it: to be installed, to run, to be ready.
pub proof fn law_what_sunshine_lacks_is_said(readiness: &HostReadiness, r: PortResult<()>)
    requires
        call_ensures(ensure_ready, (readiness,), r),
    ensures
        r is Ok <==> readiness.installed && readiness.running && readiness.capture_ready
            && readiness.input_ready,
        !readiness.installed ==> r->Err_0@.code == "SUNSHINE_NOT_INSTALLED"@ && r->Err_0@.message
            == "Sunshine is not installed"@ && !r->Err_0@.retryable,
        readiness.installed && !readiness.running ==> r->Err_0@.code == "SUNSHINE_NOT_RUNNING"@
            && r->Err_0@.message == "Sunshine is not running"@ && r->Err_0@.retryable,
        readiness.installed && readiness.running && r is Err ==> r->Err_0@.code == "SUNSHINE_NOT_READY"@
            && r->Err_0@.message == "Sunshine is not ready"@ && !r->Err_0@.retryable,
{
}

/// A PIN that is not taken is told with what Sunshine answered, and without credentials none is
/// sent.
pub proof fn law_a_pin_that_is_not_taken_is_told(
    status: String,
    refused: PortResult<()>,
    untaken: PortResult<()>,
    taken: PortResult<()>,
    missing: PortResult<SunshineCredentials>,
)
    requires
        call_ensures(submit_pairing_pin, (PinReply::Refused(status),), refused),
        call_ensures(submit_pairing_pin, (PinReply::Answered(false),), untaken),
        call_ensures(submit_pairing_pin, (PinReply::Answered(true),), taken),
        call_ensures(pairing_credentials, (Ok(None),), missing),
    ensures
        taken is Ok,
        refused matches Err(error) && error@.code == "SUNSHINE_PAIRING_FAILED"@ && error@.message
            == "Sunshine rejected the pairing PIN (HTTP "@ + status@ + ")"@,
        untaken matches Err(error) && error@.code == "SUNSHINE_PAIRING_FAILED"@ && error@.message
            == "Sunshine did not accept the pairing PIN"@,
        missing matches Err(error) && error@.code == "SUNSHINE_API_UNAVAILABLE"@ && error@.message
            == "Sunshine admin credentials are not configured on this node; run `omdesk setup` on the host"@,
{
}

/// A Sunshine that may be reached from outside the tailnet is ready, with a warning.
pub proof fn law_exposure_is_warned_of(
    installed: bool,
    running: bool,
    config: &str,
    has_displays: PortResult<bool>,
    r: PortResult<HostReadiness>,
)
    requires
        call_ensures(readiness, (installed, running, config, has_displays), r),
    ensures
        r matches Ok(found) ==> (found.exposure_warning matches Some(text) ==> text@
            == "Sunshine may be listening on non-Tailscale interfaces"@),
        r matches Ok(found) ==> found.installed == installed && found.running == running,
        r matches Ok(found) ==> (found.capture_ready <==> installed && running && (has_displays matches Ok(
            shown,
        ) && shown)),
        r is Err ==> installed && running && has_displays is Err,
{
    if r is Ok {
        assert(opt_text(r->Ok_0.exposure_warning) is Some == r->Ok_0.exposure_warning is Some);
    }
}

} // verus!
