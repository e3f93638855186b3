//! Moonlight, the client of the stream: how it is called and what its output means.
use vstd::prelude::*;
use vstd::string::*;

use crate::address::{address_text, ip_text};
use crate::domain::{CodecPreference, InputMode, IpAddr, StreamProfile};
use crate::ports::{
    outcome, port_error, CapturePolicy, CommandSpec, EnvironmentPolicy, PairingState, PortError,
    PortErrorView, PortResult, StreamHostDescriptor, StreamLaunchRequest,
};
use crate::strings::{chars_of, decimal, decimal_text, digit, is_digit, opt_text, push_decimal, text_between, texts};

verus! {

pub const PAIRING_TIMEOUT_SECONDS: u64 = 20;

pub const PAIRING_REAP_TIMEOUT_SECONDS: u64 = 5;

pub const PAIRING_STDERR_LIMIT: usize = 65_536;

/// A call of Moonlight: it needs the environment of the desktop.
pub open spec fn is_moonlight(spec: CommandSpec, args: Seq<Seq<char>>) -> bool {
    &&& spec.program@ == "moonlight"@
    &&& texts(spec.args@) == args
    &&& spec.environment_policy == EnvironmentPolicy::Inherited
}

pub fn moonlight_spec(args: Vec<String>) -> (r: CommandSpec)
    ensures
        is_moonlight(r, texts(args@)),
        r.has_default_limits(),
{
    CommandSpec::new("moonlight".to_owned(), args).with_environment_policy(EnvironmentPolicy::Inherited)
}

pub fn version_spec() -> (r: CommandSpec)
    ensures
        is_moonlight(r, seq!["--version"@]),
        r.has_default_limits(),
{
    let mut args: Vec<String> = Vec::new();
    args.push("--version".to_owned());
    assert(texts(args@) =~= seq!["--version"@]);
    moonlight_spec(args)
}

/// What a Moonlight that does not start is reported as.
pub fn version_failure(error: PortError) -> (r: PortError)
    ensures
        r@ == port_error("MOONLIGHT_NOT_INSTALLED"@, error@.message, false),
{
    PortError::new("MOONLIGHT_NOT_INSTALLED", error.message, false)
}

/// The call that tells whether the computers are paired.
pub fn pairing_query(host: &StreamHostDescriptor) -> (r: PortResult<CommandSpec>)
    ensures
        match host.checked() {
            Ok(_) => r is Ok && is_moonlight(r->Ok_0, seq!["list"@, ip_text(host.address)])
                && r->Ok_0.has_default_limits(),
            Err(error) => r is Err && r->Err_0@ == error,
        },
{
    match host.validate() {
        Ok(()) => {},
        Err(error) => {
            return Err(error);
        },
    }
    let mut args: Vec<String> = Vec::new();
    args.push("list".to_owned());
    args.push(address_text(host.address));
    assert(texts(args@) =~= seq!["list"@, ip_text(host.address)]);
    Ok(moonlight_spec(args))
}

/// A call that ends with a failure means that the computers are not paired; one that could not be
/// made means that Moonlight is not there.
pub open spec fn pairing_outcome(error: Option<PortErrorView>) -> Result<PairingState, PortErrorView> {
    match error {
        None => Ok(PairingState::Paired),
        Some(error) => if error.code == "COMMAND_FAILED"@ {
            Ok(PairingState::Required)
        } else if error.code == "COMMAND_NOT_AVAILABLE"@ {
            Err(port_error("MOONLIGHT_NOT_INSTALLED"@, error.message, false))
        } else {
            Err(port_error("MOONLIGHT_UNSUPPORTED"@, error.message, false))
        },
    }
}

pub fn pairing_state(answer: PortResult<()>) -> (r: PortResult<PairingState>)
    ensures
        outcome(r) == pairing_outcome(
            match answer {
                Ok(_) => None,
                Err(error) => Some(error@),
            },
        ),
{
    match answer {
        Ok(()) => Ok(PairingState::Paired),
        Err(error) => if error.has_code("COMMAND_FAILED") {
            Ok(PairingState::Required)
        } else if error.has_code("COMMAND_NOT_AVAILABLE") {
            Err(PortError::new("MOONLIGHT_NOT_INSTALLED", error.message, false))
        } else {
            Err(PortError::new("MOONLIGHT_UNSUPPORTED", error.message, false))
        },
    }
}

/// The arguments by which a pairing begins.
pub fn pair_arguments(host: &StreamHostDescriptor) -> (r: Vec<String>)
    ensures
        texts(r@) == seq!["pair"@, ip_text(host.address)],
{
    let mut args: Vec<String> = Vec::new();
    args.push("pair".to_owned());
    args.push(address_text(host.address));
    assert(texts(args@) =~= seq!["pair"@, ip_text(host.address)]);
    args
}

/// How a pairing failed to produce a PIN.
#[derive(Debug, PartialEq, Eq)]
pub enum PairingFailure {
    NotLaunched(String),
    NoOutput,
    Exited,
    TimedOut,
}

pub open spec fn pairing_failure_view(failure: PairingFailure) -> PortErrorView {
    match failure {
        PairingFailure::NotLaunched(detail) => port_error(
            "MOONLIGHT_NOT_INSTALLED"@,
            "unable to launch Moonlight pairing: "@ + detail@,
            false,
        ),
        PairingFailure::NoOutput => port_error(
            "MOONLIGHT_PAIRING_FAILED"@,
            "Moonlight did not expose its pairing output"@,
            false,
        ),
        PairingFailure::Exited => port_error(
            "MOONLIGHT_PAIRING_FAILED"@,
            "Moonlight exited without printing a pairing PIN"@,
            true,
        ),
        PairingFailure::TimedOut => port_error(
            "MOONLIGHT_PAIRING_FAILED"@,
            "timed out waiting for Moonlight to produce a pairing PIN"@,
            true,
        ),
    }
}

pub fn pairing_failure(failure: PairingFailure) -> (r: PortError)
    ensures
        r@ == pairing_failure_view(failure),
{
    match failure {
        PairingFailure::NotLaunched(detail) => PortError::new(
            "MOONLIGHT_NOT_INSTALLED",
            "unable to launch Moonlight pairing: ".to_owned().concat(detail.as_str()),
            false,
        ),
        PairingFailure::NoOutput => PortError::plain(
            "MOONLIGHT_PAIRING_FAILED",
            "Moonlight did not expose its pairing output",
            false,
        ),
        PairingFailure::Exited => PortError::plain(
            "MOONLIGHT_PAIRING_FAILED",
            "Moonlight exited without printing a pairing PIN",
            true,
        ),
        PairingFailure::TimedOut => PortError::plain(
            "MOONLIGHT_PAIRING_FAILED",
            "timed out waiting for Moonlight to produce a pairing PIN",
            true,
        ),
    }
}

/// Where the first digit of a text, from `i` on, stands.
pub open spec fn digits_start(s: Seq<char>, i: int) -> int
    decreases s.len() - i,
{
    if 0 <= i < s.len() && !digit(s[i]) {
        digits_start(s, i + 1)
    } else {
        i
    }
}

/// Where the digits that begin at `i` end.
pub open spec fn digits_end(s: Seq<char>, i: int) -> int
    decreases s.len() - i,
{
    if 0 <= i < s.len() && digit(s[i]) {
        digits_end(s, i + 1)
    } else {
        i
    }
}

/// The PIN in a line: its first run of digits, where these are four.
pub open spec fn pin_in(line: Seq<char>) -> Option<Seq<char>> {
    let start = digits_start(line, 0);
    let end = digits_end(line, start);
    if end - start == 4 {
        Some(line.subrange(start, end))
    } else {
        None
    }
}

pub fn extract_pin(line: &str) -> (r: Option<String>)
    ensures
        opt_text(r) == pin_in(line@),
{
    let v = chars_of(line);
    let mut start: usize = 0;
    while start < v.len() && !is_digit(v[start])
        invariant
            v@ == line@,
            start <= v@.len(),
            digits_start(line@, 0) == digits_start(line@, start as int),
        decreases v@.len() - start,
    {
        start += 1;
    }
    let mut end: usize = start;
    while end < v.len() && is_digit(v[end])
        invariant
            v@ == line@,
            start <= end <= v@.len(),
            digits_end(line@, start as int) == digits_end(line@, end as int),
        decreases v@.len() - end,
    {
        end += 1;
    }
    if end - start == 4 {
        Some(text_between(&v, start, end))
    } else {
        None
    }
}

proof fn lemma_digits_end(s: Seq<char>, i: int)
    requires
        0 <= i <= s.len(),
    ensures
        i <= digits_end(s, i) <= s.len(),
        forall|k: int| i <= k < digits_end(s, i) ==> digit(#[trigger] s[k]),
    decreases s.len() - i,
{
    if i < s.len() && digit(s[i]) {
        lemma_digits_end(s, i + 1);
    }
}

proof fn lemma_digits_start(s: Seq<char>, i: int)
    requires
        0 <= i <= s.len(),
    ensures
        i <= digits_start(s, i) <= s.len(),
    decreases s.len() - i,
{
    if i < s.len() && !digit(s[i]) {
        lemma_digits_start(s, i + 1);
    }
}

/// A PIN is four digits.
pub proof fn law_pins_are_four_digits(line: Seq<char>)
    ensures
        pin_in(line) matches Some(pin) ==> pin.len() == 4 && forall|k: int|
            0 <= k < 4 ==> digit(#[trigger] pin[k]),
{
    lemma_digits_start(line, 0);
    lemma_digits_end(line, digits_start(line, 0));
}

/// Two arguments, or none.
pub open spec fn pair_if(wanted: bool, name: Seq<char>, value: Seq<char>) -> Seq<Seq<char>> {
    if wanted {
        seq![name, value]
    } else {
        Seq::empty()
    }
}

pub open spec fn codec_name(codec: CodecPreference) -> Seq<char> {
    match codec {
        CodecPreference::Auto => ""@,
        CodecPreference::H264 => "H.264"@,
        CodecPreference::Hevc => "HEVC"@,
        CodecPreference::Av1 => "AV1"@,
    }
}

/// The arguments of a stream: always the address, the application and the size; the others only
/// where they change what Moonlight would do by itself.
pub open spec fn stream_arguments(
    address: IpAddr,
    application: Seq<char>,
    profile: StreamProfile,
    fullscreen: bool,
    input_mode: InputMode,
) -> Seq<Seq<char>> {
    seq![
        "stream"@,
        ip_text(address),
        application,
        "--resolution"@,
        decimal(profile.width as nat) + "x"@ + decimal(profile.height as nat),
        "--fps"@,
        decimal(profile.fps as nat),
    ] + (match profile.bitrate_kbps {
        Some(kbps) => seq!["--bitrate"@, decimal(kbps as nat)],
        None => Seq::empty(),
    }) + pair_if(!fullscreen, "--display-mode"@, "windowed"@) + pair_if(
        profile.codec_preference != CodecPreference::Auto,
        "--video-codec"@,
        codec_name(profile.codec_preference),
    ) + pair_if(input_mode == InputMode::Remote, "--capture-system-keys"@, "always"@)
}

pub open spec fn launch_args(request: StreamLaunchRequest) -> Seq<Seq<char>> {
    stream_arguments(
        request.host.address,
        request.host.application@,
        request.profile,
        request.fullscreen,
        request.input_mode,
    )
}

fn push_pair(args: &mut Vec<String>, name: &str, value: &str)
    ensures
        texts(final(args)@) == texts(old(args)@) + seq![name@, value@],
{
    args.push(name.to_owned());
    args.push(value.to_owned());
    assert(texts(args@) =~= texts(old(args)@) + seq![name@, value@]);
}

pub fn launch_arguments(request: &StreamLaunchRequest) -> (r: Vec<String>)
    ensures
        texts(r@) == launch_args(*request),
{
    let mut size = decimal_text(request.profile.width as u64).concat("x");
    push_decimal(&mut size, request.profile.height as u64);
    let mut args: Vec<String> = Vec::new();
    args.push("stream".to_owned());
    args.push(address_text(request.host.address));
    args.push(request.host.application.clone());
    args.push("--resolution".to_owned());
    args.push(size);
    args.push("--fps".to_owned());
    args.push(decimal_text(request.profile.fps as u64));
    let ghost first = seq![
        "stream"@,
        ip_text(request.host.address),
        request.host.application@,
        "--resolution"@,
        decimal(request.profile.width as nat) + "x"@ + decimal(request.profile.height as nat),
        "--fps"@,
        decimal(request.profile.fps as nat),
    ];
    assert(texts(args@) =~= first);
    match request.profile.bitrate_kbps {
        Some(kbps) => {
            push_pair(&mut args, "--bitrate", decimal_text(kbps as u64).as_str());
        },
        None => {
            assert(texts(args@) =~= first + Seq::<Seq<char>>::empty());
        },
    }
    let ghost second = texts(args@);
    if !request.fullscreen {
        push_pair(&mut args, "--display-mode", "windowed");
    }
    assert(texts(args@) =~= second + pair_if(!request.fullscreen, "--display-mode"@, "windowed"@));
    let ghost third = texts(args@);
    match request.profile.codec_preference {
        CodecPreference::Auto => {},
        CodecPreference::H264 => push_pair(&mut args, "--video-codec", "H.264"),
        CodecPreference::Hevc => push_pair(&mut args, "--video-codec", "HEVC"),
        CodecPreference::Av1 => push_pair(&mut args, "--video-codec", "AV1"),
    }
    assert(texts(args@) =~= third + pair_if(
        request.profile.codec_preference != CodecPreference::Auto,
        "--video-codec"@,
        codec_name(request.profile.codec_preference),
    ));
    let ghost fourth = texts(args@);
    if request.input_mode == InputMode::Remote {
        push_pair(&mut args, "--capture-system-keys", "always");
    }
    assert(texts(args@) =~= fourth + pair_if(
        request.input_mode == InputMode::Remote,
        "--capture-system-keys"@,
        "always"@,
    ));
    args
}

/// Whether this is the call that starts the stream: it may take longer, and its output would disturb
/// the terminal. With remote input it runs on Wayland.
pub open spec fn is_launch(spec: CommandSpec, request: StreamLaunchRequest) -> bool {
    &&& is_moonlight(spec, launch_args(request))
    &&& spec.timeout_millis == 30_000
    &&& spec.capture == CapturePolicy::Discard
    &&& if request.input_mode == InputMode::Remote {
        &&& spec.environment@.len() == 1
        &&& spec.environment@[0].0@ == "QT_QPA_PLATFORM"@
        &&& spec.environment@[0].1@ == "wayland"@
    } else {
        spec.environment@.len() == 0
    }
    &&& spec.working_directory is None
    &&& spec.stdin == crate::ports::StdinPolicy::Null
    &&& spec.stdout_limit == 1024 * 1024
    &&& spec.stderr_limit == 64 * 1024
    &&& spec.redacted_arg_indexes@.len() == 0
}

pub fn launch_spec(request: &StreamLaunchRequest) -> (r: CommandSpec)
    ensures
        is_launch(r, *request),
{
    let mut spec = moonlight_spec(launch_arguments(request));
    spec.timeout_millis = 30_000;
    spec.capture = CapturePolicy::Discard;
    if request.input_mode == InputMode::Remote {
        let mut environment: Vec<(String, String)> = Vec::new();
        environment.push(("QT_QPA_PLATFORM".to_owned(), "wayland".to_owned()));
        spec.environment = environment;
    }
    spec
}

/// Whether a stream may be started, or why not.
pub open spec fn launch_check(request: StreamLaunchRequest) -> Option<PortErrorView> {
    match request.host.checked() {
        Err(error) => Some(error),
        Ok(_) => if request.profile.valid() {
            None
        } else {
            Some(
                port_error(
                    "INVALID_STREAM_PROFILE"@,
                    crate::domain::DomainError::InvalidStreamProfile.spec_message(),
                    false,
                ),
            )
        },
    }
}

/// Plans a stream: the host and the profile must be ones that may be handed to Moonlight.
pub fn launch(request: &StreamLaunchRequest) -> (r: PortResult<CommandSpec>)
    ensures
        match launch_check(*request) {
            Some(error) => r is Err && r->Err_0@ == error,
            None => r is Ok && is_launch(r->Ok_0, *request),
        },
{
    match request.host.validate() {
        Ok(()) => {},
        Err(error) => {
            return Err(error);
        },
    }
    match request.profile.validate() {
        Ok(()) => {},
        Err(error) => {
            return Err(PortError::plain("INVALID_STREAM_PROFILE", error.message(), false));
        },
    }
    Ok(launch_spec(request))
}

/// What a stream that did not start is reported as.
pub fn launch_failure(error: PortError) -> (r: PortError)
    ensures
        r@ == port_error("STREAM_START_FAILED"@, error@.message, error@.retryable),
{
    PortError::new("STREAM_START_FAILED", error.message, error.retryable)
}

/// Whether a call that starts a stream holds an option with that value. Options stand in pairs
/// behind the command, the address and the application.
pub open spec fn has_option(args: Seq<Seq<char>>, name: Seq<char>, value: Seq<char>) -> bool {
    exists|i: int|
        3 <= i < args.len() - 1 && i % 2 == 1 && #[trigger] args[i] == name && args[i + 1] == value
}

/// Whether a call holds no option of that name.
pub open spec fn lacks_option(args: Seq<Seq<char>>, name: Seq<char>) -> bool {
    forall|i: int| 3 <= i < args.len() && i % 2 == 1 ==> #[trigger] args[i] != name
}

proof fn lemma_option_names_differ()
    ensures
        "--resolution"@.len() == 12,
        "--fps"@.len() == 5,
        "--bitrate"@.len() == 9,
        "--display-mode"@.len() == 14,
        "--video-codec"@.len() == 13,
        "--capture-system-keys"@.len() == 21,
{
    reveal_strlit("--resolution");
    reveal_strlit("--fps");
    reveal_strlit("--bitrate");
    reveal_strlit("--display-mode");
    reveal_strlit("--video-codec");
    reveal_strlit("--capture-system-keys");
}

/// A stream is started at the address of the host, of its application, in the size and at the rate
/// of the profile.
pub proof fn law_a_stream_has_the_size_and_rate_of_its_profile(
    request: StreamLaunchRequest,
    args: Vec<String>,
)
    requires
        call_ensures(launch_arguments, (&request,), args),
    ensures
        args@.len() >= 7,
        texts(args@)[0] == "stream"@,
        texts(args@)[1] == ip_text(request.host.address),
        texts(args@)[2] == request.host.application@,
        has_option(
            texts(args@),
            "--resolution"@,
            decimal(request.profile.width as nat) + "x"@ + decimal(request.profile.height as nat),
        ),
        has_option(texts(args@), "--fps"@, decimal(request.profile.fps as nat)),
{
    let a = texts(args@);
    assert(a.len() == args@.len());
    assert(a == launch_args(request));
    assert(a.len() >= 7);
    assert(a[3] == "--resolution"@);
    assert(a[5] == "--fps"@);
}

/// A codec is asked for by the name that Moonlight knows it by; without a preference none is.
pub proof fn law_the_codec_is_asked_for_by_its_name(request: StreamLaunchRequest, args: Vec<String>)
    requires
        call_ensures(launch_arguments, (&request,), args),
    ensures
        match request.profile.codec_preference {
            CodecPreference::Auto => lacks_option(texts(args@), "--video-codec"@),
            CodecPreference::H264 => has_option(texts(args@), "--video-codec"@, "H.264"@),
            CodecPreference::Hevc => has_option(texts(args@), "--video-codec"@, "HEVC"@),
            CodecPreference::Av1 => has_option(texts(args@), "--video-codec"@, "AV1"@),
        },
{
    lemma_option_names_differ();
    let a = texts(args@);
    let at = 7 + (if request.profile.bitrate_kbps is Some { 2int } else { 0 }) + (if request.fullscreen {
        0int
    } else {
        2
    });
    if request.profile.codec_preference != CodecPreference::Auto {
        assert(a[at] == "--video-codec"@);
    }
}

/// A bitrate is passed on exactly where the profile sets one, in kilobits.
pub proof fn law_the_bitrate_is_that_of_the_profile(request: StreamLaunchRequest, args: Vec<String>)
    requires
        call_ensures(launch_arguments, (&request,), args),
    ensures
        match request.profile.bitrate_kbps {
            Some(kbps) => has_option(texts(args@), "--bitrate"@, decimal(kbps as nat)),
            None => lacks_option(texts(args@), "--bitrate"@),
        },
{
    lemma_option_names_differ();
    let a = texts(args@);
    if request.profile.bitrate_kbps is Some {
        assert(a[7] == "--bitrate"@);
    }
}

/// A stream runs in a window exactly where it is not to fill the screen, and takes the keys of the
/// desktop exactly where the input is remote.
pub proof fn law_window_and_keys_follow_the_request(request: StreamLaunchRequest, args: Vec<String>)
    requires
        call_ensures(launch_arguments, (&request,), args),
    ensures
        request.fullscreen ==> lacks_option(texts(args@), "--display-mode"@),
        !request.fullscreen ==> has_option(texts(args@), "--display-mode"@, "windowed"@),
        request.input_mode == InputMode::Remote ==> has_option(
            texts(args@),
            "--capture-system-keys"@,
            "always"@,
        ),
        request.input_mode != InputMode::Remote ==> lacks_option(
            texts(args@),
            "--capture-system-keys"@,
        ),
{
    lemma_option_names_differ();
    let a = texts(args@);
    let bitrate = if request.profile.bitrate_kbps is Some { 2int } else { 0 };
    let windowed = if request.fullscreen { 0int } else { 2 };
    let codec = if request.profile.codec_preference == CodecPreference::Auto { 0int } else { 2 };
    if !request.fullscreen {
        assert(a[7 + bitrate] == "--display-mode"@);
    }
    if request.input_mode == InputMode::Remote {
        assert(a[7 + bitrate + windowed + codec] == "--capture-system-keys"@);
    }
}

/// The call that starts a stream runs Moonlight in the environment of the desktop, on Wayland where
/// the input is remote, and only for a host and a profile that may be handed to it.
pub proof fn law_only_a_checked_stream_is_started(
    request: StreamLaunchRequest,
    r: PortResult<CommandSpec>,
    args: Vec<String>,
)
    requires
        call_ensures(launch, (&request,), r),
        call_ensures(launch_arguments, (&request,), args),
    ensures
        r is Ok <==> request.host.checked() is Ok && request.profile.valid(),
        r matches Ok(spec) ==> {
            &&& spec.program@ == "moonlight"@
            &&& texts(spec.args@) == texts(args@)
            &&& spec.environment_policy == EnvironmentPolicy::Inherited
            &&& spec.timeout_millis == 30_000
            &&& spec.capture == CapturePolicy::Discard
            &&& spec.environment@.len() == 1 <==> request.input_mode == InputMode::Remote
            &&& request.input_mode == InputMode::Remote ==> spec.environment@[0].0@
                == "QT_QPA_PLATFORM"@ && spec.environment@[0].1@ == "wayland"@
        },
        request.host.checked() is Ok && r is Err ==> r->Err_0@.code == "INVALID_STREAM_PROFILE"@,
{
}

/// The computers are paired exactly where the call succeeds; a call that ends with a failure means
/// that they are not, and any other failure is no answer.
pub proof fn law_pairing_is_known_by_the_end_of_the_call(answer: PortResult<()>, r: PortResult<PairingState>)
    requires
        call_ensures(pairing_state, (answer,), r),
    ensures
        r == Ok::<PairingState, PortError>(PairingState::Paired) <==> answer is Ok,
        r == Ok::<PairingState, PortError>(PairingState::Required) <==> (answer matches Err(error)
            && error@.code == "COMMAND_FAILED"@),
        answer matches Err(error) && error@.code == "COMMAND_NOT_AVAILABLE"@ ==> (r matches Err(e)
            && e@.code == "MOONLIGHT_NOT_INSTALLED"@ && e@.message == answer->Err_0@.message),
        answer matches Err(error) && error@.code != "COMMAND_FAILED"@ && error@.code
            != "COMMAND_NOT_AVAILABLE"@ ==> (r matches Err(e) && e@.code == "MOONLIGHT_UNSUPPORTED"@),
{
    reveal_strlit("COMMAND_FAILED");
    reveal_strlit("COMMAND_NOT_AVAILABLE");
    assert("COMMAND_FAILED"@.len() != "COMMAND_NOT_AVAILABLE"@.len());
}

/// The PIN of a line is the first run of digits of the line: nothing before it is a digit, and the
/// run goes no further.
pub proof fn law_the_pin_is_the_first_run_of_digits(line: Seq<char>, start: int)
    requires
        0 <= start <= line.len() - 4,
        forall|k: int| 0 <= k < start ==> !digit(#[trigger] line[k]),
        forall|k: int| start <= k < start + 4 ==> digit(#[trigger] line[k]),
    ensures
        start + 4 == line.len() || !digit(line[start + 4]) ==> pin_in(line) == Some(
            line.subrange(start, start + 4),
        ),
        start + 4 < line.len() && digit(line[start + 4]) ==> pin_in(line) is None,
{
    lemma_first_digit(line, 0, start);
    reveal_with_fuel(digits_end, 6);
    assert(digits_end(line, start) == digits_end(line, start + 4));
    lemma_digits_end(line, start + 4);
    if start + 4 < line.len() && digit(line[start + 4]) {
        lemma_digits_end(line, start + 5);
    }
}

proof fn lemma_first_digit(s: Seq<char>, i: int, start: int)
    requires
        0 <= i <= start < s.len(),
        forall|k: int| i <= k < start ==> !digit(#[trigger] s[k]),
        digit(s[start]),
    ensures
        digits_start(s, i) == start,
    decreases start - i,
{
    if i < start {
        lemma_first_digit(s, i + 1, start);
    }
}

/// Moonlight is asked for its version, for what a host offers and to pair, each by its own command,
/// in the environment of the desktop; a host that may not be handed to it is not asked.
pub proof fn law_moonlight_is_asked_by_its_commands(
    host: &StreamHostDescriptor,
    valid: PortResult<()>,
    version: CommandSpec,
    query: PortResult<CommandSpec>,
    pair: Vec<String>,
)
    requires
        call_ensures(version_spec, (), version),
        call_ensures(pairing_query, (host,), query),
        call_ensures(pair_arguments, (host,), pair),
        call_ensures(StreamHostDescriptor::validate, (host,), valid),
    ensures
        version.program@ == "moonlight"@,
        texts(version.args@) == seq!["--version"@],
        version.environment_policy == EnvironmentPolicy::Inherited,
        query is Ok <==> valid is Ok,
        query matches Ok(spec) ==> spec.program@ == "moonlight"@ && texts(spec.args@) == seq![
            "list"@,
            ip_text(host.address),
        ] && spec.environment_policy == EnvironmentPolicy::Inherited,
        query matches Err(error) ==> error@ == valid->Err_0@,
        texts(pair@) == seq!["pair"@, ip_text(host.address)],
{
}

/// What Moonlight fails at has its own code, and keeps its detail; a stream that did not start may
/// be tried again where the failure may.
pub proof fn law_failures_of_moonlight_have_their_code(
    error: PortError,
    version: PortError,
    stream: PortError,
    detail: String,
    launch_error: PortError,
    silent: PortError,
    ended: PortError,
    late: PortError,
)
    requires
        call_ensures(version_failure, (error,), version),
        call_ensures(launch_failure, (error,), stream),
        call_ensures(pairing_failure, (PairingFailure::NotLaunched(detail),), launch_error),
        call_ensures(pairing_failure, (PairingFailure::NoOutput,), silent),
        call_ensures(pairing_failure, (PairingFailure::Exited,), ended),
        call_ensures(pairing_failure, (PairingFailure::TimedOut,), late),
    ensures
        version@.code == "MOONLIGHT_NOT_INSTALLED"@ && version@.message == error@.message
            && !version@.retryable,
        stream@.code == "STREAM_START_FAILED"@ && stream@.message == error@.message && stream@.retryable
            == error@.retryable,
        launch_error@.code == "MOONLIGHT_NOT_INSTALLED"@ && launch_error@.message
            == "unable to launch Moonlight pairing: "@ + detail@ && !launch_error@.retryable,
        silent@.code == "MOONLIGHT_PAIRING_FAILED"@ && !silent@.retryable && silent@.message
            == "Moonlight did not expose its pairing output"@,
        ended@.code == "MOONLIGHT_PAIRING_FAILED"@ && ended@.retryable && ended@.message
            == "Moonlight exited without printing a pairing PIN"@,
        late@.code == "MOONLIGHT_PAIRING_FAILED"@ && late@.retryable && late@.message
            == "timed out waiting for Moonlight to produce a pairing PIN"@,
{
}

/// The PIN of a line is its first four digits, where nothing but these stand together; a line
/// without digits has none.
pub proof fn law_a_pin_is_taken_out_of_its_line(
    line: &str,
    before: Seq<char>,
    pin: Seq<char>,
    after: Seq<char>,
    r: Option<String>,
)
    requires
        call_ensures(extract_pin, (line,), r),
        line@ == before + pin + after,
        forall|k: int| 0 <= k < before.len() ==> !('0' <= #[trigger] before[k] <= '9'),
        forall|k: int| 0 <= k < pin.len() ==> '0' <= #[trigger] pin[k] <= '9',
        after.len() > 0 ==> !('0' <= after[0] <= '9'),
    ensures
        pin.len() == 4 ==> (r matches Some(found) && found@ == pin),
        pin.len() > 0 && pin.len() != 4 ==> r is None,
{
    let s = line@;
    let start = before.len() as int;
    let n = pin.len() as int;
    assert(opt_text(r) == pin_in(s));
    if n > 0 {
        assert forall|k: int| 0 <= k < start implies !digit(#[trigger] s[k]) by {
            assert(s[k] == before[k]);
        }
        assert forall|k: int| start <= k < start + n implies digit(#[trigger] s[k]) by {
            assert(s[k] == pin[k - start]);
        }
        if after.len() > 0 {
            assert(s[start + n] == after[0]);
        }
        lemma_first_digit(s, 0, start);
        lemma_run_ends(s, start, start + n);
        assert(s.subrange(start, start + n) =~= pin);
    }
}

proof fn lemma_run_ends(s: Seq<char>, i: int, end: int)
    requires
        0 <= i <= end <= s.len(),
        forall|k: int| i <= k < end ==> digit(#[trigger] s[k]),
        end < s.len() ==> !digit(s[end]),
    ensures
        digits_end(s, i) == end,
    decreases end - i,
{
    if i < end {
        lemma_run_ends(s, i + 1, end);
    }
}

} // verus!
