//! The settings of this computer, and where they and the state are kept.
use vstd::prelude::*;
use vstd::string::*;

use crate::domain::{CodecPreference, DisplayMode, StreamProfile};
use crate::strings::{chars_of, parse_digits, parsed_digits, same_text, text_between};

verus! {

pub const DEFAULT_AGENT_PORT: u16 = 48155;

pub const MAX_CONFIG_BYTES: usize = 262_144;

#[derive(Debug, PartialEq, Eq)]
pub struct Config {
    pub network: NetworkConfig,
    pub stream: StreamConfig,
    pub display: DisplayConfig,
    /// What is set for each device, by its name.
    pub devices: Vec<(String, DeviceConfig)>,
}

#[derive(Clone, Copy, Debug, PartialEq, Eq, Structural)]
pub struct NetworkConfig {
    pub agent_port: u16,
    pub strict_tailnet_only: bool,
    pub allow_unsafe_wildcard_bind: bool,
}

impl Default for NetworkConfig {
    fn default() -> (r: Self)
        ensures
            r == (NetworkConfig {
                agent_port: DEFAULT_AGENT_PORT,
                strict_tailnet_only: true,
                allow_unsafe_wildcard_bind: false,
            }),
    {
        NetworkConfig {
            agent_port: DEFAULT_AGENT_PORT,
            strict_tailnet_only: true,
            allow_unsafe_wildcard_bind: false,
        }
    }
}

#[derive(Clone, Copy, Debug, PartialEq, Eq, Structural)]
pub struct StreamConfig {
    pub width: u32,
    pub height: u32,
    pub fps: u16,
    pub codec: CodecPreference,
    pub audio: bool,
    pub bitrate_mbps: u32,
}

impl Default for StreamConfig {
    fn default() -> (r: Self)
        ensures
            r == (StreamConfig {
                width: 1920,
                height: 1080,
                fps: 60,
                codec: CodecPreference::Auto,
                audio: true,
                bitrate_mbps: 0,
            }),
    {
        StreamConfig {
            width: 1920,
            height: 1080,
            fps: 60,
            codec: CodecPreference::Auto,
            audio: true,
            bitrate_mbps: 0,
        }
    }
}

#[derive(Clone, Copy, Debug, PartialEq, Eq, Structural)]
pub struct DisplayConfig {
    pub mode: DisplayMode,
}

impl Default for DisplayConfig {
    fn default() -> (r: Self)
        ensures
            r.mode == DisplayMode::FollowFocus,
    {
        DisplayConfig { mode: DisplayMode::default() }
    }
}

#[derive(Debug, PartialEq, Eq)]
pub struct DeviceConfig {
    pub alias: Option<String>,
}

impl Default for DeviceConfig {
    fn default() -> (r: Self)
        ensures
            r.alias is None,
    {
        DeviceConfig { alias: None }
    }
}

impl Default for Config {
    fn default() -> (r: Self)
        ensures
            r.network == (NetworkConfig {
                agent_port: DEFAULT_AGENT_PORT,
                strict_tailnet_only: true,
                allow_unsafe_wildcard_bind: false,
            }),
            r.stream == (StreamConfig {
                width: 1920,
                height: 1080,
                fps: 60,
                codec: CodecPreference::Auto,
                audio: true,
                bitrate_mbps: 0,
            }),
            r.display.mode == DisplayMode::FollowFocus,
            r.devices@.len() == 0,
            r.wf(),
    {
        Config {
            network: NetworkConfig::default(),
            stream: StreamConfig::default(),
            display: DisplayConfig::default(),
            devices: Vec::new(),
        }
    }
}

#[derive(Clone, Copy, Debug, PartialEq, Eq)]
pub enum ConfigError {
    MissingEnvironment(&'static str),
    InvalidEnvironment(&'static str),
}

pub enum ConfigErrorView {
    Missing(Seq<char>),
    Invalid(Seq<char>),
}

impl View for ConfigError {
    type V = ConfigErrorView;

    open spec fn view(&self) -> ConfigErrorView {
        match self {
            ConfigError::MissingEnvironment(name) => ConfigErrorView::Missing(name@),
            ConfigError::InvalidEnvironment(name) => ConfigErrorView::Invalid(name@),
        }
    }
}

impl ConfigError {
    pub fn message(&self) -> (r: String)
        ensures
            r@ == (match self@ {
                ConfigErrorView::Missing(name) => "missing required environment variable "@ + name,
                ConfigErrorView::Invalid(name) => "invalid environment variable "@ + name,
            }),
    {
        match self {
            ConfigError::MissingEnvironment(name) => "missing required environment variable ".to_owned().concat(
                name,
            ),
            ConfigError::InvalidEnvironment(name) => "invalid environment variable ".to_owned().concat(
                name,
            ),
        }
    }
}

/// The number that text denotes, at most `max`: decimal digits, before which one plus sign may
/// stand.
pub open spec fn parsed_number(s: Seq<char>, max: int) -> Option<int> {
    if s.len() > 1 && s[0] == '+' {
        parsed_digits(s.drop_first(), max)
    } else {
        parsed_digits(s, max)
    }
}

/// Reads a number as the standard library reads an unsigned integer.
pub fn parse_number(s: &str) -> (r: Option<u64>)
    ensures
        match r {
            Some(n) => parsed_number(s@, u64::MAX as int) == Some(n as int),
            None => parsed_number(s@, u64::MAX as int) is None,
        },
{
    let v = chars_of(s);
    if v.len() > 1 && v[0] == '+' {
        let rest = text_between(&v, 1, v.len());
        assert(rest@ =~= s@.drop_first());
        parse_digits(rest.as_str())
    } else {
        parse_digits(s)
    }
}

/// A port as it is written in the environment.
pub open spec fn parsed_port(s: Seq<char>) -> Option<int> {
    parsed_number(s, u16::MAX as int)
}

pub fn parse_port(s: &str) -> (r: Option<u16>)
    ensures
        match r {
            Some(n) => parsed_port(s@) == Some(n as int),
            None => parsed_port(s@) is None,
        },
{
    match parse_number(s) {
        Some(n) => if n <= 65535 {
            Some(n as u16)
        } else {
            None
        },
        None => None,
    }
}

/// No name stands twice.
pub open spec fn distinct_names(devices: Seq<(String, DeviceConfig)>) -> bool {
    forall|i: int, j: int| 0 <= i < j < devices.len() ==> (#[trigger] devices[i]).0@ != (
    #[trigger] devices[j]).0@
}

/// The devices with what is set for one: in the place of what was set for it, or at the end.
pub open spec fn with_device(
    devices: Seq<(String, DeviceConfig)>,
    name: String,
    device: DeviceConfig,
) -> Seq<(String, DeviceConfig)>
    decreases devices.len(),
{
    if devices.len() == 0 {
        seq![(name, device)]
    } else if devices[0].0@ == name@ {
        devices.update(0, (name, device))
    } else {
        seq![devices[0]] + with_device(devices.drop_first(), name, device)
    }
}

/// Where a device of that name stands, it is replaced; nothing else changes.
proof fn lemma_with_device(
    devices: Seq<(String, DeviceConfig)>,
    at: int,
    name: String,
    device: DeviceConfig,
)
    requires
        0 <= at <= devices.len(),
        forall|k: int| 0 <= k < at ==> (#[trigger] devices[k]).0@ != name@,
        at < devices.len() ==> devices[at].0@ == name@,
    ensures
        with_device(devices, name, device) == (if at < devices.len() {
            devices.update(at, (name, device))
        } else {
            devices.push((name, device))
        }),
    decreases devices.len(),
{
    if devices.len() == 0 {
        assert(seq![(name, device)] =~= devices.push((name, device)));
    } else if at > 0 {
        let rest = devices.drop_first();
        assert forall|k: int| 0 <= k < at - 1 implies (#[trigger] rest[k]).0@ != name@ by {
            assert(rest[k] == devices[k + 1]);
        }
        lemma_with_device(rest, at - 1, name, device);
        if at < devices.len() {
            assert(seq![devices[0]] + rest.update(at - 1, (name, device)) =~= devices.update(
                at,
                (name, device),
            ));
        } else {
            assert(seq![devices[0]] + rest.push((name, device)) =~= devices.push((name, device)));
        }
    }
}

impl Config {
    pub open spec fn wf(&self) -> bool {
        distinct_names(self.devices@)
    }

    /// Sets what is set for a device.
    pub fn set_device(&mut self, name: String, device: DeviceConfig)
        requires
            old(self).wf(),
        ensures
            final(self).wf(),
            final(self).devices@ == with_device(old(self).devices@, name, device),
            final(self).network == old(self).network,
            final(self).stream == old(self).stream,
            final(self).display == old(self).display,
    {
        let ghost before = self.devices@;
        let mut i: usize = 0;
        while i < self.devices.len()
            invariant
                i <= self.devices@.len(),
                self.devices@ == before,
                before == old(self).devices@,
                self.network == old(self).network,
                self.stream == old(self).stream,
                self.display == old(self).display,
                distinct_names(before),
                forall|k: int| 0 <= k < i ==> (#[trigger] before[k]).0@ != name@,
            decreases self.devices@.len() - i,
        {
            if same_text(self.devices[i].0.as_str(), name.as_str()) {
                proof {
                    lemma_with_device(before, i as int, name, device);
                }
                self.devices.set(i, (name, device));
                assert(distinct_names(self.devices@)) by {
                    assert forall|a: int, b: int| 0 <= a < b < self.devices@.len() implies (
                    #[trigger] self.devices@[a]).0@ != (#[trigger] self.devices@[b]).0@ by {
                        assert(before[a].0@ != before[b].0@);
                    }
                }
                return ;
            }
            i += 1;
        }
        proof {
            lemma_with_device(before, before.len() as int, name, device);
        }
        self.devices.push((name, device));
        assert(distinct_names(self.devices@)) by {
            assert forall|a: int, b: int| 0 <= a < b < self.devices@.len() implies (
            #[trigger] self.devices@[a]).0@ != (#[trigger] self.devices@[b]).0@ by {
                if b < before.len() {
                    assert(before[a].0@ != before[b].0@);
                }
            }
        }
    }

    /// The settings with the port that the environment sets, where it sets one.
    pub fn with_environment_port(self, port: Option<&str>) -> (r: Result<Config, ConfigError>)
        ensures
            match port {
                None => r == Ok::<Config, ConfigError>(self),
                Some(port) => match parsed_port(port@) {
                    Some(n) => r == Ok::<Config, ConfigError>(
                        Config {
                            network: NetworkConfig { agent_port: n as u16, ..self.network },
                            ..self
                        },
                    ),
                    None => r is Err && r->Err_0@ == ConfigErrorView::Invalid("OMDESKY_AGENT_PORT"@),
                },
            },
            self.wf() && r is Ok ==> r->Ok_0.wf(),
    {
        match port {
            None => Ok(self),
            Some(port) => match parse_port(port) {
                Some(n) => {
                    let mut config = self;
                    config.network.agent_port = n;
                    Ok(config)
                },
                None => Err(ConfigError::InvalidEnvironment("OMDESKY_AGENT_PORT")),
            },
        }
    }
}

/// The profile of a stream by the settings: a bitrate of zero leaves the choice to the client.
pub open spec fn configured_profile(stream: StreamConfig) -> StreamProfile {
    StreamProfile {
        width: stream.width,
        height: stream.height,
        fps: stream.fps,
        codec_preference: stream.codec,
        audio: stream.audio,
        bitrate_kbps: if stream.bitrate_mbps > 0 {
            Some((stream.bitrate_mbps * 1000) as u32)
        } else {
            None
        },
    }
}

pub fn stream_profile(config: &Config) -> (r: StreamProfile)
    requires
        config.stream.bitrate_mbps * 1000 <= u32::MAX,
    ensures
        r == configured_profile(config.stream),
{
    StreamProfile {
        width: config.stream.width,
        height: config.stream.height,
        fps: config.stream.fps,
        codec_preference: config.stream.codec,
        audio: config.stream.audio,
        bitrate_kbps: if config.stream.bitrate_mbps > 0 {
            Some(config.stream.bitrate_mbps * 1000)
        } else {
            None
        },
    }
}

/// The settings that a profile becomes: whole megabits.
pub open spec fn profile_settings(profile: StreamProfile) -> StreamConfig {
    StreamConfig {
        width: profile.width,
        height: profile.height,
        fps: profile.fps,
        codec: profile.codec_preference,
        audio: profile.audio,
        bitrate_mbps: match profile.bitrate_kbps {
            Some(kbps) => (kbps / 1000) as u32,
            None => 0,
        },
    }
}

/// The settings with those of a profile in place of theirs.
pub fn with_profile(config: Config, profile: &StreamProfile) -> (r: Config)
    ensures
        r == (Config { stream: profile_settings(*profile), ..config }),
        config.wf() ==> r.wf(),
{
    let mut config = config;
    config.stream = StreamConfig {
        width: profile.width,
        height: profile.height,
        fps: profile.fps,
        codec: profile.codec_preference,
        audio: profile.audio,
        bitrate_mbps: match profile.bitrate_kbps {
            Some(kbps) => kbps / 1000,
            None => 0,
        },
    };
    config
}

/// A profile in whole megabits, of at least one, is read back as it was saved.
pub proof fn law_saved_profiles_are_read_back(profile: StreamProfile)
    requires
        profile.bitrate_kbps matches Some(kbps) ==> kbps % 1000 == 0 && kbps >= 1000,
    ensures
        configured_profile(profile_settings(profile)) == profile,
{
}

/// Settings are saved as they were read.
pub proof fn law_read_settings_are_saved_back(stream: StreamConfig)
    requires
        stream.bitrate_mbps * 1000 <= u32::MAX,
    ensures
        profile_settings(configured_profile(stream)) == stream,
{
}

/// A path below a directory.
pub open spec fn path_below(directory: Seq<char>, rest: Seq<char>) -> Seq<char> {
    if directory.len() == 0 || directory.last() == '/' {
        directory + rest
    } else {
        directory + "/"@ + rest
    }
}

pub fn join_path(directory: &str, rest: &str) -> (r: String)
    ensures
        r@ == path_below(directory@, rest@),
{
    let v = chars_of(directory);
    if v.len() == 0 || v[v.len() - 1] == '/' {
        directory.to_owned().concat(rest)
    } else {
        directory.to_owned().concat("/").concat(rest)
    }
}

pub open spec fn located(r: Result<String, ConfigError>) -> Result<Seq<char>, ConfigErrorView> {
    match r {
        Ok(path) => Ok(path@),
        Err(e) => Err(e@),
    }
}

pub open spec fn variable(v: Option<&str>) -> Option<Seq<char>> {
    match v {
        Some(s) => Some(s@),
        None => None,
    }
}

/// A path below the directory that a variable names, else below the home directory.
pub open spec fn below_or_home(
    directory: Option<Seq<char>>,
    rest: Seq<char>,
    home: Option<Seq<char>>,
    home_rest: Seq<char>,
) -> Result<Seq<char>, ConfigErrorView> {
    match directory {
        Some(directory) => Ok(path_below(directory, rest)),
        None => match home {
            Some(home) => Ok(path_below(home, home_rest)),
            None => Err(ConfigErrorView::Missing("HOME"@)),
        },
    }
}

fn locate(directory: Option<&str>, rest: &str, home: Option<&str>, home_rest: &str) -> (r: Result<
    String,
    ConfigError,
>)
    ensures
        located(r) == below_or_home(variable(directory), rest@, variable(home), home_rest@),
{
    match directory {
        Some(directory) => Ok(join_path(directory, rest)),
        None => match home {
            Some(home) => Ok(join_path(home, home_rest)),
            None => Err(ConfigError::MissingEnvironment("HOME")),
        },
    }
}

/// Where the settings are, by `XDG_CONFIG_HOME` and `HOME`.
pub fn config_path(xdg_config_home: Option<&str>, home: Option<&str>) -> (r: Result<String, ConfigError>)
    ensures
        located(r) == below_or_home(
            variable(xdg_config_home),
            "omdesky/config.toml"@,
            variable(home),
            ".config/omdesky/config.toml"@,
        ),
{
    locate(xdg_config_home, "omdesky/config.toml", home, ".config/omdesky/config.toml")
}

/// Where state is kept, by `XDG_STATE_HOME` and `HOME`.
pub open spec fn spec_state_dir(xdg_state_home: Option<Seq<char>>, home: Option<Seq<char>>) -> Result<
    Seq<char>,
    ConfigErrorView,
> {
    below_or_home(xdg_state_home, "omdesky"@, home, ".local/state/omdesky"@)
}

pub fn state_dir(xdg_state_home: Option<&str>, home: Option<&str>) -> (r: Result<String, ConfigError>)
    ensures
        located(r) == spec_state_dir(variable(xdg_state_home), variable(home)),
{
    locate(xdg_state_home, "omdesky", home, ".local/state/omdesky")
}

/// Where the state of the running system is kept, by `XDG_RUNTIME_DIR`.
pub open spec fn spec_runtime_dir(xdg_runtime_dir: Option<Seq<char>>) -> Result<Seq<char>, ConfigErrorView> {
    match xdg_runtime_dir {
        Some(directory) => Ok(path_below(directory, "omdesky"@)),
        None => Err(ConfigErrorView::Missing("XDG_RUNTIME_DIR"@)),
    }
}

pub fn runtime_dir(xdg_runtime_dir: Option<&str>) -> (r: Result<String, ConfigError>)
    ensures
        located(r) == spec_runtime_dir(variable(xdg_runtime_dir)),
{
    match xdg_runtime_dir {
        Some(directory) => Ok(join_path(directory, "omdesky")),
        None => Err(ConfigError::MissingEnvironment("XDG_RUNTIME_DIR")),
    }
}

/// A file below a directory that could be located.
pub open spec fn file_in(directory: Result<Seq<char>, ConfigErrorView>, rest: Seq<char>) -> Result<
    Seq<char>,
    ConfigErrorView,
> {
    match directory {
        Ok(directory) => Ok(path_below(directory, rest)),
        Err(e) => Err(e),
    }
}

pub fn runtime_session_path(xdg_runtime_dir: Option<&str>) -> (r: Result<String, ConfigError>)
    ensures
        located(r) == file_in(spec_runtime_dir(variable(xdg_runtime_dir)), "current-session.json"@),
{
    match runtime_dir(xdg_runtime_dir) {
        Ok(directory) => Ok(join_path(directory.as_str(), "current-session.json")),
        Err(e) => Err(e),
    }
}

pub fn access_path(xdg_state_home: Option<&str>, home: Option<&str>) -> (r: Result<String, ConfigError>)
    ensures
        located(r) == file_in(
            spec_state_dir(variable(xdg_state_home), variable(home)),
            "access/allowlist.json"@,
        ),
{
    match state_dir(xdg_state_home, home) {
        Ok(directory) => Ok(join_path(directory.as_str(), "access/allowlist.json")),
        Err(e) => Err(e),
    }
}

pub fn sunshine_config_path(home: Option<&str>) -> (r: Result<String, ConfigError>)
    ensures
        located(r) == below_or_home(
            None,
            Seq::<char>::empty(),
            variable(home),
            ".config/sunshine/sunshine.conf"@,
        ),
{
    match home {
        Some(home) => Ok(join_path(home, ".config/sunshine/sunshine.conf")),
        None => Err(ConfigError::MissingEnvironment("HOME")),
    }
}

/// Where the colors of the desktop are, by `XDG_STATE_HOME` and `HOME`.
pub fn theme_path(xdg_state_home: Option<&str>, home: Option<&str>) -> (r: String)
    ensures
        r@ == path_below(
            match variable(xdg_state_home) {
                Some(directory) => directory,
                None => path_below(
                    match variable(home) {
                        Some(home) => home,
                        None => Seq::<char>::empty(),
                    },
                    ".local/state"@,
                ),
            },
            "omarchy/current/theme/colors.toml"@,
        ),
{
    let state = match xdg_state_home {
        Some(directory) => directory.to_owned(),
        None => match home {
            Some(home) => join_path(home, ".local/state"),
            None => {
                let rest = ".local/state".to_owned();
                assert(Seq::<char>::empty() + ".local/state"@ =~= ".local/state"@);
                rest
            },
        },
    };
    join_path(state.as_str(), "omarchy/current/theme/colors.toml")
}

/// Out of the box the agent is at port 48155, takes sources of the tailnet only and listens nowhere
/// else; a stream is full HD at sixty frames, with sound, its codec and bitrate left open.
pub proof fn law_settings_out_of_the_box(r: Config)
    requires
        call_ensures(Config::default, (), r),
    ensures
        r.network.agent_port == 48155,
        r.network.strict_tailnet_only,
        !r.network.allow_unsafe_wildcard_bind,
        r.stream.width == 1920,
        r.stream.height == 1080,
        r.stream.fps == 60,
        r.stream.codec == CodecPreference::Auto,
        r.stream.audio,
        r.stream.bitrate_mbps == 0,
        r.display.mode == DisplayMode::FollowFocus,
        r.devices@.len() == 0,
        MAX_CONFIG_BYTES == 256 * 1024,
{
}

/// A number may have one plus sign before its digits, and nothing else.
pub proof fn law_a_number_may_have_a_plus_sign(
    digits: &str,
    signed: &str,
    r: Option<u64>,
    s: Option<u64>,
)
    requires
        call_ensures(parse_number, (digits,), r),
        call_ensures(parse_number, (signed,), s),
        signed@ == seq!['+'] + digits@,
        digits@.len() > 0,
        digits@[0] != '+',
    ensures
        r == s,
{
    assert(signed@.drop_first() =~= digits@);
}

/// Digits alone are read as what they denote.
pub proof fn law_plain_digits_are_a_number(text: &str, plain: Option<u64>, r: Option<u64>)
    requires
        call_ensures(parse_digits, (text,), plain),
        call_ensures(parse_number, (text,), r),
        text@.len() == 0 || text@[0] != '+',
    ensures
        r == plain,
{
}

/// A port is a number below 65536.
pub proof fn law_a_port_is_a_small_number(text: &str, n: Option<u64>, r: Option<u16>)
    requires
        call_ensures(parse_number, (text,), n),
        call_ensures(parse_port, (text,), r),
    ensures
        r is Some <==> (n matches Some(n) && n < 65536),
        r matches Some(port) ==> n == Some(port as u64),
{
    let digits = if text@.len() > 1 && text@[0] == '+' {
        text@.drop_first()
    } else {
        text@
    };
}

/// The environment sets the port and nothing else; what is no port there is an error.
pub proof fn law_the_environment_sets_the_port(
    config: Config,
    port: Option<&str>,
    read: Option<u16>,
    r: Result<Config, ConfigError>,
)
    requires
        call_ensures(Config::with_environment_port, (config, port), r),
        port matches Some(text) ==> call_ensures(parse_port, (text,), read),
    ensures
        port is None ==> r == Ok::<Config, ConfigError>(config),
        port is Some && read is None ==> (r matches Err(error) && error@ == ConfigErrorView::Invalid(
            "OMDESKY_AGENT_PORT"@,
        )),
        port is Some && read is Some ==> (r matches Ok(set) && set.network.agent_port == read->0
            && set.network.strict_tailnet_only == config.network.strict_tailnet_only
            && set.network.allow_unsafe_wildcard_bind == config.network.allow_unsafe_wildcard_bind
            && set.stream == config.stream && set.display == config.display && set.devices
            == config.devices),
{
}

/// What is set for a device is found under its name; what is set for the others stays.
pub proof fn law_what_is_set_for_a_device_is_kept(
    config: &mut Config,
    name: String,
    device: DeviceConfig,
    other: (String, DeviceConfig),
)
    requires
        old(config).wf(),
        call_ensures(Config::set_device, (config, name, device), ()),
    ensures
        final(config).devices@.contains((name, device)),
        other.0@ != name@ ==> (final(config).devices@.contains(other)
            <==> old(config).devices@.contains(other)),
        other.0@ == name@ && final(config).devices@.contains(other) ==> other == (name, device),
        final(config).network == old(config).network,
        final(config).stream == old(config).stream,
        final(config).display == old(config).display,
{
    let devices = old(config).devices@;
    let after = final(config).devices@;
    let at = lemma_device_place(devices, name@);
    lemma_with_device(devices, at, name, device);
    assert(after[at] == (name, device));
    if devices.contains(other) && other.0@ != name@ {
        let k = choose|k: int| 0 <= k < devices.len() && devices[k] == other;
        assert(after[k] == other);
    }
    if after.contains(other) {
        let k = choose|k: int| 0 <= k < after.len() && after[k] == other;
        if k != at {
            assert(devices[k] == other);
            if other.0@ == name@ {
                if k < at {
                    assert(after[k].0@ != after[at].0@);
                } else {
                    assert(after[at].0@ != after[k].0@);
                }
            }
        }
    }
}

proof fn lemma_device_place(devices: Seq<(String, DeviceConfig)>, name: Seq<char>) -> (at: int)
    ensures
        0 <= at <= devices.len(),
        forall|k: int| 0 <= k < at ==> (#[trigger] devices[k]).0@ != name,
        at < devices.len() ==> devices[at].0@ == name,
    decreases devices.len(),
{
    if devices.len() == 0 || devices[0].0@ == name {
        0
    } else {
        let rest = devices.drop_first();
        let n = lemma_device_place(rest, name);
        assert forall|k: int| 0 <= k < n + 1 implies (#[trigger] devices[k]).0@ != name by {
            if k > 0 {
                assert(rest[k - 1] == devices[k]);
            }
        }
        n + 1
    }
}

/// A stream has the size, rate, codec and sound of the settings, a thousand kilobits for each megabit,
/// and no bitrate of its own where none is set. Saving a profile keeps the same, in whole megabits.
pub proof fn law_a_stream_is_as_it_is_set(
    config: Config,
    r: StreamProfile,
    profile: StreamProfile,
    saved: Config,
)
    requires
        config.stream.bitrate_mbps * 1000 <= u32::MAX,
        call_ensures(stream_profile, (&config,), r),
        call_ensures(with_profile, (config, &profile), saved),
    ensures
        r.width == config.stream.width && r.height == config.stream.height && r.fps
            == config.stream.fps && r.codec_preference == config.stream.codec && r.audio
            == config.stream.audio,
        config.stream.bitrate_mbps == 0 ==> r.bitrate_kbps is None,
        config.stream.bitrate_mbps > 0 ==> (r.bitrate_kbps matches Some(kbps) && kbps == 1000
            * config.stream.bitrate_mbps),
        saved.stream.width == profile.width && saved.stream.height == profile.height
            && saved.stream.fps == profile.fps && saved.stream.codec == profile.codec_preference
            && saved.stream.audio == profile.audio,
        profile.bitrate_kbps is None ==> saved.stream.bitrate_mbps == 0,
        profile.bitrate_kbps matches Some(kbps) ==> 1000 * saved.stream.bitrate_mbps <= kbps < 1000 * (
        saved.stream.bitrate_mbps + 1),
        saved.network == config.network && saved.display == config.display && saved.devices
            == config.devices,
{
}

/// One slash stands between a directory and what is below it, whether or not the directory ends with
/// one.
pub proof fn law_one_slash_joins_a_path(directory: &str, rest: &str, r: String)
    requires
        call_ensures(join_path, (directory, rest), r),
    ensures
        directory@.len() == 0 ==> r@ == rest@,
        directory@.len() > 0 && directory@.last() == '/' ==> r@ == directory@ + rest@,
        directory@.len() > 0 && directory@.last() != '/' ==> r@ == directory@ + seq!['/'] + rest@,
{
    reveal_strlit("/");
    assert("/"@ =~= seq!['/']);
    if directory@.len() == 0 {
        assert(directory@ + rest@ =~= rest@);
    }
}

/// The settings and the state are below the directories that the environment names for them, else
/// below the home directory; without either the home directory is missing.
pub proof fn law_settings_and_state_have_their_place(
    directory: Option<&str>,
    home: Option<&str>,
    config: Result<String, ConfigError>,
    state: Result<String, ConfigError>,
    allowlist: Result<String, ConfigError>,
)
    requires
        call_ensures(config_path, (directory, home), config),
        call_ensures(state_dir, (directory, home), state),
        call_ensures(access_path, (directory, home), allowlist),
    ensures
        directory matches Some(named) ==> {
            &&& config matches Ok(path) && path@ == path_below(named@, "omdesky/config.toml"@)
            &&& state matches Ok(path) && path@ == path_below(named@, "omdesky"@)
        },
        directory is None ==> (home matches Some(named) ==> {
            &&& config matches Ok(path) && path@ == path_below(named@, ".config/omdesky/config.toml"@)
            &&& state matches Ok(path) && path@ == path_below(named@, ".local/state/omdesky"@)
        }),
        directory is None && home is None ==> {
            &&& config matches Err(error) && error@ == ConfigErrorView::Missing("HOME"@)
            &&& state matches Err(error) && error@ == ConfigErrorView::Missing("HOME"@)
            &&& allowlist matches Err(error) && error@ == ConfigErrorView::Missing("HOME"@)
        },
        state matches Ok(kept) ==> (allowlist matches Ok(path) && path@ == path_below(
            kept@,
            "access/allowlist.json"@,
        )),
{
    assert(located(config) is Ok <==> config is Ok);
    assert(located(state) is Ok <==> state is Ok);
    assert(located(allowlist) is Ok <==> allowlist is Ok);
}

/// The running session is kept below the directory of the running system, and nowhere without one.
pub proof fn law_the_running_session_has_its_place(
    directory: Option<&str>,
    home: Option<&str>,
    running: Result<String, ConfigError>,
    session: Result<String, ConfigError>,
    sunshine: Result<String, ConfigError>,
)
    requires
        call_ensures(runtime_dir, (directory,), running),
        call_ensures(runtime_session_path, (directory,), session),
        call_ensures(sunshine_config_path, (home,), sunshine),
    ensures
        directory matches Some(named) ==> {
            &&& running matches Ok(path) && path@ == path_below(named@, "omdesky"@)
            &&& session matches Ok(path) && path@ == path_below(
                path_below(named@, "omdesky"@),
                "current-session.json"@,
            )
        },
        directory is None ==> {
            &&& running matches Err(error) && error@ == ConfigErrorView::Missing("XDG_RUNTIME_DIR"@)
            &&& session matches Err(error) && error@ == ConfigErrorView::Missing("XDG_RUNTIME_DIR"@)
        },
        home matches Some(named) ==> (sunshine matches Ok(path) && path@ == path_below(
            named@,
            ".config/sunshine/sunshine.conf"@,
        )),
        home is None ==> (sunshine matches Err(error) && error@ == ConfigErrorView::Missing("HOME"@)),
{
    assert(located(running) is Ok <==> running is Ok);
    assert(located(session) is Ok <==> session is Ok);
    assert(located(sunshine) is Ok <==> sunshine is Ok);
}

/// The colors of the desktop are below the directory of the state, named or of the home directory.
pub proof fn law_the_colors_have_their_place(state: Option<&str>, home: Option<&str>, r: String)
    requires
        call_ensures(theme_path, (state, home), r),
    ensures
        state matches Some(named) ==> r@ == path_below(named@, "omarchy/current/theme/colors.toml"@),
        state is None ==> (home matches Some(named) ==> r@ == path_below(
            path_below(named@, ".local/state"@),
            "omarchy/current/theme/colors.toml"@,
        )),
{
}

/// What is wrong with the environment names the variable.
pub proof fn law_environment_errors_name_the_variable(error: ConfigError, r: String)
    requires
        call_ensures(ConfigError::message, (&error,), r),
    ensures
        error matches ConfigError::MissingEnvironment(name) ==> r@
            == "missing required environment variable "@ + name@,
        error matches ConfigError::InvalidEnvironment(name) ==> r@ == "invalid environment variable "@
            + name@,
{
}

} // verus!
