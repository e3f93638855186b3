//! How programs are found and run: only from trusted directories, in a known environment, and with
//! limits on time and output.
use vstd::prelude::*;
use vstd::string::*;

use crate::config::{join_path, path_below};
use crate::ports::{
    outcome, port_error, CommandOutput, EnvironmentPolicy, PortError, PortErrorView, PortResult,
};
use crate::strings::{chars_of, decimal, push_decimal, push_signed, same_text, signed, texts};

verus! {

pub const TRUSTED_PROGRAM_DIRECTORIES: [&'static str; 4] = [
    "/usr/local/bin",
    "/usr/bin",
    "/bin",
    "/usr/local/sbin",
];

pub const TRUSTED_PATH: &'static str = "/usr/local/bin:/usr/bin:/bin";

/// The directories that a program without a path is looked for in, in this order.
pub open spec fn trusted_directories() -> Seq<Seq<char>> {
    seq!["/usr/local/bin"@, "/usr/bin"@, "/bin"@, "/usr/local/sbin"@]
}

pub open spec fn names_path(program: Seq<char>) -> bool {
    program.contains('/')
}

/// Whether a program is named with its path.
pub fn has_path(program: &str) -> (r: bool)
    ensures
        r == names_path(program@),
{
    let v = chars_of(program);
    let mut i: usize = 0;
    while i < v.len()
        invariant
            v@ == program@,
            i <= v@.len(),
            forall|k: int| 0 <= k < i ==> program@[k] != '/',
        decreases v@.len() - i,
    {
        if v[i] == '/' {
            assert(program@[i as int] == '/');
            return true;
        }
        i += 1;
    }
    false
}

pub open spec fn candidate_paths(program: Seq<char>) -> Seq<Seq<char>> {
    trusted_directories().map_values(|directory: Seq<char>| path_below(directory, program))
}

/// Where a program without a path may be.
pub fn candidates(program: &str) -> (r: Vec<String>)
    ensures
        texts(r@) == candidate_paths(program@),
        r@.len() == 4,
{
    let mut paths: Vec<String> = Vec::new();
    paths.push(join_path("/usr/local/bin", program));
    paths.push(join_path("/usr/bin", program));
    paths.push(join_path("/bin", program));
    paths.push(join_path("/usr/local/sbin", program));
    assert(texts(paths@) =~= candidate_paths(program@));
    paths
}

/// The path of a program: the one that it is named with, else the first candidate that is there.
pub open spec fn resolved(program: Seq<char>, present: Seq<bool>, i: int) -> Result<Seq<char>, PortErrorView>
    decreases 4 - i,
{
    if names_path(program) {
        Ok(program)
    } else if i >= 4 {
        Err(
            port_error(
                "COMMAND_NOT_AVAILABLE"@,
                program + " was not found in a trusted program directory"@,
                false,
            ),
        )
    } else if present[i] {
        Ok(candidate_paths(program)[i])
    } else {
        resolved(program, present, i + 1)
    }
}

pub open spec fn path_outcome(r: PortResult<String>) -> Result<Seq<char>, PortErrorView> {
    match r {
        Ok(path) => Ok(path@),
        Err(error) => Err(error@),
    }
}

/// The path of a program, by which of its candidates are files.
pub fn resolve_program(program: &str, present: [bool; 4]) -> (r: PortResult<String>)
    ensures
        path_outcome(r) == resolved(program@, present@, 0),
{
    if has_path(program) {
        return Ok(program.to_owned());
    }
    proof {
        reveal_with_fuel(resolved, 5);
    }
    let ghost paths = candidate_paths(program@);
    assert(paths[0] == path_below("/usr/local/bin"@, program@));
    assert(paths[1] == path_below("/usr/bin"@, program@));
    assert(paths[2] == path_below("/bin"@, program@));
    assert(paths[3] == path_below("/usr/local/sbin"@, program@));
    if present[0] {
        return Ok(join_path("/usr/local/bin", program));
    }
    if present[1] {
        return Ok(join_path("/usr/bin", program));
    }
    if present[2] {
        return Ok(join_path("/bin", program));
    }
    if present[3] {
        return Ok(join_path("/usr/local/sbin", program));
    }
    Err(
        PortError::new(
            "COMMAND_NOT_AVAILABLE",
            program.to_owned().concat(" was not found in a trusted program directory"),
            false,
        ),
    )
}

/// A program without a path runs only from a trusted directory.
pub proof fn law_bare_names_resolve_to_trusted_directories(program: Seq<char>, present: Seq<bool>)
    requires
        !names_path(program),
    ensures
        resolved(program, present, 0) matches Ok(path) ==> exists|i: int|
            0 <= i < 4 && path == path_below(#[trigger] trusted_directories()[i], program),
{
    reveal_with_fuel(resolved, 5);
    match resolved(program, present, 0) {
        Ok(path) => {
            let i = if present[0] {
                0int
            } else if present[1] {
                1
            } else if present[2] {
                2
            } else {
                3
            };
            assert(path == path_below(trusted_directories()[i], program));
        },
        Err(_) => {},
    }
}

/// The variables that a program gets from the session.
pub open spec fn session_keys() -> Seq<Seq<char>> {
    seq![
        "HOME"@,
        "USER"@,
        "LOGNAME"@,
        "LANG"@,
        "TERM"@,
        "XDG_RUNTIME_DIR"@,
        "XDG_CONFIG_HOME"@,
        "XDG_STATE_HOME"@,
        "XDG_DATA_HOME"@,
        "XDG_SESSION_TYPE"@,
        "WAYLAND_DISPLAY"@,
        "HYPRLAND_INSTANCE_SIGNATURE"@,
        "DISPLAY"@,
        "DBUS_SESSION_BUS_ADDRESS"@,
    ]
}

/// The variables by which the loader can be made to run other code.
pub open spec fn loader_keys() -> Seq<Seq<char>> {
    seq![
        "LD_PRELOAD"@,
        "LD_LIBRARY_PATH"@,
        "LD_AUDIT"@,
        "LD_DEBUG"@,
        "LD_DEBUG_OUTPUT"@,
        "LD_PROFILE"@,
        "LD_ORIGIN_PATH"@,
        "GCONV_PATH"@,
    ]
}

fn session_key_list() -> (r: Vec<&'static str>)
    ensures
        r@.map_values(|s: &'static str| s@) == session_keys(),
{
    let keys: Vec<&'static str> = vec![
        "HOME",
        "USER",
        "LOGNAME",
        "LANG",
        "TERM",
        "XDG_RUNTIME_DIR",
        "XDG_CONFIG_HOME",
        "XDG_STATE_HOME",
        "XDG_DATA_HOME",
        "XDG_SESSION_TYPE",
        "WAYLAND_DISPLAY",
        "HYPRLAND_INSTANCE_SIGNATURE",
        "DISPLAY",
        "DBUS_SESSION_BUS_ADDRESS",
    ];
    assert(keys@.map_values(|s: &'static str| s@) =~= session_keys());
    keys
}

fn loader_key_list() -> (r: Vec<String>)
    ensures
        texts(r@) == loader_keys(),
{
    let mut keys: Vec<String> = Vec::new();
    keys.push("LD_PRELOAD".to_owned());
    keys.push("LD_LIBRARY_PATH".to_owned());
    keys.push("LD_AUDIT".to_owned());
    keys.push("LD_DEBUG".to_owned());
    keys.push("LD_DEBUG_OUTPUT".to_owned());
    keys.push("LD_PROFILE".to_owned());
    keys.push("LD_ORIGIN_PATH".to_owned());
    keys.push("GCONV_PATH".to_owned());
    assert(texts(keys@) =~= loader_keys());
    keys
}

/// How the environment of a program differs from this one.
#[derive(Debug, PartialEq, Eq)]
pub struct EnvironmentPlan {
    /// Nothing is passed on but what is set here.
    pub clear: bool,
    pub set: Vec<(String, String)>,
    pub remove: Vec<String>,
}

pub struct PlanView {
    pub clear: bool,
    pub set: Seq<(Seq<char>, Seq<char>)>,
    pub remove: Seq<Seq<char>>,
}

pub open spec fn pair_views(v: Seq<(String, String)>) -> Seq<(Seq<char>, Seq<char>)> {
    v.map_values(|p: (String, String)| (p.0@, p.1@))
}

impl View for EnvironmentPlan {
    type V = PlanView;

    open spec fn view(&self) -> PlanView {
        PlanView { clear: self.clear, set: pair_views(self.set@), remove: texts(self.remove@) }
    }
}

/// The value of the first entry of a name.
pub open spec fn value_of(environment: Seq<(Seq<char>, Seq<char>)>, key: Seq<char>) -> Option<Seq<char>>
    decreases environment.len(),
{
    if environment.len() == 0 {
        None
    } else if environment[0].0 == key {
        Some(environment[0].1)
    } else {
        value_of(environment.drop_first(), key)
    }
}

/// The entries of an environment under some names, in the order of the names.
pub open spec fn passed_on(environment: Seq<(Seq<char>, Seq<char>)>, keys: Seq<Seq<char>>) -> Seq<
    (Seq<char>, Seq<char>),
>
    decreases keys.len(),
{
    if keys.len() == 0 {
        Seq::empty()
    } else {
        let before = passed_on(environment, keys.drop_last());
        match value_of(environment, keys.last()) {
            Some(value) => before.push((keys.last(), value)),
            None => before,
        }
    }
}

/// What a policy makes of the environment of this process.
pub open spec fn planned(policy: EnvironmentPolicy, environment: Seq<(Seq<char>, Seq<char>)>) -> PlanView {
    match policy {
        EnvironmentPolicy::Empty => PlanView { clear: true, set: Seq::empty(), remove: Seq::empty() },
        EnvironmentPolicy::Session => PlanView {
            clear: true,
            set: seq![("PATH"@, TRUSTED_PATH@)] + passed_on(environment, session_keys()),
            remove: Seq::empty(),
        },
        EnvironmentPolicy::Inherited => PlanView {
            clear: false,
            set: seq![("PATH"@, TRUSTED_PATH@)],
            remove: loader_keys(),
        },
    }
}

fn find_value(environment: &Vec<(String, String)>, key: &str) -> (r: Option<String>)
    ensures
        match r {
            Some(value) => value_of(pair_views(environment@), key@) == Some(value@),
            None => value_of(pair_views(environment@), key@) is None,
        },
{
    let ghost all = pair_views(environment@);
    let mut i: usize = 0;
    assert(all.skip(0) =~= all);
    while i < environment.len()
        invariant
            all == pair_views(environment@),
            i <= environment@.len(),
            value_of(all, key@) == value_of(all.skip(i as int), key@),
        decreases environment@.len() - i,
    {
        assert(all.skip(i as int)[0] == (environment@[i as int].0@, environment@[i as int].1@));
        assert(all.skip(i as int).drop_first() =~= all.skip(i + 1));
        if same_text(environment[i].0.as_str(), key) {
            return Some(environment[i].1.clone());
        }
        i += 1;
    }
    None
}

pub fn environment_plan(policy: EnvironmentPolicy, environment: &Vec<(String, String)>) -> (r: EnvironmentPlan)
    ensures
        r@ == planned(policy, pair_views(environment@)),
{
    let mut set: Vec<(String, String)> = Vec::new();
    let none: Vec<String> = Vec::new();
    assert(texts(none@) =~= Seq::<Seq<char>>::empty());
    match policy {
        EnvironmentPolicy::Empty => {
            assert(pair_views(set@) =~= Seq::<(Seq<char>, Seq<char>)>::empty());
            EnvironmentPlan { clear: true, set, remove: none }
        },
        EnvironmentPolicy::Session => {
            set.push(("PATH".to_owned(), TRUSTED_PATH.to_owned()));
            let ghost first = seq![("PATH"@, TRUSTED_PATH@)];
            assert(pair_views(set@) =~= first);
            let keys = session_key_list();
            let ghost names = session_keys();
            let ghost all = pair_views(environment@);
            let mut i: usize = 0;
            assert(names.take(0) =~= Seq::<Seq<char>>::empty());
            assert(pair_views(set@) =~= first + passed_on(all, names.take(0)));
            while i < keys.len()
                invariant
                    keys@.map_values(|s: &'static str| s@) == names,
                    all == pair_views(environment@),
                    i <= keys@.len(),
                    pair_views(set@) == first + passed_on(all, names.take(i as int)),
                decreases keys@.len() - i,
            {
                let key = keys[i];
                assert(key@ == names[i as int]);
                assert(names.take(i + 1).drop_last() =~= names.take(i as int));
                assert(names.take(i + 1).last() == key@);
                let ghost before = set@;
                match find_value(environment, key) {
                    Some(value) => {
                        set.push((key.to_owned(), value));
                        assert(pair_views(set@) =~= pair_views(before).push((key@, value@)));
                        assert(pair_views(set@) =~= first + passed_on(all, names.take(i + 1)));
                    },
                    None => {},
                }
                i += 1;
            }
            assert(names.take(names.len() as int) =~= names);
            EnvironmentPlan { clear: true, set, remove: none }
        },
        EnvironmentPolicy::Inherited => {
            set.push(("PATH".to_owned(), TRUSTED_PATH.to_owned()));
            assert(pair_views(set@) =~= seq![("PATH"@, TRUSTED_PATH@)]);
            EnvironmentPlan { clear: false, set, remove: loader_key_list() }
        },
    }
}

/// Under a policy of its own a program sees the trusted path, whatever this process has.
pub proof fn law_the_path_is_always_trusted(policy: EnvironmentPolicy, environment: Seq<(Seq<char>, Seq<char>)>)
    requires
        policy != EnvironmentPolicy::Empty,
    ensures
        value_of(planned(policy, environment).set, "PATH"@) == Some(TRUSTED_PATH@),
{
    let set = planned(policy, environment).set;
    assert(set[0] == ("PATH"@, TRUSTED_PATH@));
}

proof fn lemma_passed_on(environment: Seq<(Seq<char>, Seq<char>)>, keys: Seq<Seq<char>>)
    ensures
        forall|i: int|
            0 <= i < passed_on(environment, keys).len() ==> keys.contains(
                (#[trigger] passed_on(environment, keys)[i]).0,
            ),
    decreases keys.len(),
{
    if keys.len() > 0 {
        lemma_passed_on(environment, keys.drop_last());
        let before = passed_on(environment, keys.drop_last());
        assert forall|i: int| 0 <= i < passed_on(environment, keys).len() implies keys.contains(
            (#[trigger] passed_on(environment, keys)[i]).0,
        ) by {
            let name = passed_on(environment, keys)[i].0;
            if i < before.len() {
                assert(before[i].0 == name);
                assert(keys.drop_last().contains(name));
                let k = choose|k: int| 0 <= k < keys.drop_last().len() && keys.drop_last()[k] == name;
                assert(keys[k] == name);
            } else {
                assert(keys[keys.len() - 1] == name);
            }
        }
    }
}

/// Of the environment of this process nothing reaches a program of the session but the variables
/// that are listed for it.
pub proof fn law_only_listed_variables_are_passed_on(environment: Seq<(Seq<char>, Seq<char>)>, i: int)
    requires
        0 <= i < planned(EnvironmentPolicy::Session, environment).set.len(),
    ensures
        planned(EnvironmentPolicy::Session, environment).clear,
        i == 0 || session_keys().contains(planned(EnvironmentPolicy::Session, environment).set[i].0),
{
    lemma_passed_on(environment, session_keys());
}

/// Adds a piece of output, unless it would be more than the limit.
pub fn read_limited(output: &mut Vec<u8>, piece: &[u8], limit: usize) -> (r: PortResult<()>)
    ensures
        if old(output)@.len() + piece@.len() > limit {
            &&& final(output)@ == old(output)@
            &&& r is Err
            &&& r->Err_0@ == port_error(
                "COMMAND_OUTPUT_LIMIT"@,
                "command output exceeded "@ + decimal(limit as nat) + " bytes"@,
                false,
            )
        } else {
            &&& final(output)@ == old(output)@ + piece@
            &&& r is Ok
        },
{
    let used: usize = output.len();
    let more: usize = piece.len();
    if used > limit || more > limit - used {
        let mut message = "command output exceeded ".to_owned();
        push_decimal(&mut message, limit as u64);
        message.append(" bytes");
        return Err(PortError::new("COMMAND_OUTPUT_LIMIT", message, false));
    }
    let mut i: usize = 0;
    while i < piece.len()
        invariant
            i <= piece@.len(),
            output@ == old(output)@ + piece@.take(i as int),
        decreases piece@.len() - i,
    {
        output.push(piece[i]);
        assert(output@ =~= old(output)@ + piece@.take(i + 1));
        i += 1;
    }
    assert(piece@.take(piece@.len() as int) =~= piece@);
    Ok(())
}

/// What happens while a program runs.
#[derive(Debug, PartialEq, Eq)]
pub enum RunEvent {
    /// It ended, with its code where it has one, and whether that is success.
    Exited { code: Option<i32>, success: bool },
    /// It could not be waited for.
    WaitFailed(String),
    /// Its standard output, or its error output, was read to the end or not.
    Output { is_stdout: bool, output: PortResult<Vec<u8>> },
    ReaderStopped,
    TimedOut,
}

/// What is to be done next.
#[derive(Debug)]
pub enum RunStep {
    Wait,
    /// The program is to be killed; then the error is the outcome, or `terminate_error` where that
    /// failed.
    Kill(PortError),
    Done(PortResult<CommandOutput>),
}

/// A program that runs: what is known of it so far.
#[derive(Debug)]
pub struct CommandRun {
    pub program: String,
    pub timeout_millis: u64,
    pub status: Option<(i32, bool)>,
    pub stdout: Option<Vec<u8>>,
    pub stderr: Option<Vec<u8>>,
}

pub struct RunView {
    pub program: Seq<char>,
    pub timeout_millis: u64,
    pub status: Option<(i32, bool)>,
    pub stdout: Option<Seq<u8>>,
    pub stderr: Option<Seq<u8>>,
}

pub open spec fn opt_bytes(v: Option<Vec<u8>>) -> Option<Seq<u8>> {
    match v {
        Some(v) => Some(v@),
        None => None,
    }
}

impl View for CommandRun {
    type V = RunView;

    open spec fn view(&self) -> RunView {
        RunView {
            program: self.program@,
            timeout_millis: self.timeout_millis,
            status: self.status,
            stdout: opt_bytes(self.stdout),
            stderr: opt_bytes(self.stderr),
        }
    }
}

pub enum StepView {
    Wait,
    Kill(PortErrorView),
    Done(Result<(int, Seq<u8>, Seq<u8>), PortErrorView>),
}

impl View for RunStep {
    type V = StepView;

    open spec fn view(&self) -> StepView {
        match self {
            RunStep::Wait => StepView::Wait,
            RunStep::Kill(error) => StepView::Kill(error@),
            RunStep::Done(Ok(output)) => StepView::Done(
                Ok((output.status as int, output.stdout@, output.stderr@)),
            ),
            RunStep::Done(Err(error)) => StepView::Done(Err(error@)),
        }
    }
}

pub open spec fn spawn_error_view(program: Seq<char>, detail: Seq<char>) -> PortErrorView {
    port_error("COMMAND_NOT_AVAILABLE"@, "unable to execute "@ + program + ": "@ + detail, false)
}

pub fn spawn_error(program: &str, detail: &str) -> (r: PortError)
    ensures
        r@ == spawn_error_view(program@, detail@),
{
    PortError::new(
        "COMMAND_NOT_AVAILABLE",
        "unable to execute ".to_owned().concat(program).concat(": ").concat(detail),
        false,
    )
}

pub fn terminate_error(program: &str, detail: &str) -> (r: PortError)
    ensures
        r@ == port_error(
            "PROCESS_TERMINATE_FAILED"@,
            "unable to terminate "@ + program@ + ": "@ + detail@,
            false,
        ),
{
    PortError::new(
        "PROCESS_TERMINATE_FAILED",
        "unable to terminate ".to_owned().concat(program).concat(": ").concat(detail),
        false,
    )
}

/// The exit status of a process that was waited for: a process that a signal ended has none, and
/// counts as minus one.
pub fn wait_result(status: Result<Option<i32>, String>) -> (r: PortResult<i32>)
    ensures
        outcome(r) == (match status {
            Ok(Some(code)) => Ok::<i32, PortErrorView>(code),
            Ok(None) => Ok(-1i32),
            Err(detail) => Err(port_error("PROCESS_WAIT_FAILED"@, detail@, false)),
        }),
{
    match status {
        Ok(Some(code)) => Ok(code),
        Ok(None) => Ok(-1),
        Err(detail) => Err(PortError::new("PROCESS_WAIT_FAILED", detail, false)),
    }
}

pub open spec fn timeout_error_view(program: Seq<char>, timeout_millis: u64) -> PortErrorView {
    port_error(
        "COMMAND_TIMEOUT"@,
        program + " exceeded timeout of "@ + decimal((timeout_millis / 1000) as nat) + " seconds"@,
        true,
    )
}

pub fn timeout_error(program: &str, timeout_millis: u64) -> (r: PortError)
    ensures
        r@ == timeout_error_view(program@, timeout_millis),
{
    let mut message = program.to_owned().concat(" exceeded timeout of ");
    push_decimal(&mut message, timeout_millis / 1000);
    message.append(" seconds");
    PortError::new("COMMAND_TIMEOUT", message, true)
}

impl RunView {
    /// Whether everything is known.
    pub open spec fn complete(self) -> bool {
        self.status is Some && self.stdout is Some && self.stderr is Some
    }

    /// What the program gave, or that it failed.
    pub open spec fn result(self) -> StepView {
        let (code, success) = self.status->0;
        if !self.complete() {
            StepView::Wait
        } else if success {
            StepView::Done(Ok((code as int, self.stdout->0, self.stderr->0)))
        } else {
            StepView::Done(
                Err(
                    port_error(
                        "COMMAND_FAILED"@,
                        self.program + " exited with status "@ + signed(code as int),
                        false,
                    ),
                ),
            )
        }
    }

    /// What an event makes known.
    pub open spec fn learned(self, event: RunEvent) -> RunView {
        match event {
            RunEvent::Exited { code, success } => RunView {
                status: Some(
                    (
                        match code {
                            Some(code) => code,
                            None => -1i32,
                        },
                        success,
                    ),
                ),
                ..self
            },
            RunEvent::Output { is_stdout, output: Ok(output) } => if is_stdout {
                RunView { stdout: Some(output@), ..self }
            } else {
                RunView { stderr: Some(output@), ..self }
            },
            _ => self,
        }
    }

    pub open spec fn step(self, event: RunEvent) -> StepView {
        match event {
            RunEvent::WaitFailed(detail) => StepView::Done(
                Err(spawn_error_view(self.program, detail@)),
            ),
            RunEvent::Output { is_stdout, output: Err(error) } => StepView::Kill(error@),
            RunEvent::ReaderStopped => StepView::Done(
                Err(
                    port_error(
                        "COMMAND_OUTPUT_FAILED"@,
                        "command output reader stopped unexpectedly"@,
                        false,
                    ),
                ),
            ),
            RunEvent::TimedOut => StepView::Kill(timeout_error_view(self.program, self.timeout_millis)),
            _ => self.learned(event).result(),
        }
    }
}

impl CommandRun {
    pub fn new(program: String, timeout_millis: u64) -> (r: Self)
        ensures
            r@ == (RunView {
                program: program@,
                timeout_millis,
                status: None,
                stdout: None,
                stderr: None,
            }),
    {
        CommandRun { program, timeout_millis, status: None, stdout: None, stderr: None }
    }

    fn finish(&self) -> (r: RunStep)
        ensures
            r@ == self@.result(),
    {
        match (self.status, &self.stdout, &self.stderr) {
            (Some((code, success)), Some(stdout), Some(stderr)) => {
                if success {
                    RunStep::Done(
                        Ok(
                            CommandOutput {
                                status: code,
                                stdout: copy_bytes(stdout),
                                stderr: copy_bytes(stderr),
                            },
                        ),
                    )
                } else {
                    let mut message = self.program.clone().concat(" exited with status ");
                    push_signed(&mut message, code as i64);
                    RunStep::Done(Err(PortError::new("COMMAND_FAILED", message, false)))
                }
            },
            _ => RunStep::Wait,
        }
    }

    /// Takes what happened; tells what is to be done.
    pub fn event(&mut self, event: RunEvent) -> (r: RunStep)
        ensures
            final(self)@ == old(self)@.learned(event),
            r@ == old(self)@.step(event),
    {
        match event {
            RunEvent::Exited { code, success } => {
                let code: i32 = match code {
                    Some(code) => code,
                    None => -1,
                };
                self.status = Some((code, success));
                self.finish()
            },
            RunEvent::WaitFailed(detail) => RunStep::Done(
                Err(spawn_error(self.program.as_str(), detail.as_str())),
            ),
            RunEvent::Output { is_stdout, output } => match output {
                Ok(output) => {
                    if is_stdout {
                        self.stdout = Some(output);
                    } else {
                        self.stderr = Some(output);
                    }
                    self.finish()
                },
                Err(error) => RunStep::Kill(error),
            },
            RunEvent::ReaderStopped => RunStep::Done(
                Err(
                    PortError::plain(
                        "COMMAND_OUTPUT_FAILED",
                        "command output reader stopped unexpectedly",
                        false,
                    ),
                ),
            ),
            RunEvent::TimedOut => RunStep::Kill(
                timeout_error(self.program.as_str(), self.timeout_millis),
            ),
        }
    }
}

fn copy_bytes(v: &Vec<u8>) -> (r: Vec<u8>)
    ensures
        r@ == v@,
{
    let mut r: Vec<u8> = Vec::new();
    let mut i: usize = 0;
    while i < v.len()
        invariant
            i <= v@.len(),
            r@ == v@.take(i as int),
        decreases v@.len() - i,
    {
        r.push(v[i]);
        assert(v@.take(i + 1) =~= v@.take(i as int).push(v@[i as int]));
        i += 1;
    }
    assert(v@.take(v@.len() as int) =~= v@);
    r
}

/// A program that does not end with success never gives an output.
pub proof fn law_failed_programs_give_no_output(run: RunView, event: RunEvent)
    ensures
        run.step(event) matches StepView::Done(Ok(_)) ==> run.learned(event).status matches Some(status)
            && status.1,
{
}

/// A program that is named with its path is that one. One that is not is the first that is there in
/// `/usr/local/bin`, `/usr/bin`, `/bin` and `/usr/local/sbin`, and else is not available.
pub proof fn law_programs_are_found_in_four_places(program: &str, present: [bool; 4], r: PortResult<String>)
    requires
        call_ensures(resolve_program, (program, present), r),
    ensures
        program@.contains('/') ==> (r matches Ok(path) && path@ == program@),
        !program@.contains('/') ==> {
            &&& present@[0] ==> (r matches Ok(path) && path@ == path_below("/usr/local/bin"@, program@))
            &&& !present@[0] && present@[1] ==> (r matches Ok(path) && path@ == path_below(
                "/usr/bin"@,
                program@,
            ))
            &&& !present@[0] && !present@[1] && present@[2] ==> (r matches Ok(path) && path@
                == path_below("/bin"@, program@))
            &&& !present@[0] && !present@[1] && !present@[2] && present@[3] ==> (r matches Ok(path)
                && path@ == path_below("/usr/local/sbin"@, program@))
            &&& !present@[0] && !present@[1] && !present@[2] && !present@[3] ==> (r matches Err(error)
                && error.code@ == "COMMAND_NOT_AVAILABLE"@ && !error.retryable)
        },
{
    reveal_with_fuel(resolved, 5);
    let paths = candidate_paths(program@);
    assert(paths[0] == path_below("/usr/local/bin"@, program@));
    assert(paths[1] == path_below("/usr/bin"@, program@));
    assert(paths[2] == path_below("/bin"@, program@));
    assert(paths[3] == path_below("/usr/local/sbin"@, program@));
    assert(path_outcome(r) is Ok <==> r is Ok);
    if let Err(error) = r {
        assert(path_outcome(r)->Err_0 == error@);
        assert(error@.code == error.code@);
        assert(error@.retryable == error.retryable);
    }
}

/// The candidates of a program are these four, in this order.
pub proof fn law_there_are_four_candidates(program: &str, r: Vec<String>)
    requires
        call_ensures(candidates, (program,), r),
    ensures
        r@.len() == 4,
        r@[0]@ == path_below("/usr/local/bin"@, program@),
        r@[1]@ == path_below("/usr/bin"@, program@),
        r@[2]@ == path_below("/bin"@, program@),
        r@[3]@ == path_below("/usr/local/sbin"@, program@),
{
    let paths = texts(r@);
    assert(paths[0] == r@[0]@ && paths[1] == r@[1]@ && paths[2] == r@[2]@ && paths[3] == r@[3]@);
}

/// The environment of a program: nothing for an empty one; for the session only the trusted path and
/// the listed variables; an inherited one with the trusted path and without what the loader reads.
pub proof fn law_programs_have_a_known_environment(
    policy: EnvironmentPolicy,
    environment: Vec<(String, String)>,
    r: EnvironmentPlan,
)
    requires
        call_ensures(environment_plan, (policy, &environment), r),
    ensures
        r.clear <==> policy != EnvironmentPolicy::Inherited,
        policy == EnvironmentPolicy::Empty ==> r.set@.len() == 0,
        policy != EnvironmentPolicy::Empty ==> r.set@.len() >= 1 && r.set@[0].0@ == "PATH"@
            && r.set@[0].1@ == "/usr/local/bin:/usr/bin:/bin"@,
        policy == EnvironmentPolicy::Inherited ==> r.set@.len() == 1 && texts(r.remove@) == seq![
            "LD_PRELOAD"@,
            "LD_LIBRARY_PATH"@,
            "LD_AUDIT"@,
            "LD_DEBUG"@,
            "LD_DEBUG_OUTPUT"@,
            "LD_PROFILE"@,
            "LD_ORIGIN_PATH"@,
            "GCONV_PATH"@,
        ],
        policy != EnvironmentPolicy::Inherited ==> r.remove@.len() == 0,
{
    assert(r@.clear == r.clear);
    assert(r@.set.len() == r.set@.len());
    assert(r@.remove.len() == r.remove@.len());
    if r.set@.len() > 0 {
        assert(r@.set[0] == (r.set@[0].0@, r.set@[0].1@));
    }
}

/// Each listed variable of the session that is set here is set for the program, to the same value, and
/// no other is but the path.
pub proof fn law_the_session_is_passed_on(
    environment: Vec<(String, String)>,
    r: EnvironmentPlan,
    key: Seq<char>,
    value: Seq<char>,
)
    requires
        call_ensures(environment_plan, (EnvironmentPolicy::Session, &environment), r),
    ensures
        r@.set.skip(1).contains((key, value)) <==> value_of(pair_views(environment@), key) == Some(value)
            && (key == "HOME"@ || key == "USER"@ || key == "LOGNAME"@ || key == "LANG"@ || key
            == "TERM"@ || key == "XDG_RUNTIME_DIR"@ || key == "XDG_CONFIG_HOME"@ || key
            == "XDG_STATE_HOME"@ || key == "XDG_DATA_HOME"@ || key == "XDG_SESSION_TYPE"@ || key
            == "WAYLAND_DISPLAY"@ || key == "HYPRLAND_INSTANCE_SIGNATURE"@ || key == "DISPLAY"@ || key
            == "DBUS_SESSION_BUS_ADDRESS"@),
{
    let all = pair_views(environment@);
    let keys = session_keys();
    let rest = passed_on(all, keys);
    assert(r@.set.skip(1) =~= rest);
    lemma_passed_values(all, keys, key, value);
    if keys.contains(key) {
        let k = choose|k: int| 0 <= k < keys.len() && keys[k] == key;
        assert(keys.len() == 14);
        assert(k == 0 || k == 1 || k == 2 || k == 3 || k == 4 || k == 5 || k == 6 || k == 7 || k == 8 || k
            == 9 || k == 10 || k == 11 || k == 12 || k == 13);
    }
    assert(keys[0] == "HOME"@);
    assert(keys[1] == "USER"@);
    assert(keys[2] == "LOGNAME"@);
    assert(keys[3] == "LANG"@);
    assert(keys[4] == "TERM"@);
    assert(keys[5] == "XDG_RUNTIME_DIR"@);
    assert(keys[6] == "XDG_CONFIG_HOME"@);
    assert(keys[7] == "XDG_STATE_HOME"@);
    assert(keys[8] == "XDG_DATA_HOME"@);
    assert(keys[9] == "XDG_SESSION_TYPE"@);
    assert(keys[10] == "WAYLAND_DISPLAY"@);
    assert(keys[11] == "HYPRLAND_INSTANCE_SIGNATURE"@);
    assert(keys[12] == "DISPLAY"@);
    assert(keys[13] == "DBUS_SESSION_BUS_ADDRESS"@);
}

proof fn lemma_passed_values(
    environment: Seq<(Seq<char>, Seq<char>)>,
    keys: Seq<Seq<char>>,
    key: Seq<char>,
    value: Seq<char>,
)
    ensures
        passed_on(environment, keys).contains((key, value)) <==> keys.contains(key) && value_of(
            environment,
            key,
        ) == Some(value),
    decreases keys.len(),
{
    let entry = (key, value);
    if keys.len() > 0 {
        let shorter = keys.drop_last();
        lemma_passed_values(environment, shorter, key, value);
        let before = passed_on(environment, shorter);
        let after = passed_on(environment, keys);
        if keys.contains(key) {
            let k = choose|k: int| 0 <= k < keys.len() && keys[k] == key;
            if k < shorter.len() {
                assert(shorter[k] == key);
            }
        }
        if shorter.contains(key) {
            let k = choose|k: int| 0 <= k < shorter.len() && shorter[k] == key;
            assert(keys[k] == key);
        }
        assert(keys[keys.len() - 1] == keys.last());
        if before.contains(entry) {
            let k = choose|k: int| 0 <= k < before.len() && before[k] == entry;
            assert(after[k] == entry);
        }
        if value_of(environment, keys.last()) is Some {
            assert(after[before.len() as int] == (keys.last(), value_of(environment, keys.last())->0));
        }
        if after.contains(entry) {
            let k = choose|k: int| 0 <= k < after.len() && after[k] == entry;
            if k < before.len() {
                assert(before[k] == entry);
            }
        }
    }
}

/// A value is that of the first entry of its name.
pub proof fn law_the_first_entry_has_the_value(
    environment: Seq<(Seq<char>, Seq<char>)>,
    key: Seq<char>,
    i: int,
)
    requires
        0 <= i <= environment.len(),
        forall|k: int| 0 <= k < i ==> (#[trigger] environment[k]).0 != key,
        i < environment.len() ==> environment[i].0 == key,
    ensures
        i < environment.len() ==> value_of(environment, key) == Some(environment[i].1),
        i == environment.len() ==> value_of(environment, key) is None,
    decreases i,
{
    if i > 0 {
        let rest = environment.drop_first();
        assert(environment[0].0 != key);
        assert forall|k: int| 0 <= k < i - 1 implies (#[trigger] rest[k]).0 != key by {
            assert(rest[k] == environment[k + 1]);
        }
        law_the_first_entry_has_the_value(rest, key, i - 1);
    }
}

/// Output is kept up to the limit, to the byte; a piece that would go over it is not taken in part.
pub proof fn law_output_is_kept_up_to_the_limit(
    output: &mut Vec<u8>,
    piece: &[u8],
    limit: usize,
    r: PortResult<()>,
)
    requires
        call_ensures(read_limited, (output, piece, limit), r),
    ensures
        r is Ok <==> old(output)@.len() + piece@.len() <= limit,
        r is Ok ==> final(output)@ == old(output)@ + piece@,
        r is Err ==> final(output)@ == old(output)@,
        r matches Err(error) ==> error.code@ == "COMMAND_OUTPUT_LIMIT"@ && !error.retryable,
{
    if let Err(error) = r {
        assert(error@.code == error.code@);
        assert(error@.retryable == error.retryable);
    }
}

/// A program is done once its end and both its outputs are known, in whatever order they come: with
/// these where it succeeded, and else with an error that names its status.
pub proof fn law_a_program_is_done_when_all_is_known(run: &mut CommandRun, event: RunEvent, r: RunStep)
    requires
        call_ensures(CommandRun::event, (run, event), r),
        event is Exited || (event matches RunEvent::Output { is_stdout, output: Ok(_) }),
    ensures
        r is Wait <==> !(final(run).status is Some && final(run).stdout is Some && final(run).stderr
            is Some),
        r !is Kill,
        r matches RunStep::Done(Ok(output)) ==> (final(run).status matches Some((code, success))
            && success && output.status == code && output.stdout@ == final(run).stdout->0@
            && output.stderr@ == final(run).stderr->0@),
        r matches RunStep::Done(Err(error)) ==> (final(run).status matches Some((_, success)) && !success
            && error.code@ == "COMMAND_FAILED"@ && !error.retryable),
        event matches RunEvent::Exited { code, success } ==> final(run).status == Some(
            (
                if code is Some {
                    code->0
                } else {
                    -1i32
                },
                success,
            ),
        ),
{
    assert(final(run)@.status == final(run).status);
    assert(final(run)@.stdout is Some <==> final(run).stdout is Some);
    assert(final(run)@.stderr is Some <==> final(run).stderr is Some);
    let _ = r@;
    if let RunStep::Done(Err(error)) = r {
        assert(error@.code == error.code@);
        assert(error@.retryable == error.retryable);
    }
}

/// What a reader tells is kept under its own stream, and what was known of the other stays.
pub proof fn law_outputs_are_kept_apart(
    run: &mut CommandRun,
    is_stdout: bool,
    output: Vec<u8>,
    r: RunStep,
)
    requires
        call_ensures(CommandRun::event, (run, RunEvent::Output { is_stdout, output: Ok(output) }), r),
    ensures
        is_stdout ==> opt_bytes(final(run).stdout) == Some(output@) && opt_bytes(final(run).stderr)
            == opt_bytes(old(run).stderr),
        !is_stdout ==> opt_bytes(final(run).stderr) == Some(output@) && opt_bytes(final(run).stdout)
            == opt_bytes(old(run).stdout),
        final(run).status == old(run).status,
{
    assert(final(run)@.status == final(run).status);
    assert(final(run)@.stdout == opt_bytes(final(run).stdout));
    assert(final(run)@.stderr == opt_bytes(final(run).stderr));
}

/// A program that runs too long, or whose output is too long, is killed, with that as the outcome; one
/// that cannot be waited for, or whose reader stopped, is given up.
pub proof fn law_a_program_that_goes_wrong_is_stopped(run: &mut CommandRun, event: RunEvent, r: RunStep)
    requires
        call_ensures(CommandRun::event, (run, event), r),
    ensures
        event is TimedOut ==> (r matches RunStep::Kill(error) && error.code@ == "COMMAND_TIMEOUT"@
            && error.retryable && error.message@ == old(run).program@ + " exceeded timeout of "@ + decimal(
            (old(run).timeout_millis / 1000) as nat,
        ) + " seconds"@),
        event matches RunEvent::Output { is_stdout, output: Err(error) } ==> (r matches RunStep::Kill(
            told,
        ) && told@ == error@),
        event is WaitFailed ==> (r matches RunStep::Done(Err(error)) && error.code@
            == "COMMAND_NOT_AVAILABLE"@ && !error.retryable),
        event is ReaderStopped ==> (r matches RunStep::Done(Err(error)) && error.code@
            == "COMMAND_OUTPUT_FAILED"@ && !error.retryable),
{
    let _ = r@;
    if let RunStep::Kill(error) = r {
        assert(error@.code == error.code@);
        assert(error@.message == error.message@);
        assert(error@.retryable == error.retryable);
    }
    if let RunStep::Done(Err(error)) = r {
        assert(error@.code == error.code@);
        assert(error@.retryable == error.retryable);
    }
}

/// A process that a signal ended counts as minus one.
pub proof fn law_a_signal_counts_as_minus_one(status: Result<Option<i32>, String>, r: PortResult<i32>)
    requires
        call_ensures(wait_result, (status,), r),
    ensures
        status matches Ok(Some(code)) ==> r == Ok::<i32, PortError>(code),
        status matches Ok(None) ==> r == Ok::<i32, PortError>(-1i32),
        status is Err ==> (r matches Err(error) && error.code@ == "PROCESS_WAIT_FAILED"@),
{
    assert(outcome(r) is Ok <==> r is Ok);
    if let Err(error) = r {
        assert(outcome(r)->Err_0 == error@);
        assert(error@.code == error.code@);
    }
}

/// A failure to start or to end a program names it and says why.
pub proof fn law_failures_name_the_program(
    program: &str,
    detail: &str,
    spawned: PortError,
    terminated: PortError,
)
    requires
        call_ensures(spawn_error, (program, detail), spawned),
        call_ensures(terminate_error, (program, detail), terminated),
    ensures
        spawned.code@ == "COMMAND_NOT_AVAILABLE"@ && spawned.message@ == "unable to execute "@ + program@
            + ": "@ + detail@ && !spawned.retryable,
        terminated.code@ == "PROCESS_TERMINATE_FAILED"@ && terminated.message@ == "unable to terminate "@
            + program@ + ": "@ + detail@ && !terminated.retryable,
{
    assert(spawned@.code == spawned.code@ && spawned@.message == spawned.message@ && spawned@.retryable
        == spawned.retryable);
    assert(terminated@.code == terminated.code@ && terminated@.message == terminated.message@
        && terminated@.retryable == terminated.retryable);
}

/// A program names a path where a slash stands in it.
pub proof fn law_a_path_has_a_slash(program: &str, r: bool)
    requires
        call_ensures(has_path, (program,), r),
    ensures
        r <==> program@.contains('/'),
{
    if program@.contains('/') {
        let k = choose|k: int| 0 <= k < program@.len() && program@[k] == '/';
        assert(program@[k] == '/');
    }
}

/// A program that took too long is told with its name and the seconds that it had, and may be
/// tried again.
pub proof fn law_a_late_program_is_told_with_its_time(program: &str, millis: u64, r: PortError)
    requires
        call_ensures(timeout_error, (program, millis), r),
    ensures
        r@.code == "COMMAND_TIMEOUT"@,
        r@.message == program@ + " exceeded timeout of "@ + decimal((millis / 1000) as nat) + " seconds"@,
        r@.retryable,
{
}

/// A program that is in no trusted directory is told by its name, and output beyond its limit with
/// the limit.
pub proof fn law_missing_programs_and_long_output_are_told(
    program: &str,
    nowhere: [bool; 4],
    missing: PortResult<String>,
    output: &mut Vec<u8>,
    piece: &[u8],
    limit: usize,
    r: PortResult<()>,
)
    requires
        call_ensures(resolve_program, (program, nowhere), missing),
        forall|i: int| 0 <= i < 4 ==> !(#[trigger] nowhere@[i]),
        !program@.contains('/'),
        call_ensures(read_limited, (output, piece, limit), r),
    ensures
        missing matches Err(error) && error@.code == "COMMAND_NOT_AVAILABLE"@ && error@.message == program@
            + " was not found in a trusted program directory"@ && !error@.retryable,
        r is Ok <==> old(output)@.len() + piece@.len() <= limit,
        r is Ok ==> final(output)@ == old(output)@ + piece@,
        r matches Err(error) ==> final(output)@ == old(output)@ && error@.message
            == "command output exceeded "@ + decimal(limit as nat) + " bytes"@,
{
    assert(!names_path(program@)) by {
        if names_path(program@) {
            let k = choose|k: int| 0 <= k < program@.len() && program@[k] == '/';
            assert(program@.contains('/'));
        }
    }
    assert(!nowhere@[0] && !nowhere@[1] && !nowhere@[2] && !nowhere@[3]);
    reveal_with_fuel(resolved, 5);
}

/// A reader that stopped is told as that.
pub proof fn law_a_stopped_reader_is_told(run: &mut CommandRun, r: RunStep)
    requires
        call_ensures(CommandRun::event, (run, RunEvent::ReaderStopped), r),
    ensures
        r@ matches StepView::Done(Err(error)) && error.code == "COMMAND_OUTPUT_FAILED"@ && error.message
            == "command output reader stopped unexpectedly"@ && !error.retryable,
{
}

} // verus!
