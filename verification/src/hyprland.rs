//! What the compositor is asked, and what its answers mean.
use vstd::prelude::*;
use vstd::string::*;

use crate::domain::{
    DisplayView, Display, KeyChord, RemoteCommand, RemoteCommandView, Window, WindowId,
    WindowSelector, WindowView, Workspace, WorkspaceId, WorkspaceTarget, WorkspaceTargetView,
    WorkspaceView,
};
use crate::input::{
    batch, close_window, command_actions, hyprctl_batch_argument, is_eval, shortcut_lua, timed_shortcut_lua,
};
use crate::order::{stable_sort, stably_sorted, strict_weak_order};
use crate::ports::{port_error, CommandSpec, EnvironmentPolicy, PortError, PortErrorView, PortResult};
use crate::scan::{contains_text, holds_text};
use crate::seqs::{keep_when, map_each};
use crate::strings::{
    every_char, is_whitespace, opt_text, push_signed, same_text, signed, texts, trim_text, trimmed, whitespace,
};

verus! {

/// A monitor as the compositor reports it. The refresh rate, in hertz, is kept as the bits of a double.
#[derive(Debug, PartialEq, Eq)]
pub struct HyprMonitor {
    pub name: String,
    pub description: Option<String>,
    pub width: u32,
    pub height: u32,
    pub refresh_bits: u64,
    pub focused: bool,
    pub disabled: bool,
}

#[derive(Debug, PartialEq, Eq)]
pub struct HyprWorkspace {
    pub id: i64,
    pub name: Option<String>,
    pub monitor: Option<String>,
    pub windows: u32,
}

#[derive(Debug, PartialEq, Eq)]
pub struct HyprClient {
    pub address: String,
    pub class: Option<String>,
    pub initial_class: Option<String>,
    pub title: Option<String>,
    pub workspace_id: i64,
}

/// An answer that could not be read.
pub open spec fn unreadable(detail: Seq<char>) -> PortErrorView {
    port_error(
        "HYPRLAND_UNAVAILABLE"@,
        "unable to parse Hyprland output: "@ + detail,
        false,
    )
}

pub fn hyprland_error(detail: &str) -> (r: PortError)
    ensures
        r@ == unreadable(detail@),
{
    PortError::new(
        "HYPRLAND_UNAVAILABLE",
        "unable to parse Hyprland output: ".to_owned().concat(detail),
        false,
    )
}

pub open spec fn enabled() -> spec_fn(HyprMonitor) -> bool {
    |m: HyprMonitor| !m.disabled
}

/// A monitor by its name, shown under its description where it has one.
pub open spec fn shown_monitor() -> spec_fn(HyprMonitor) -> DisplayView {
    |m: HyprMonitor|
        DisplayView {
            id: m.name@,
            name: match m.description {
                Some(description) => description@,
                None => m.name@,
            },
            width: m.width,
            height: m.height,
            refresh_bits: m.refresh_bits,
            focused: m.focused,
        }
}

pub open spec fn display_view() -> spec_fn(Display) -> DisplayView {
    |d: Display| d@
}

fn is_enabled(m: &HyprMonitor) -> (r: bool)
    ensures
        r == enabled()(*m),
{
    !m.disabled
}

fn monitor_display(m: HyprMonitor) -> (r: Display)
    ensures
        display_view()(r) == shown_monitor()(m),
{
    let id = m.name.clone();
    let name = match m.description {
        Some(description) => description,
        None => m.name,
    };
    Display {
        id,
        name,
        width: m.width,
        height: m.height,
        refresh_bits: m.refresh_bits,
        focused: m.focused,
    }
}

/// The monitors in use.
pub fn parse_monitors(monitors: Result<Vec<HyprMonitor>, String>) -> (r: PortResult<Vec<Display>>)
    ensures
        match monitors {
            Ok(monitors) => r is Ok && r->Ok_0@.map_values(display_view()) == monitors@.filter(
                enabled(),
            ).map_values(shown_monitor()),
            Err(detail) => r is Err && r->Err_0@ == unreadable(detail@),
        },
{
    match monitors {
        Ok(monitors) => {
            let used = keep_when(monitors, is_enabled, Ghost(enabled()));
            Ok(map_each::<HyprMonitor, Display, DisplayView, _>(used, monitor_display, Ghost(shown_monitor()), Ghost(display_view())))
        },
        Err(detail) => Err(hyprland_error(detail.as_str())),
    }
}

pub open spec fn id_before() -> spec_fn(HyprWorkspace, HyprWorkspace) -> bool {
    |a: HyprWorkspace, b: HyprWorkspace| a.id < b.id
}

fn is_id_before(a: &HyprWorkspace, b: &HyprWorkspace) -> (r: bool)
    ensures
        r == id_before()(*a, *b),
{
    a.id < b.id
}

pub open spec fn shown_workspace() -> spec_fn(HyprWorkspace) -> WorkspaceView {
    |w: HyprWorkspace|
        WorkspaceView {
            id: WorkspaceId(w.id),
            name: opt_text(w.name),
            monitor: opt_text(w.monitor),
            focused: false,
            windows: w.windows,
        }
}

pub open spec fn workspace_view() -> spec_fn(Workspace) -> WorkspaceView {
    |w: Workspace| w@
}

fn workspace_of(w: HyprWorkspace) -> (r: Workspace)
    ensures
        workspace_view()(r) == shown_workspace()(w),
{
    Workspace {
        id: WorkspaceId(w.id),
        name: w.name,
        monitor: w.monitor,
        focused: false,
        windows: w.windows,
    }
}

/// The workspaces in the order of their numbers.
pub fn parse_workspaces(workspaces: Result<Vec<HyprWorkspace>, String>) -> (r: PortResult<Vec<Workspace>>)
    ensures
        match workspaces {
            Ok(workspaces) => r is Ok && exists|sorted: Seq<HyprWorkspace>| #[trigger]
                stably_sorted(workspaces@, sorted, id_before()) && r->Ok_0@.map_values(workspace_view())
                    == sorted.map_values(shown_workspace()),
            Err(detail) => r is Err && r->Err_0@ == unreadable(detail@),
        },
{
    match workspaces {
        Ok(workspaces) => {
            assert(strict_weak_order(id_before()));
            let sorted = stable_sort(workspaces, is_id_before, Ghost(id_before()));
            assert(stably_sorted(workspaces@, sorted@, id_before()));
            Ok(map_each::<HyprWorkspace, Workspace, WorkspaceView, _>(sorted, workspace_of, Ghost(shown_workspace()), Ghost(workspace_view())))
        },
        Err(detail) => Err(hyprland_error(detail.as_str())),
    }
}

/// A text that is there and not empty.
pub open spec fn filled(text: Option<String>) -> Option<Seq<char>> {
    match text {
        Some(text) => if text@.len() > 0 {
            Some(text@)
        } else {
            None
        },
        None => None,
    }
}

fn non_empty(text: Option<String>) -> (r: Option<String>)
    ensures
        opt_text(r) == filled(text),
{
    match text {
        Some(text) => if text.as_str().is_empty() {
            None
        } else {
            Some(text)
        },
        None => None,
    }
}

pub open spec fn shown_client() -> spec_fn(HyprClient) -> WindowView {
    |c: HyprClient|
        WindowView {
            id: c.address@,
            app_id: filled(c.initial_class),
            class: filled(c.class),
            title: filled(c.title),
            workspace: WorkspaceId(c.workspace_id),
            focused: false,
        }
}

pub open spec fn window_view() -> spec_fn(Window) -> WindowView {
    |w: Window| w@
}

pub fn client_to_window(client: HyprClient) -> (r: Window)
    ensures
        window_view()(r) == shown_client()(client),
{
    Window {
        id: WindowId(client.address),
        app_id: non_empty(client.initial_class),
        class: non_empty(client.class),
        title: non_empty(client.title),
        workspace: WorkspaceId(client.workspace_id),
        focused: false,
    }
}

pub fn parse_windows(clients: Result<Vec<HyprClient>, String>) -> (r: PortResult<Vec<Window>>)
    ensures
        match clients {
            Ok(clients) => r is Ok && r->Ok_0@.map_values(window_view()) == clients@.map_values(
                shown_client(),
            ),
            Err(detail) => r is Err && r->Err_0@ == unreadable(detail@),
        },
{
    match clients {
        Ok(clients) => Ok(
            map_each::<HyprClient, Window, WindowView, _>(clients, client_to_window, Ghost(shown_client()), Ghost(window_view())),
        ),
        Err(detail) => Err(hyprland_error(detail.as_str())),
    }
}

/// Whether an answer says that no window has the focus.
pub open spec fn tells_no_window(answer: Seq<char>) -> bool {
    trimmed(answer).len() == 0 || trimmed(answer) == "{}"@
}

/// The window that has the focus, by the text of the answer and what was read from it.
pub fn parse_active_window(answer: &str, client: Result<HyprClient, String>) -> (r: PortResult<Option<Window>>)
    ensures
        if tells_no_window(answer@) {
            r is Ok && r->Ok_0 is None
        } else {
            match client {
                Err(detail) => r is Err && r->Err_0@ == unreadable(detail@),
                Ok(client) => r is Ok && (if client.address@.len() == 0 {
                    r->Ok_0 is None
                } else {
                    r->Ok_0 is Some && window_view()(r->Ok_0->0) == shown_client()(client)
                }),
            }
        },
{
    let text = trim_text(answer);
    if text.as_str().is_empty() || same_text(text.as_str(), "{}") {
        return Ok(None);
    }
    match client {
        Err(detail) => Err(hyprland_error(detail.as_str())),
        Ok(client) => if client.address.as_str().is_empty() {
            Ok(None)
        } else {
            Ok(Some(client_to_window(client)))
        },
    }
}

pub open spec fn focused_display() -> spec_fn(Display) -> bool {
    |d: Display| d.focused
}

/// The monitor with the focus, else the first.
pub fn active_display(displays: &[Display]) -> (r: Option<&Display>)
    ensures
        r == (match crate::seqs::first_where(displays@, focused_display()) {
            Some(d) => Some(&d),
            None => if displays@.len() > 0 {
                Some(&displays@[0])
            } else {
                None
            },
        }),
{
    let mut i: usize = 0;
    while i < displays.len()
        invariant
            i <= displays@.len(),
            forall|k: int| 0 <= k < i ==> !focused_display()(#[trigger] displays@[k]),
        decreases displays@.len() - i,
    {
        if displays[i].focused {
            proof {
                crate::seqs::lemma_first_where_at(displays@, focused_display(), i as int);
            }
            return Some(&displays[i]);
        }
        i += 1;
    }
    proof {
        crate::seqs::lemma_first_where_none(displays@, focused_display());
    }
    if displays.len() > 0 {
        Some(&displays[0])
    } else {
        None
    }
}

/// A call of `hyprctl`.
pub open spec fn is_hyprctl(spec: CommandSpec, args: Seq<Seq<char>>) -> bool {
    &&& spec.program@ == "hyprctl"@
    &&& texts(spec.args@) == args
    &&& spec.has_default_limits()
    &&& spec.environment_policy == EnvironmentPolicy::Session
}

fn hyprctl(args: Vec<String>) -> (r: CommandSpec)
    ensures
        is_hyprctl(r, texts(args@)),
{
    CommandSpec::new("hyprctl".to_owned(), args)
}

/// A question to the compositor.
pub fn query_spec(resource: &str) -> (r: CommandSpec)
    ensures
        is_hyprctl(r, seq![resource@, "-j"@]),
{
    let mut args: Vec<String> = Vec::new();
    args.push(resource.to_owned());
    args.push("-j".to_owned());
    assert(texts(args@) =~= seq![resource@, "-j"@]);
    hyprctl(args)
}

fn dispatch_spec(name: &str, selector: String) -> (r: CommandSpec)
    ensures
        is_hyprctl(r, seq!["dispatch"@, name@, selector@]),
{
    let mut args: Vec<String> = Vec::new();
    args.push("dispatch".to_owned());
    args.push(name.to_owned());
    args.push(selector);
    assert(texts(args@) =~= seq!["dispatch"@, name@, selector@]);
    hyprctl(args)
}

/// What a failed instruction is reported as.
pub fn dispatch_failure(error: PortError) -> (r: PortError)
    ensures
        r@ == port_error("HYPRLAND_DISPATCH_FAILED"@, error@.message, error@.retryable),
{
    PortError::new("HYPRLAND_DISPATCH_FAILED", error.message, error.retryable)
}

/// How a workspace is named to the compositor.
pub open spec fn workspace_selector(target: WorkspaceTargetView) -> Result<Seq<char>, PortErrorView> {
    match target {
        WorkspaceTargetView::Id(id) => Ok(signed(id.0 as int)),
        WorkspaceTargetView::Name(name) => if crate::agent::valid_workspace_name(name) {
            Ok("name:"@ + name)
        } else {
            Err(
                port_error(
                    "WORKSPACE_NOT_FOUND"@,
                    "workspace name is not a safe selector"@,
                    false,
                ),
            )
        },
    }
}

fn is_not_whitespace(c: char) -> (r: bool)
    ensures
        r == !whitespace(c),
{
    !is_whitespace(c)
}

pub fn focus_workspace_spec(target: &WorkspaceTarget) -> (r: PortResult<CommandSpec>)
    ensures
        match workspace_selector(target@) {
            Ok(selector) => r is Ok && is_hyprctl(r->Ok_0, seq!["dispatch"@, "workspace"@, selector]),
            Err(error) => r is Err && r->Err_0@ == error,
        },
{
    match target {
        WorkspaceTarget::Id(id) => {
            let mut selector = String::new();
            push_signed(&mut selector, id.0);
            assert(selector@ =~= signed(id.0 as int));
            Ok(dispatch_spec("workspace", selector))
        },
        WorkspaceTarget::Name(name) => {
            if name.as_str().is_empty() || !every_char(
                name.as_str(),
                is_not_whitespace,
                Ghost(|c: char| !whitespace(c)),
            ) {
                return Err(
                    PortError::plain(
                        "WORKSPACE_NOT_FOUND",
                        "workspace name is not a safe selector",
                        false,
                    ),
                );
            }
            Ok(dispatch_spec("workspace", "name:".to_owned().concat(name.as_str())))
        },
    }
}

pub fn is_window_handle(value: &str) -> (r: bool)
    ensures
        r == hex_handle(value@),
{
    match crate::scan::strip_start(value, "0x") {
        Some(hex) => !hex.as_str().is_empty() && every_char(
            hex.as_str(),
            crate::strings::is_hex_digit,
            Ghost(|c: char| crate::strings::hex_digit(c)),
        ),
        None => false,
    }
}

/// A window handle: hexadecimal digits after the mark of a hexadecimal number.
pub open spec fn hex_handle(value: Seq<char>) -> bool {
    match crate::scan::after_start(value, "0x"@) {
        Some(hex) => hex.len() > 0 && forall|i: int|
            0 <= i < hex.len() ==> crate::strings::hex_digit(#[trigger] hex[i]),
        None => false,
    }
}

pub fn focus_window_spec(id: &str) -> (r: PortResult<CommandSpec>)
    ensures
        if hex_handle(id@) {
            r is Ok && is_hyprctl(r->Ok_0, seq!["dispatch"@, "focuswindow"@, "address:"@ + id@])
        } else {
            r is Err && r->Err_0@ == port_error(
                "WINDOW_NOT_FOUND"@,
                "window handle is not a valid Hyprland address"@,
                false,
            )
        },
{
    if !is_window_handle(id) {
        return Err(
            PortError::plain(
                "WINDOW_NOT_FOUND",
                "window handle is not a valid Hyprland address",
                false,
            ),
        );
    }
    Ok(dispatch_spec("focuswindow", "address:".to_owned().concat(id)))
}

/// What a compositor that could not be called is reported as.
pub fn hyprland_failure(error: PortError) -> (r: PortError)
    ensures
        r@ == port_error("HYPRLAND_UNAVAILABLE"@, error@.message, error@.retryable),
{
    PortError::new("HYPRLAND_UNAVAILABLE", error.message, error.retryable)
}

/// The compositor tells in its output that a window was not found.
pub fn hyprland_output(stdout: &str, stderr: &str) -> (r: PortResult<()>)
    ensures
        ({
            let all = stdout@ + "\n"@ + stderr@;
            if holds_text(all, "not found"@) {
                r is Err && r->Err_0@ == port_error(
                    "HYPRLAND_TARGET_MISSING"@,
                    "Hyprland reported: "@ + trimmed(all),
                    false,
                )
            } else {
                r == Ok::<(), PortError>(())
            }
        }),
{
    let all = stdout.to_owned().concat("\n").concat(stderr);
    if contains_text(all.as_str(), "not found") {
        return Err(
            PortError::new(
                "HYPRLAND_TARGET_MISSING",
                "Hyprland reported: ".to_owned().concat(trim_text(all.as_str()).as_str()),
                false,
            ),
        );
    }
    Ok(())
}

/// The text that a JSON object gives for a key, as `serde_json` reads it: `None` where the value is
/// no object, or has no such key, or another kind of value there; the error where the bytes are no
/// JSON.
pub uninterp spec fn json_text(bytes: Seq<u8>, key: Seq<char>) -> Result<Option<Seq<char>>, Seq<char>>;

pub open spec fn json_result(r: Result<Option<String>, String>) -> Result<Option<Seq<char>>, Seq<char>> {
    match r {
        Ok(text) => Ok(opt_text(text)),
        Err(detail) => Err(detail@),
    }
}

/// `serde_json::from_slice` into a `serde_json::Value`, then `Value::get` and `Value::as_str`; an
/// error of the first is given as its text. The outcome is named by the bytes and the key: reading
/// the same bytes twice gives the same.
#[verifier::external_body]
fn read_json_text(bytes: &[u8], key: &str) -> (r: Result<Option<String>, String>)
    ensures
        json_result(r) == json_text(bytes@, key@),
{
    let value: serde_json::Value = serde_json::from_slice(bytes).map_err(|error| error.to_string())?;
    Ok(value.get(key).and_then(serde_json::Value::as_str).map(str::to_owned))
}

/// The address of the window with the focus, by what was read of the answer.
pub open spec fn address_of(read: Result<Option<Seq<char>>, Seq<char>>) -> Result<Seq<char>, PortErrorView> {
    match read {
        Err(detail) => Err(
            port_error(
                "HYPRLAND_UNAVAILABLE"@,
                "unable to parse active window: "@ + detail,
                false,
            ),
        ),
        Ok(Some(address)) => if hex_handle(address) {
            Ok(address)
        } else {
            Err(no_active_window())
        },
        Ok(None) => Err(no_active_window()),
    }
}

pub open spec fn no_active_window() -> PortErrorView {
    port_error("HYPRLAND_TARGET_MISSING"@, "Hyprland has no valid active window"@, false)
}

pub open spec fn text_outcome(r: PortResult<String>) -> Result<Seq<char>, PortErrorView> {
    match r {
        Ok(text) => Ok(text@),
        Err(error) => Err(error@),
    }
}

/// Takes an address only where it is one.
pub fn checked_address(read: Result<Option<String>, String>) -> (r: PortResult<String>)
    ensures
        text_outcome(r) == address_of(json_result(read)),
{
    match read {
        Err(detail) => Err(
            PortError::new(
                "HYPRLAND_UNAVAILABLE",
                "unable to parse active window: ".to_owned().concat(detail.as_str()),
                false,
            ),
        ),
        Ok(Some(address)) => if is_window_handle(address.as_str()) {
            Ok(address)
        } else {
            Err(
                PortError::plain(
                    "HYPRLAND_TARGET_MISSING",
                    "Hyprland has no valid active window",
                    false,
                ),
            )
        },
        Ok(None) => Err(
            PortError::plain("HYPRLAND_TARGET_MISSING", "Hyprland has no valid active window", false),
        ),
    }
}

pub fn active_window_address(output: &[u8]) -> (r: PortResult<String>)
    ensures
        text_outcome(r) == address_of(json_text(output@, "address"@)),
{
    checked_address(read_json_text(output, "address"))
}

/// How a command is carried out.
#[derive(Debug, PartialEq, Eq)]
pub enum CommandPlan {
    /// The compositor is asked for the window with the focus; then `shortcut_after_query`.
    Query(CommandSpec),
    /// One call does it.
    Run(CommandSpec),
}

pub open spec fn not_executable() -> PortErrorView {
    port_error("COMMAND_NOT_EXECUTABLE"@, "command is not an action"@, false)
}

/// Whether a plan is the one for a command.
pub open spec fn is_plan(plan: CommandPlan, command: RemoteCommandView) -> bool {
    match command {
        RemoteCommandView::SendShortcut { chord, window } => if window is ActiveWindow {
            plan matches CommandPlan::Run(spec) && is_eval(spec, shortcut_lua(chord, window, None))
        } else {
            plan matches CommandPlan::Query(spec) && is_hyprctl(spec, seq!["activewindow"@, "-j"@])
        },
        RemoteCommandView::CloseWindow { window } => plan matches CommandPlan::Run(spec) && is_hyprctl(
            spec,
            seq!["--batch"@, batch(seq![close_window(window)])],
        ),
        _ => false,
    }
}

fn eval_spec(lua: String) -> (r: CommandSpec)
    ensures
        is_eval(r, lua@),
{
    let mut args: Vec<String> = Vec::new();
    args.push("eval".to_owned());
    args.push(lua);
    assert(texts(args@) =~= seq!["eval"@, lua@]);
    hyprctl(args)
}

/// Plans a command: it must be valid, and one that acts on a window.
pub fn plan_command(command: &RemoteCommand) -> (r: PortResult<CommandPlan>)
    ensures
        match command@.validated() {
            Err(error) => r is Err && r->Err_0@ == port_error(
                "INVALID_COMMAND"@,
                error.spec_message(),
                false,
            ),
            Ok(_) => if command@ is SendShortcut || command@ is CloseWindow {
                r is Ok && is_plan(r->Ok_0, command@)
            } else {
                r is Err && r->Err_0@ == not_executable()
            },
        },
{
    match command.validate() {
        Ok(()) => {},
        Err(error) => {
            return Err(PortError::plain("INVALID_COMMAND", error.message(), false));
        },
    }
    match command {
        RemoteCommand::SendShortcut { chord, window } => match window {
            WindowSelector::ActiveWindow => Ok(
                CommandPlan::Run(eval_spec(timed_shortcut_lua(chord, window, None))),
            ),
            _ => Ok(CommandPlan::Query(query_spec("activewindow"))),
        },
        RemoteCommand::CloseWindow { window } => {
            let empty: Vec<crate::domain::KeyModifier> = Vec::new();
            match command_actions(command, empty.as_slice()) {
                Some(actions) => {
                    let argument = hyprctl_batch_argument(actions.as_slice());
                    let mut args: Vec<String> = Vec::new();
                    args.push("--batch".to_owned());
                    args.push(argument);
                    assert(texts(args@) =~= seq!["--batch"@, argument@]);
                    Ok(CommandPlan::Run(hyprctl(args)))
                },
                None => Err(
                    PortError::plain("COMMAND_NOT_EXECUTABLE", "command is not an action", false),
                ),
            }
        },
        _ => Err(PortError::plain("COMMAND_NOT_EXECUTABLE", "command is not an action", false)),
    }
}

/// The call that sends a shortcut to a window and gives the focus back, by what the compositor told
/// of the window that has it. No key goes out where that is no window.
pub fn shortcut_after_query(chord: &KeyChord, window: &WindowSelector, focused: PortResult<String>) -> (r: PortResult<
    CommandSpec,
>)
    ensures
        match focused {
            Ok(address) => r is Ok && is_eval(r->Ok_0, shortcut_lua(chord@, window@, Some(address@))),
            Err(error) => r is Err && r->Err_0@ == error@,
        },
{
    match focused {
        Ok(address) => Ok(eval_spec(timed_shortcut_lua(chord, window, Some(address.as_str())))),
        Err(error) => Err(error),
    }
}

/// The monitors are those that are in use, in the order of the answer; each is known by its name and
/// shown under its description, where it has one.
pub proof fn law_monitors_in_use_are_listed(
    monitors: Vec<HyprMonitor>,
    r: PortResult<Vec<Display>>,
    name: Seq<char>,
)
    requires
        call_ensures(parse_monitors, (Ok::<Vec<HyprMonitor>, String>(monitors),), r),
    ensures
        r is Ok,
        (exists|i: int| 0 <= i < r->Ok_0@.len() && (#[trigger] r->Ok_0@[i]).id@ == name) <==> exists|j: int|
            0 <= j < monitors@.len() && (#[trigger] monitors@[j]).name@ == name && !monitors@[j].disabled,
        forall|i: int|
            0 <= i < r->Ok_0@.len() ==> is_display_of_one(#[trigger] r->Ok_0@[i], monitors@),
{
    let p = enabled();
    let used = monitors@.filter(p);
    let shown = r->Ok_0@;
    let a = shown.map_values(display_view());
    let b = used.map_values(shown_monitor());
    assert(a.len() == b.len());
    let places = crate::seqs::lemma_filter_places(monitors@, p);
    assert forall|i: int| 0 <= i < shown.len() implies is_display_of_one(#[trigger] shown[i], monitors@) by {
        assert(a[i] == b[i]);
        assert(a[i] == shown[i]@);
        monitors@.lemma_filter_pred(p, i);
        assert(display_of(shown[i], monitors@[places[i]]));
    }
    if exists|i: int| 0 <= i < shown.len() && (#[trigger] shown[i]).id@ == name {
        let i = choose|i: int| 0 <= i < shown.len() && (#[trigger] shown[i]).id@ == name;
        assert(is_display_of_one(shown[i], monitors@));
        let j = choose|j: int| 0 <= j < monitors@.len() && display_of(shown[i], #[trigger] monitors@[j]);
        assert(monitors@[j].name@ == name);
    }
    if exists|j: int| 0 <= j < monitors@.len() && (#[trigger] monitors@[j]).name@ == name && !monitors@[j].disabled {
        let j = choose|j: int|
            0 <= j < monitors@.len() && (#[trigger] monitors@[j]).name@ == name && !monitors@[j].disabled;
        monitors@.lemma_filter_contains(p, j);
        let k = choose|k: int| 0 <= k < used.len() && used[k] == monitors@[j];
        assert(a[k] == b[k]);
        assert(a[k] == shown[k]@);
        assert(shown[k].id@ == name);
    }
}

/// Whether a display is what is shown of a monitor that is in use.
pub open spec fn display_of(display: Display, monitor: HyprMonitor) -> bool {
    &&& !monitor.disabled
    &&& display.id@ == monitor.name@
    &&& monitor.description matches Some(text) ==> display.name@ == text@
    &&& monitor.description is None ==> display.name@ == monitor.name@
    &&& display.width == monitor.width
    &&& display.height == monitor.height
    &&& display.refresh_bits == monitor.refresh_bits
    &&& display.focused == monitor.focused
}

pub open spec fn is_display_of_one(display: Display, monitors: Seq<HyprMonitor>) -> bool {
    exists|j: int| 0 <= j < monitors.len() && display_of(display, #[trigger] monitors[j])
}

/// The workspaces come in the order of their numbers, with their names, monitors and windows.
pub proof fn law_workspaces_are_in_order(workspaces: Vec<HyprWorkspace>, r: PortResult<Vec<Workspace>>)
    requires
        call_ensures(parse_workspaces, (Ok::<Vec<HyprWorkspace>, String>(workspaces),), r),
    ensures
        r is Ok,
        r->Ok_0@.len() == workspaces@.len(),
        forall|i: int, j: int|
            0 <= i < j < r->Ok_0@.len() ==> (#[trigger] r->Ok_0@[i]).id.0 <= (#[trigger] r->Ok_0@[j]).id.0,
        forall|i: int| 0 <= i < r->Ok_0@.len() ==> !(#[trigger] r->Ok_0@[i]).focused,
{
    let shown = r->Ok_0@;
    let sorted = choose|sorted: Seq<HyprWorkspace>| #[trigger]
        stably_sorted(workspaces@, sorted, id_before()) && shown.map_values(workspace_view())
            == sorted.map_values(shown_workspace());
    let a = shown.map_values(workspace_view());
    let b = sorted.map_values(shown_workspace());
    assert(a.len() == b.len());
    assert(sorted.len() == workspaces@.len()) by {
        broadcast use vstd::seq_lib::group_to_multiset_ensures;

        assert(sorted.to_multiset().len() == workspaces@.to_multiset().len());
    }
    let before = id_before();
    assert forall|i: int, j: int| 0 <= i < j < shown.len() implies (#[trigger] shown[i]).id.0 <= (
    #[trigger] shown[j]).id.0 by {
        assert(a[i] == b[i] && a[j] == b[j]);
        assert(a[i] == shown[i]@ && a[j] == shown[j]@);
        assert(!before(sorted[j], sorted[i]));
    }
    assert forall|i: int| 0 <= i < shown.len() implies !(#[trigger] shown[i]).focused by {
        assert(a[i] == b[i]);
        assert(a[i] == shown[i]@);
    }
}

/// A window is known by its address; texts that are empty are not there.
pub proof fn law_a_window_is_known_by_its_address(client: HyprClient, r: Window)
    requires
        call_ensures(client_to_window, (client,), r),
    ensures
        r.id@ == client.address@,
        r.workspace.0 == client.workspace_id,
        !r.focused,
        r.class is Some <==> (client.class matches Some(text) && text@.len() > 0),
        r.class matches Some(class) ==> client.class->0@ == class@,
        r.app_id is Some <==> (client.initial_class matches Some(text) && text@.len() > 0),
        r.app_id matches Some(id) ==> client.initial_class->0@ == id@,
        r.title is Some <==> (client.title matches Some(text) && text@.len() > 0),
        r.title matches Some(title) ==> client.title->0@ == title@,
{
    assert(window_view()(r) == r@);
    assert(r@.class == opt_text(r.class));
    assert(r@.app_id == opt_text(r.app_id));
    assert(r@.title == opt_text(r.title));
    assert(r@.id == r.id@);
    assert(r@.workspace == r.workspace);
    assert(r@.focused == r.focused);
}

/// Every window of the answer is listed, in its place.
pub proof fn law_every_window_is_listed(clients: Vec<HyprClient>, r: PortResult<Vec<Window>>, i: int)
    requires
        call_ensures(parse_windows, (Ok::<Vec<HyprClient>, String>(clients),), r),
        0 <= i < clients@.len(),
    ensures
        r matches Ok(windows) && windows@.len() == clients@.len() && windows@[i].id@
            == clients@[i].address@ && windows@[i].workspace.0 == clients@[i].workspace_id,
{
    let windows = r->Ok_0;
    let a = windows@.map_values(window_view());
    let b = clients@.map_values(shown_client());
    assert(a.len() == b.len());
    assert(a[i] == b[i]);
    assert(a[i] == windows@[i]@);
}

/// An answer that cannot be read is an error that names the detail, whatever was asked.
pub proof fn law_unreadable_answers_are_errors(
    detail: String,
    monitors: PortResult<Vec<Display>>,
    workspaces: PortResult<Vec<Workspace>>,
    windows: PortResult<Vec<Window>>,
)
    requires
        call_ensures(parse_monitors, (Err::<Vec<HyprMonitor>, String>(detail),), monitors),
        call_ensures(parse_workspaces, (Err::<Vec<HyprWorkspace>, String>(detail),), workspaces),
        call_ensures(parse_windows, (Err::<Vec<HyprClient>, String>(detail),), windows),
    ensures
        monitors matches Err(error) && error.code@ == "HYPRLAND_UNAVAILABLE"@ && error.message@
            == "unable to parse Hyprland output: "@ + detail@ && !error.retryable,
        workspaces matches Err(error) && error.code@ == "HYPRLAND_UNAVAILABLE"@,
        windows matches Err(error) && error.code@ == "HYPRLAND_UNAVAILABLE"@,
{
    let a = monitors->Err_0;
    assert(a@.code == a.code@ && a@.message == a.message@ && a@.retryable == a.retryable);
    let b = workspaces->Err_0;
    assert(b@.code == b.code@);
    let c = windows->Err_0;
    assert(c@.code == c.code@);
}

/// No window has the focus where the answer is blank, an empty object, or without an address; else it
/// is the one that was read.
pub proof fn law_the_focused_window_is_the_one_that_was_read(
    answer: &str,
    client: Result<HyprClient, String>,
    r: PortResult<Option<Window>>,
)
    requires
        call_ensures(parse_active_window, (answer, client), r),
    ensures
        trimmed(answer@).len() == 0 || trimmed(answer@) == "{}"@ ==> r matches Ok(None),
        trimmed(answer@).len() > 0 && trimmed(answer@) != "{}"@ ==> match client {
            Err(_) => r matches Err(error) && error.code@ == "HYPRLAND_UNAVAILABLE"@,
            Ok(client) => if client.address@.len() == 0 {
                r matches Ok(None)
            } else {
                r matches Ok(Some(window)) && window.id@ == client.address@
            },
        },
{
    if let Err(error) = r {
        assert(error@.code == error.code@);
    }
    if let Ok(Some(window)) = r {
        assert(window_view()(window) == window@);
        assert(window@.id == window.id@);
    }
}

/// The display that has the focus is used, else the first.
pub proof fn law_the_focused_display_is_used<'a>(
    displays: &'a [Display],
    i: int,
    r: Option<&'a Display>,
)
    requires
        call_ensures(active_display, (displays,), r),
        0 <= i <= displays@.len(),
        forall|k: int| 0 <= k < i ==> !(#[trigger] displays@[k]).focused,
    ensures
        i < displays@.len() && displays@[i].focused ==> r == Some(&displays@[i]),
        i == displays@.len() && i > 0 ==> r == Some(&displays@[0]),
        displays@.len() == 0 ==> r is None,
{
    if i < displays@.len() && displays@[i].focused {
        crate::seqs::lemma_first_where_at(displays@, focused_display(), i);
    }
    if i == displays@.len() {
        crate::seqs::lemma_first_where_none(displays@, focused_display());
    }
}

/// A workspace is focused by its number, or by its name where that is not empty and holds no white
/// space; any other name is not found.
pub proof fn law_a_workspace_is_focused_by_number_or_name(
    target: WorkspaceTarget,
    r: PortResult<CommandSpec>,
)
    requires
        call_ensures(focus_workspace_spec, (&target,), r),
    ensures
        target matches WorkspaceTarget::Id(id) ==> (r matches Ok(spec) && spec.program@ == "hyprctl"@
            && texts(spec.args@) == seq!["dispatch"@, "workspace"@, signed(id.0 as int)]),
        target matches WorkspaceTarget::Name(name) ==> {
            &&& r is Ok <==> name@.len() > 0 && forall|i: int|
                0 <= i < name@.len() ==> !whitespace(#[trigger] name@[i])
            &&& r matches Ok(spec) ==> spec.program@ == "hyprctl"@ && texts(spec.args@) == seq![
                "dispatch"@,
                "workspace"@,
                "name:"@ + name@,
            ]
        },
        r matches Err(error) ==> error.code@ == "WORKSPACE_NOT_FOUND"@ && !error.retryable,
{
    if let Err(error) = r {
        assert(error@.code == error.code@);
        assert(error@.retryable == error.retryable);
    }
}

/// A window is focused by its address, which is `0x` and hexadecimal digits.
pub proof fn law_a_window_is_focused_by_its_address(id: &str, valid: bool, r: PortResult<CommandSpec>)
    requires
        call_ensures(focus_window_spec, (id,), r),
        call_ensures(is_window_handle, (id,), valid),
    ensures
        r is Ok <==> valid,
        valid <==> id@.len() > 2 && id@[0] == '0' && id@[1] == 'x' && forall|i: int|
            2 <= i < id@.len() ==> {
                let c = #[trigger] id@[i];
                ('0' <= c <= '9') || ('a' <= c <= 'f') || ('A' <= c <= 'F')
            },
        r matches Ok(spec) ==> spec.program@ == "hyprctl"@ && texts(spec.args@) == seq![
            "dispatch"@,
            "focuswindow"@,
            "address:"@ + id@,
        ],
        r matches Err(error) ==> error.code@ == "WINDOW_NOT_FOUND"@ && !error.retryable,
{
    if let Err(error) = r {
        assert(error@.code == error.code@);
        assert(error@.retryable == error.retryable);
    }
    reveal_strlit("0x");
    let start = "0x"@;
    assert(start.len() == 2 && start[0] == '0' && start[1] == 'x');
    if id@.len() >= 2 {
        assert(id@.take(2)[0] == id@[0] && id@.take(2)[1] == id@[1]);
        if id@[0] == '0' && id@[1] == 'x' {
            assert(id@.take(2) =~= start);
        }
        let hex = id@.skip(2);
        assert(forall|i: int| 0 <= i < hex.len() ==> #[trigger] hex[i] == id@[i + 2]);
        assert(forall|i: int| 2 <= i < id@.len() ==> #[trigger] id@[i] == hex[i - 2]);
    }
}

/// The compositor is asked in JSON.
pub proof fn law_the_compositor_is_asked_in_json(resource: &str, r: CommandSpec)
    requires
        call_ensures(query_spec, (resource,), r),
    ensures
        r.program@ == "hyprctl"@,
        texts(r.args@) == seq![resource@, "-j"@],
{
}

/// A target that the compositor does not find is an error, in whichever of its outputs it says so;
/// anything else is success.
pub proof fn law_the_compositor_says_what_it_does_not_find(
    stdout: &str,
    stderr: &str,
    r: PortResult<()>,
)
    requires
        call_ensures(hyprland_output, (stdout, stderr), r),
    ensures
        holds_text(stdout@, "not found"@) || holds_text(stderr@, "not found"@) ==> r is Err,
        r matches Err(error) ==> error.code@ == "HYPRLAND_TARGET_MISSING"@ && !error.retryable,
        r is Err <==> holds_text(stdout@ + "\n"@ + stderr@, "not found"@),
{
    let all = stdout@ + "\n"@ + stderr@;
    let wanted = "not found"@;
    if holds_text(stdout@, wanted) {
        let i = choose|i: int| crate::scan::stands_at(stdout@, wanted, i);
        assert(all.subrange(i, i + wanted.len()) =~= stdout@.subrange(i, i + wanted.len()));
        assert(crate::scan::stands_at(all, wanted, i));
    }
    if holds_text(stderr@, wanted) {
        let i = choose|i: int| crate::scan::stands_at(stderr@, wanted, i);
        let at = stdout@.len() + "\n"@.len() + i;
        assert(all.subrange(at, at + wanted.len()) =~= stderr@.subrange(i, i + wanted.len()));
        assert(crate::scan::stands_at(all, wanted, at));
    }
    if let Err(error) = r {
        assert(error@.code == error.code@);
        assert(error@.retryable == error.retryable);
    }
}

/// An address is taken exactly where it was read and is one.
pub proof fn law_only_an_address_is_taken(
    read: Result<Option<String>, String>,
    valid: bool,
    r: PortResult<String>,
)
    requires
        call_ensures(checked_address, (read,), r),
        read matches Ok(Some(address)) ==> valid == hex_handle(address@),
    ensures
        r is Ok <==> (read matches Ok(Some(_)) && valid),
        r matches Ok(address) ==> read->Ok_0->0@ == address@,
        read is Err ==> (r matches Err(error) && error.code@ == "HYPRLAND_UNAVAILABLE"@),
        read is Ok && r is Err ==> r->Err_0.code@ == "HYPRLAND_TARGET_MISSING"@,
{
    assert(text_outcome(r) is Ok <==> r is Ok);
    if let Err(error) = r {
        assert(text_outcome(r)->Err_0 == error@);
        assert(error@.code == error.code@);
    }
}

/// A failure of the compositor is reported as its own, with the detail and the advice that came.
pub proof fn law_failures_of_the_compositor_keep_their_detail(
    error: PortError,
    dispatch: PortError,
    other: PortError,
    r: PortError,
)
    requires
        call_ensures(dispatch_failure, (error,), dispatch),
        call_ensures(hyprland_failure, (other,), r),
    ensures
        dispatch.code@ == "HYPRLAND_DISPATCH_FAILED"@ && dispatch.message@ == error.message@
            && dispatch.retryable == error.retryable,
        r.code@ == "HYPRLAND_UNAVAILABLE"@ && r.message@ == other.message@ && r.retryable
            == other.retryable,
{
    assert(dispatch@.code == dispatch.code@ && dispatch@.message == dispatch.message@
        && dispatch@.retryable == dispatch.retryable);
    assert(r@.code == r.code@ && r@.message == r.message@ && r@.retryable == r.retryable);
}

/// A command is carried out only where it is valid and acts on a window. To send a shortcut to another
/// window than the active one, the one that has the focus is asked for first; closing needs no
/// question.
pub proof fn law_only_actions_on_windows_are_carried_out(
    command: RemoteCommand,
    valid: Result<(), crate::domain::DomainError>,
    r: PortResult<CommandPlan>,
)
    requires
        call_ensures(plan_command, (&command,), r),
        call_ensures(RemoteCommand::validate, (&command,), valid),
    ensures
        r is Ok <==> valid is Ok && (command is SendShortcut || command is CloseWindow),
        valid is Err ==> r->Err_0.code@ == "INVALID_COMMAND"@,
        valid is Ok && !(command is SendShortcut || command is CloseWindow) ==> r->Err_0.code@
            == "COMMAND_NOT_EXECUTABLE"@,
        (r is Ok && command is CloseWindow) ==> r->Ok_0 is Run,
        r is Ok ==> (command matches RemoteCommand::SendShortcut { chord, window } ==> {
            &&& r->Ok_0 is Query <==> window !is ActiveWindow
            &&& r->Ok_0 matches CommandPlan::Query(spec) ==> spec.program@ == "hyprctl"@ && texts(
                spec.args@,
            ) == seq!["activewindow"@, "-j"@]
        }),
{
    if let Err(error) = r {
        assert(error@.code == error.code@);
    }
}

/// A shortcut goes out only where the window that has the focus is known, so that the focus can be
/// given back to it.
pub proof fn law_no_key_goes_out_without_the_focus(
    chord: KeyChord,
    window: WindowSelector,
    focused: PortResult<String>,
    r: PortResult<CommandSpec>,
)
    requires
        call_ensures(shortcut_after_query, (&chord, &window, focused), r),
    ensures
        r is Ok <==> focused is Ok,
        focused matches Err(error) ==> (r matches Err(told) && told@ == error@),
        r matches Ok(spec) ==> spec.program@ == "hyprctl"@ && spec.args@.len() == 2 && spec.args@[0]@
            == "eval"@ && spec.args@[1]@ == shortcut_lua(chord@, window@, Some(focused->Ok_0@)),
{
    if let Ok(spec) = r {
        let args = texts(spec.args@);
        assert(args.len() == spec.args@.len());
        assert(args[0] == spec.args@[0]@ && args[1] == spec.args@[1]@);
    }
}

/// An answer of the compositor that cannot be read is told with its detail.
pub proof fn law_unreadable_answers_keep_their_detail(detail: &str, r: PortError)
    requires
        call_ensures(hyprland_error, (detail,), r),
    ensures
        r@.code == "HYPRLAND_UNAVAILABLE"@,
        r@.message == "unable to parse Hyprland output: "@ + detail@,
        !r@.retryable,
{
}

} // verus!
