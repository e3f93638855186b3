//! The checks that tell whether this computer is set up.
use vstd::prelude::*;
use vstd::string::*;

use crate::config::{join_path, path_below};
use crate::discovery::{blocker_message, blocker_text, DiscoveredNode, DiscoveredNodeView};
use crate::domain::{joined, NodeBlockerView, NodeStatus};
use crate::ports::AllowedController;
use crate::protocol::{HealthResponse, PROTOCOL};
use crate::readiness::{compatible_agent, ensure_compatible_agent};
use crate::release::{is_compatible_release, RELEASE};
use crate::scan::{rsplit_once, split_last};
use crate::screen::join_texts;
use crate::strings::{
    chars_of, decimal, decimal_text, opt_text, push_decimal, same_text, text_between, texts,
};
use crate::systemd::AGENT_UNIT;

verus! {

#[derive(Clone, Copy, Debug, PartialEq, Eq, Structural)]
pub enum Status {
    Pass,
    Warn,
    Fail,
}

pub open spec fn status_text(status: Status) -> Seq<char> {
    match status {
        Status::Pass => "PASS"@,
        Status::Warn => "WARN"@,
        Status::Fail => "FAIL"@,
    }
}

impl Status {
    pub fn as_str(self) -> (r: &'static str)
        ensures
            r@ == status_text(self),
    {
        match self {
            Status::Pass => "PASS",
            Status::Warn => "WARN",
            Status::Fail => "FAIL",
        }
    }
}

/// The outcome of a check.
#[derive(Debug, PartialEq, Eq)]
pub struct Check {
    pub status: Status,
    pub message: String,
}

pub struct CheckView {
    pub status: Status,
    pub message: Seq<char>,
}

impl View for Check {
    type V = CheckView;

    open spec fn view(&self) -> CheckView {
        CheckView { status: self.status, message: self.message@ }
    }
}

pub open spec fn check(status: Status, message: Seq<char>) -> CheckView {
    CheckView { status, message }
}

impl Check {
    pub fn pass(message: String) -> (r: Check)
        ensures
            r@ == check(Status::Pass, message@),
    {
        Check { status: Status::Pass, message }
    }

    pub fn warn(message: String) -> (r: Check)
        ensures
            r@ == check(Status::Warn, message@),
    {
        Check { status: Status::Warn, message }
    }

    pub fn fail(message: String) -> (r: Check)
        ensures
            r@ == check(Status::Fail, message@),
    {
        Check { status: Status::Fail, message }
    }

    /// Of something that is there, or failed with that error.
    pub fn from_result(error: Option<&str>) -> (r: Check)
        ensures
            r@ == (match error {
                None => check(Status::Pass, "available"@),
                Some(error) => check(Status::Fail, error@),
            }),
    {
        match error {
            None => Check::pass("available".to_owned()),
            Some(error) => Check::fail(error.to_owned()),
        }
    }
}

/// Whether Sunshine can be paired: by whether its credentials are there, or could not be asked for.
pub fn sunshine_pairing_check(credentials: Result<bool, ()>) -> (r: Check)
    ensures
        r@ == (match credentials {
            Ok(true) => check(Status::Pass, "Sunshine admin credentials configured on this host"@),
            Ok(false) => check(
                Status::Warn,
                "Sunshine admin credentials missing; run `omdesky setup` on this host to enable pairing"@,
            ),
            Err(_) => check(
                Status::Fail,
                "The desktop Secret Service is unavailable or locked"@,
            ),
        }),
{
    match credentials {
        Ok(stored) => if stored {
            Check::pass("Sunshine admin credentials configured on this host".to_owned())
        } else {
            Check::warn(
                "Sunshine admin credentials missing; run `omdesky setup` on this host to enable pairing".to_owned(),
            )
        },
        Err(_) => Check::fail("The desktop Secret Service is unavailable or locked".to_owned()),
    }
}

pub open spec fn agent_status(health: Option<HealthResponse>, port: u16) -> CheckView {
    match health {
        None => check(
            Status::Fail,
            "omdesky-agent is not reachable on port "@ + decimal(port as nat)
                + "; run `systemctl --user start "@ + AGENT_UNIT@ + "`"@,
        ),
        Some(health) => if compatible_agent(health) {
            check(Status::Pass, "omdesky-agent "@ + health.agent_version@ + " is running"@)
        } else {
            check(
                Status::Fail,
                "omdesky-agent ("@ + health.agent_version@ + ", protocol "@ + decimal(
                    health.protocol as nat,
                ) + ") does not match this command ("@ + RELEASE@ + ", protocol "@ + decimal(
                    PROTOCOL as nat,
                ) + "); restart it with `systemctl --user restart "@ + AGENT_UNIT@ + "`"@,
            )
        },
    }
}

pub open spec fn opt_health(health: Option<&HealthResponse>) -> Option<HealthResponse> {
    match health {
        Some(health) => Some(*health),
        None => None,
    }
}

pub fn agent_check(health: Option<&HealthResponse>, port: u16) -> (r: Check)
    ensures
        r@ == agent_status(opt_health(health), port),
{
    match health {
        None => {
            let mut message = "omdesky-agent is not reachable on port ".to_owned();
            push_decimal(&mut message, port as u64);
            Check::fail(message.concat("; run `systemctl --user start ").concat(AGENT_UNIT).concat("`"))
        },
        Some(health) => {
            if ensure_compatible_agent(health).is_err() {
                let mut message = "omdesky-agent (".to_owned().concat(health.agent_version.as_str()).concat(
                    ", protocol ",
                );
                push_decimal(&mut message, health.protocol as u64);
                let mut message = message.concat(") does not match this command (").concat(RELEASE).concat(
                    ", protocol ",
                );
                push_decimal(&mut message, PROTOCOL as u64);
                return Check::fail(
                    message.concat("); restart it with `systemctl --user restart ").concat(
                        AGENT_UNIT,
                    ).concat("`"),
                );
            }
            Check::pass(
                "omdesky-agent ".to_owned().concat(health.agent_version.as_str()).concat(" is running"),
            )
        },
    }
}

/// A path without the separators and the `.` components at its end. The root, and a `.` that the
/// path begins with, stay.
pub open spec fn without_trailing(path: Seq<char>) -> Seq<char>
    decreases path.len(),
{
    if path.len() > 1 && (path.last() == '/' || (path.last() == '.' && path[path.len() - 2] == '/')) {
        without_trailing(path.drop_last())
    } else {
        path
    }
}

/// The directory of a path. Separators and `.` components that name nothing are passed over; the
/// root and the empty path have none.
pub open spec fn directory_of(path: Seq<char>) -> Option<Seq<char>> {
    let path = without_trailing(path);
    if path.len() == 0 || path == seq!['/'] {
        None
    } else {
        match split_last(path, '/') {
            Some((before, _)) => Some(without_trailing(before.push('/'))),
            None => Some(Seq::empty()),
        }
    }
}

/// How many of the first `end` characters are left without what is passed over at their end.
fn trailing_start(v: &Vec<char>, end: usize) -> (r: usize)
    requires
        end <= v@.len(),
    ensures
        r <= end,
        v@.take(r as int) == without_trailing(v@.take(end as int)),
    decreases end,
{
    if end > 1 && (v[end - 1] == '/' || (v[end - 1] == '.' && v[end - 2] == '/')) {
        assert(v@.take(end as int).drop_last() =~= v@.take(end - 1));
        trailing_start(v, end - 1)
    } else {
        end
    }
}

pub fn parent_directory(path: &str) -> (r: Option<String>)
    ensures
        opt_text(r) == directory_of(path@),
{
    let v = chars_of(path);
    let end: usize = trailing_start(&v, v.len());
    assert(v@.take(v@.len() as int) =~= path@);
    if end == 0 {
        return None;
    }
    if end == 1 && v[0] == '/' {
        assert(v@.take(1) =~= seq!['/']);
        return None;
    }
    let shown = text_between(&v, 0, end);
    assert(shown@ =~= v@.take(end as int));
    assert(shown@ != seq!['/']);
    match rsplit_once(shown.as_str(), '/') {
        Some((before, _)) => {
            let mut directory = before;
            directory.push('/');
            let w = chars_of(directory.as_str());
            let kept: usize = trailing_start(&w, w.len());
            assert(w@.take(w@.len() as int) =~= directory@);
            let text = text_between(&w, 0, kept);
            assert(text@ =~= w@.take(kept as int));
            Some(text)
        },
        None => {
            let empty = String::new();
            assert(empty@ =~= Seq::<char>::empty());
            Some(empty)
        },
    }
}

/// Where the agent of the installation of this command would be.
pub fn expected_agent(current_exe: &str) -> (r: Option<String>)
    ensures
        opt_text(r) == (match directory_of(current_exe@) {
            Some(directory) => Some(path_below(directory, "omdesky-agent"@)),
            None => None,
        }),
{
    match parent_directory(current_exe) {
        Some(directory) => Some(join_path(directory.as_str(), "omdesky-agent")),
        None => None,
    }
}

/// What the unit runs and what it should run; each path also with its links followed.
#[derive(Debug, PartialEq, Eq)]
pub struct ServicePaths {
    pub service: String,
    pub canonical_service: String,
    pub current_exe: Option<String>,
    pub canonical_expected: Option<String>,
}

pub open spec fn service_status(paths: Option<ServicePaths>) -> CheckView {
    match paths {
        None => check(
            Status::Warn,
            AGENT_UNIT@ + " is not installed; the agent must run as a user service"@,
        ),
        Some(paths) => if opt_text(paths.canonical_expected) == Some(paths.canonical_service@) {
            check(Status::Pass, AGENT_UNIT@ + " runs "@ + paths.service@)
        } else {
            check(
                Status::Warn,
                AGENT_UNIT@ + " runs "@ + paths.service@ + " but this command lives in "@ + (match (
                match paths.current_exe {
                    Some(exe) => directory_of(exe@),
                    None => None,
                }) {
                    Some(directory) => directory,
                    None => "an unknown directory"@,
                }) + "; both should come from the same installation"@,
            )
        },
    }
}

pub fn agent_service_check(paths: Option<ServicePaths>) -> (r: Check)
    ensures
        r@ == service_status(paths),
{
    match paths {
        None => Check::warn(
            AGENT_UNIT.to_owned().concat(" is not installed; the agent must run as a user service"),
        ),
        Some(paths) => {
            let same = match &paths.canonical_expected {
                Some(expected) => same_text(expected.as_str(), paths.canonical_service.as_str()),
                None => false,
            };
            let start = AGENT_UNIT.to_owned().concat(" runs ").concat(paths.service.as_str());
            if same {
                return Check::pass(start);
            }
            let found = match &paths.current_exe {
                Some(exe) => parent_directory(exe.as_str()),
                None => None,
            };
            let directory = match found {
                Some(directory) => directory,
                None => "an unknown directory".to_owned(),
            };
            Check::warn(
                start.concat(" but this command lives in ").concat(directory.as_str()).concat(
                    "; both should come from the same installation",
                ),
            )
        },
    }
}

/// How an entry of the allowlist is named.
pub open spec fn entry_name(entry: AllowedController) -> Seq<char> {
    match entry.label {
        Some(label) => label@,
        None => entry.tailnet_node_id@,
    }
}

/// The names of the entries that grant nothing.
pub open spec fn inert_names(allowlist: Seq<AllowedController>) -> Seq<Seq<char>>
    decreases allowlist.len(),
{
    if allowlist.len() == 0 {
        Seq::empty()
    } else {
        let before = inert_names(allowlist.drop_last());
        if allowlist.last().capabilities@.len() == 0 {
            before.push(entry_name(allowlist.last()))
        } else {
            before
        }
    }
}

pub open spec fn access_status(allowlist: Option<Seq<AllowedController>>) -> CheckView {
    match allowlist {
        None => check(Status::Fail, "the allowed devices list could not be read"@),
        Some(allowlist) => if allowlist.len() == 0 {
            check(
                Status::Warn,
                "no computer is allowed yet; run `omdesky access allow <device>` on both computers"@,
            )
        } else if inert_names(allowlist).len() > 0 {
            check(
                Status::Warn,
                joined(inert_names(allowlist), ", "@)
                    + " grant nothing, probably written by an earlier release; run `omdesky access allow` again for them"@,
            )
        } else {
            check(Status::Pass, decimal(allowlist.len()) + " computer(s) allowed"@)
        },
    }
}

fn find_inert(allowlist: &[AllowedController]) -> (r: Vec<String>)
    ensures
        texts(r@) == inert_names(allowlist@),
{
    let mut names: Vec<String> = Vec::new();
    let mut i: usize = 0;
    assert(allowlist@.take(0) =~= Seq::<AllowedController>::empty());
    assert(texts(names@) =~= Seq::<Seq<char>>::empty());
    while i < allowlist.len()
        invariant
            i <= allowlist@.len(),
            texts(names@) == inert_names(allowlist@.take(i as int)),
        decreases allowlist@.len() - i,
    {
        let entry = &allowlist[i];
        assert(allowlist@.take(i + 1).drop_last() =~= allowlist@.take(i as int));
        if entry.capabilities.len() == 0 {
            let ghost before = names@;
            let name = match &entry.label {
                Some(label) => label.clone(),
                None => entry.tailnet_node_id.clone(),
            };
            names.push(name);
            assert(texts(names@) =~= texts(before).push(name@));
        }
        i += 1;
    }
    assert(allowlist@.take(allowlist@.len() as int) =~= allowlist@);
    names
}

pub open spec fn opt_list(allowlist: Option<&[AllowedController]>) -> Option<Seq<AllowedController>> {
    match allowlist {
        Some(list) => Some(list@),
        None => None,
    }
}

pub fn access_check(allowlist: Option<&[AllowedController]>) -> (r: Check)
    ensures
        r@ == access_status(opt_list(allowlist)),
{
    match allowlist {
        None => Check::fail("the allowed devices list could not be read".to_owned()),
        Some(allowlist) => {
            if allowlist.len() == 0 {
                return Check::warn(
                    "no computer is allowed yet; run `omdesky access allow <device>` on both computers".to_owned(),
                );
            }
            let inert = find_inert(allowlist);
            assert(texts(inert@).len() == inert@.len());
            if inert.len() > 0 {
                return Check::warn(
                    join_texts(inert.as_slice(), ", ").concat(
                        " grant nothing, probably written by an earlier release; run `omdesky access allow` again for them",
                    ),
                );
            }
            Check::pass(decimal_text(allowlist.len() as u64).concat(" computer(s) allowed"))
        },
    }
}

/// What is told of a device's blockers.
pub open spec fn node_problems(node: DiscoveredNodeView) -> Seq<Seq<char>> {
    node.blockers.map_values(|b: NodeBlockerView| blocker_text(node.name, b))
}

/// What is told of the blockers of this computer, or of the others.
pub open spec fn problems_of(nodes: Seq<DiscoveredNode>, local: bool) -> Seq<Seq<char>>
    decreases nodes.len(),
{
    if nodes.len() == 0 {
        Seq::empty()
    } else {
        let before = problems_of(nodes.drop_last(), local);
        if nodes.last().is_local == local {
            before + node_problems(nodes.last()@)
        } else {
            before
        }
    }
}

/// How many of the other computers are there, or are ready.
pub open spec fn count_remote(nodes: Seq<DiscoveredNode>, ready: bool) -> nat
    decreases nodes.len(),
{
    if nodes.len() == 0 {
        0
    } else {
        let before = count_remote(nodes.drop_last(), ready);
        if !nodes.last().is_local && (ready ==> nodes.last().status == NodeStatus::Ready) {
            before + 1
        } else {
            before
        }
    }
}

/// The problems of this computer come first.
pub open spec fn devices_status(nodes: Seq<DiscoveredNode>) -> CheckView {
    let problems = problems_of(nodes, true) + problems_of(nodes, false);
    if problems.len() > 0 {
        check(Status::Warn, joined(problems, " "@))
    } else if count_remote(nodes, false) == 0 {
        check(Status::Warn, "no other Omdesky device is online"@)
    } else {
        check(
            Status::Pass,
            decimal(count_remote(nodes, true)) + " of "@ + decimal(count_remote(nodes, false))
                + " device(s) ready"@,
        )
    }
}

fn push_problems(problems: &mut Vec<String>, node: &DiscoveredNode)
    ensures
        texts(final(problems)@) == texts(old(problems)@) + node_problems(node@),
{
    let ghost all = node_problems(node@);
    let mut i: usize = 0;
    assert(texts(problems@) =~= texts(old(problems)@) + all.take(0));
    while i < node.blockers.len()
        invariant
            i <= node.blockers@.len(),
            all == node_problems(node@),
            texts(problems@) == texts(old(problems)@) + all.take(i as int),
        decreases node.blockers@.len() - i,
    {
        let ghost before = problems@;
        let message = blocker_message(node.name.as_str(), &node.blockers[i]);
        assert(message@ == all[i as int]);
        problems.push(message);
        assert(texts(problems@) =~= texts(before).push(message@));
        assert(texts(problems@) =~= texts(old(problems)@) + all.take(i + 1));
        i += 1;
    }
    assert(all.take(all.len() as int) =~= all);
}

fn collect_problems(nodes: &[DiscoveredNode], local: bool) -> (r: Vec<String>)
    ensures
        texts(r@) == problems_of(nodes@, local),
{
    let mut problems: Vec<String> = Vec::new();
    let mut i: usize = 0;
    assert(nodes@.take(0) =~= Seq::<DiscoveredNode>::empty());
    assert(texts(problems@) =~= Seq::<Seq<char>>::empty());
    while i < nodes.len()
        invariant
            i <= nodes@.len(),
            texts(problems@) == problems_of(nodes@.take(i as int), local),
        decreases nodes@.len() - i,
    {
        assert(nodes@.take(i + 1).drop_last() =~= nodes@.take(i as int));
        if nodes[i].is_local == local {
            push_problems(&mut problems, &nodes[i]);
        }
        i += 1;
    }
    assert(nodes@.take(nodes@.len() as int) =~= nodes@);
    problems
}

fn counted(nodes: &[DiscoveredNode], ready: bool) -> (r: usize)
    ensures
        r == count_remote(nodes@, ready),
{
    let mut count: usize = 0;
    let mut i: usize = 0;
    assert(nodes@.take(0) =~= Seq::<DiscoveredNode>::empty());
    while i < nodes.len()
        invariant
            count <= i <= nodes@.len(),
            count == count_remote(nodes@.take(i as int), ready),
        decreases nodes@.len() - i,
    {
        assert(nodes@.take(i + 1).drop_last() =~= nodes@.take(i as int));
        if !nodes[i].is_local && (!ready || nodes[i].status == NodeStatus::Ready) {
            count += 1;
        }
        i += 1;
    }
    assert(nodes@.take(nodes@.len() as int) =~= nodes@);
    count
}

pub fn devices_check(devices: Result<&[DiscoveredNode], String>) -> (r: Check)
    ensures
        r@ == (match devices {
            Ok(nodes) => devices_status(nodes@),
            Err(error) => check(Status::Fail, error@),
        }),
{
    match devices {
        Err(error) => Check::fail(error),
        Ok(nodes) => {
            let mut problems = collect_problems(nodes, true);
            let mut others = collect_problems(nodes, false);
            let ghost a = problems@;
            let ghost b = others@;
            problems.append(&mut others);
            assert(texts(problems@) =~= texts(a) + texts(b));
            assert(texts(problems@).len() == problems@.len());
            if problems.len() > 0 {
                return Check::warn(join_texts(problems.as_slice(), " "));
            }
            let remote: usize = counted(nodes, false);
            if remote == 0 {
                return Check::warn("no other Omdesky device is online".to_owned());
            }
            let mut message = decimal_text(counted(nodes, true) as u64).concat(" of ");
            push_decimal(&mut message, remote as u64);
            Check::pass(message.concat(" device(s) ready"))
        },
    }
}

/// A named check as it is printed.
pub open spec fn check_line(name: Seq<char>, c: CheckView) -> Seq<char> {
    name + ": "@ + status_text(c.status) + " "@ + c.message
}

pub fn report_line(name: &str, c: &Check) -> (r: String)
    ensures
        r@ == check_line(name@, c@),
{
    name.to_owned().concat(": ").concat(c.status.as_str()).concat(" ").concat(c.message.as_str())
}

/// How many checks failed.
pub open spec fn failures_in(checks: Seq<(&'static str, Check)>) -> nat
    decreases checks.len(),
{
    if checks.len() == 0 {
        0
    } else {
        let before = failures_in(checks.drop_last());
        if checks.last().1.status == Status::Fail {
            before + 1
        } else {
            before
        }
    }
}

/// Whether the checks pass as a whole: a warning does not count against them.
pub fn report(checks: &Vec<(&'static str, Check)>) -> (r: Result<(), String>)
    ensures
        if failures_in(checks@) > 0 {
            r is Err && r->Err_0@ == decimal(failures_in(checks@)) + " check(s) failed"@
        } else {
            r is Ok
        },
{
    let mut failures: usize = 0;
    let mut i: usize = 0;
    assert(checks@.take(0) =~= Seq::<(&'static str, Check)>::empty());
    while i < checks.len()
        invariant
            failures <= i <= checks@.len(),
            failures == failures_in(checks@.take(i as int)),
        decreases checks@.len() - i,
    {
        assert(checks@.take(i + 1).drop_last() =~= checks@.take(i as int));
        if checks[i].1.status == Status::Fail {
            failures += 1;
        }
        i += 1;
    }
    assert(checks@.take(checks@.len() as int) =~= checks@);
    if failures > 0 {
        return Err(decimal_text(failures as u64).concat(" check(s) failed"));
    }
    Ok(())
}

/// What the checks are made of.
#[derive(Debug)]
pub struct Findings {
    /// What failed of Omarchy, Tailscale, Hyprland and Sunshine.
    pub omarchy: Option<String>,
    pub tailscale: Option<String>,
    pub hyprland: Option<String>,
    pub sunshine: Option<String>,
    pub credentials: Result<bool, ()>,
    pub health: Option<HealthResponse>,
    pub port: u16,
    pub service: Option<ServicePaths>,
    pub allowlist: Option<Vec<AllowedController>>,
    pub devices: Result<Vec<DiscoveredNode>, String>,
}

pub open spec fn availability(error: Option<String>) -> CheckView {
    match error {
        None => check(Status::Pass, "available"@),
        Some(error) => check(Status::Fail, error@),
    }
}

pub open spec fn check_views(checks: Seq<(&'static str, Check)>) -> Seq<(Seq<char>, CheckView)> {
    checks.map_values(|c: (&'static str, Check)| (c.0@, c.1@))
}

/// All checks, in the order in which they are reported.
pub open spec fn all_checks(f: Findings) -> Seq<(Seq<char>, CheckView)> {
    seq![
        ("omarchy"@, availability(f.omarchy)),
        ("tailscale"@, availability(f.tailscale)),
        ("hyprland"@, availability(f.hyprland)),
        ("sunshine"@, availability(f.sunshine)),
        (
            "sunshine_pairing"@,
            match f.credentials {
                Ok(true) => check(Status::Pass, "Sunshine admin credentials configured on this host"@),
                Ok(false) => check(
                    Status::Warn,
                    "Sunshine admin credentials missing; run `omdesky setup` on this host to enable pairing"@,
                ),
                Err(_) => check(
                    Status::Fail,
                    "The desktop Secret Service is unavailable or locked"@,
                ),
            },
        ),
        ("agent"@, agent_status(f.health, f.port)),
        ("agent_service"@, service_status(f.service)),
        (
            "access"@,
            access_status(
                match f.allowlist {
                    Some(list) => Some(list@),
                    None => None,
                },
            ),
        ),
        (
            "devices"@,
            match f.devices {
                Ok(nodes) => devices_status(nodes@),
                Err(error) => check(Status::Fail, error@),
            },
        ),
    ]
}

fn available(error: &Option<String>) -> (r: Check)
    ensures
        r@ == availability(*error),
{
    match error {
        None => Check::from_result(None),
        Some(error) => Check::from_result(Some(error.as_str())),
    }
}

pub fn run(findings: Findings) -> (r: Vec<(&'static str, Check)>)
    ensures
        check_views(r@) == all_checks(findings),
{
    let mut checks: Vec<(&'static str, Check)> = Vec::new();
    checks.push(("omarchy", available(&findings.omarchy)));
    checks.push(("tailscale", available(&findings.tailscale)));
    checks.push(("hyprland", available(&findings.hyprland)));
    checks.push(("sunshine", available(&findings.sunshine)));
    checks.push(("sunshine_pairing", sunshine_pairing_check(findings.credentials)));
    let agent = match &findings.health {
        Some(health) => agent_check(Some(health), findings.port),
        None => agent_check(None, findings.port),
    };
    checks.push(("agent", agent));
    checks.push(("agent_service", agent_service_check(findings.service)));
    let access = match &findings.allowlist {
        Some(list) => access_check(Some(list.as_slice())),
        None => access_check(None),
    };
    checks.push(("access", access));
    let devices = match findings.devices {
        Ok(nodes) => devices_check(Ok(nodes.as_slice())),
        Err(error) => devices_check(Err(error)),
    };
    checks.push(("devices", devices));
    assert(check_views(checks@) =~= all_checks(findings));
    checks
}

/// A line of the report is the check's name, how it came out in capitals, and what was found.
pub proof fn law_a_report_line_tells_the_outcome(name: &str, c: &Check, r: String)
    requires
        call_ensures(report_line, (name, c), r),
    ensures
        c.status == Status::Pass ==> r@ == name@ + ": "@ + "PASS"@ + " "@ + c.message@,
        c.status == Status::Warn ==> r@ == name@ + ": "@ + "WARN"@ + " "@ + c.message@,
        c.status == Status::Fail ==> r@ == name@ + ": "@ + "FAIL"@ + " "@ + c.message@,
{
}

/// What is there passes, and what is not fails with its own error.
pub proof fn law_what_failed_is_told(error: Option<&str>, r: Check)
    requires
        call_ensures(Check::from_result, (error,), r),
    ensures
        r.status == Status::Pass <==> error is None,
        r.status == Status::Fail <==> error is Some,
        error matches Some(text) ==> r.message@ == text@,
        error is None ==> r.message@ == "available"@,
{
    assert(r@.status == r.status && r@.message == r.message@);
}

/// Stored credentials pass, missing ones warn and say how they are stored, and a secret service
/// that cannot be asked fails.
pub proof fn law_missing_credentials_only_warn(credentials: Result<bool, ()>, r: Check)
    requires
        call_ensures(sunshine_pairing_check, (credentials,), r),
    ensures
        r.status == Status::Pass <==> credentials == Ok::<bool, ()>(true),
        r.status == Status::Warn <==> credentials == Ok::<bool, ()>(false),
        r.status == Status::Fail <==> credentials is Err,
        credentials == Ok::<bool, ()>(true) ==> r.message@
            == "Sunshine admin credentials configured on this host"@,
        credentials == Ok::<bool, ()>(false) ==> r.message@
            == "Sunshine admin credentials missing; run `omdesky setup` on this host to enable pairing"@,
        credentials is Err ==> r.message@ == "The desktop Secret Service is unavailable or locked"@,
{
    assert(r@.status == r.status && r@.message == r.message@);
}

/// The agent passes where it answers with this release and this protocol, and fails else. Who
/// does not answer is to be started on the port that was asked; who answers otherwise is to be
/// restarted.
pub proof fn law_only_the_agent_of_this_release_passes(
    health: &HealthResponse,
    port: u16,
    version: &str,
    same: bool,
    there: Check,
    gone: Check,
)
    requires
        version@ == health.agent_version@,
        call_ensures(is_compatible_release, (version,), same),
        call_ensures(agent_check, (Some(health), port), there),
        call_ensures(agent_check, (None, port), gone),
    ensures
        there.status == Status::Pass <==> health.protocol == 1 && same,
        there.status == Status::Pass || there.status == Status::Fail,
        there.status == Status::Pass ==> there.message@ == "omdesky-agent "@ + health.agent_version@
            + " is running"@,
        there.status == Status::Fail ==> there.message@ == "omdesky-agent ("@ + health.agent_version@
            + ", protocol "@ + decimal(health.protocol as nat)
            + ") does not match this command ("@ + "0.2.0"@ + ", protocol "@ + decimal(1)
            + "); restart it with `systemctl --user restart "@ + "omdesky-agent.service"@ + "`"@,
        gone.status == Status::Fail,
        gone.message@ == "omdesky-agent is not reachable on port "@ + decimal(port as nat)
            + "; run `systemctl --user start "@ + "omdesky-agent.service"@ + "`"@,
{
    assert(there@.status == there.status && there@.message == there.message@);
    assert(gone@.status == gone.status && gone@.message == gone.message@);
    assert(opt_health(Some(health)) == Some(*health));
}

/// The directory of what lies in a directory is that directory, and a name alone lies in the
/// empty one.
pub proof fn law_the_parent_of_a_child_is_the_directory(
    path: &str,
    directory: Seq<char>,
    name: Seq<char>,
    r: Option<String>,
)
    requires
        call_ensures(parent_directory, (path,), r),
        !name.contains('/'),
        name.len() > 0,
        name != seq!['.'],
        path@ == directory + seq!['/'] + name || path@ == name,
        directory.len() > 0,
        directory.last() != '/',
        directory.len() > 1 ==> directory.last() != '.' || directory[directory.len() - 2] != '/',
    ensures
        path@ == directory + seq!['/'] + name ==> (r matches Some(found) && found@ == directory),
        path@ == name ==> (r matches Some(found) && found@ == Seq::<char>::empty()),
{
    assert(opt_text(r) == directory_of(path@));
    assert(name.last() != '/') by {
        if name.last() == '/' {
            assert(name[name.len() - 1] == '/');
        }
    }
    if path@ == name {
        assert forall|k: int| 0 <= k < name.len() implies name[k] != '/' by {
            if name[k] == '/' {
                assert(name.contains('/'));
            }
        }
        if name.len() == 1 {
            assert(name =~= seq![name[0]]);
        }
        assert(without_trailing(name) == name);
        crate::scan::lemma_places(name, '/');
    } else {
        let p = path@;
        let n = directory.len() as int;
        assert(p.last() == name.last());
        assert(without_trailing(p) == p) by {
            if name.len() == 1 {
                assert(name =~= seq![name[0]]);
                assert(name[0] != '.');
            } else {
                assert(p[p.len() - 2] == name[name.len() - 2]);
                if name[name.len() - 2] == '/' {
                    assert(name.contains('/'));
                }
            }
        }
        assert forall|k: int| n < k < p.len() implies p[k] != '/' by {
            assert(p[k] == name[k - n - 1]);
            if p[k] == '/' {
                assert(name.contains('/'));
            }
        }
        crate::scan::lemma_places(p, '/');
        assert(p[n] == '/');
        assert(p.contains('/'));
        assert(crate::scan::last_place(p, '/') == n);
        assert(p.take(n) =~= directory);
        assert(directory.push('/').drop_last() =~= directory);
        assert(without_trailing(directory) == directory);
        assert(without_trailing(directory.push('/')) == directory);
    }
}

/// The root has no directory, nor has the empty path.
pub proof fn law_the_root_has_no_parent(path: &str, r: Option<String>)
    requires
        call_ensures(parent_directory, (path,), r),
        forall|i: int| 0 <= i < path@.len() ==> path@[i] == '/',
    ensures
        r is None,
{
    lemma_only_separators(path@);
    assert(opt_text(r) == directory_of(path@));
}

proof fn lemma_only_separators(path: Seq<char>)
    requires
        forall|i: int| 0 <= i < path.len() ==> path[i] == '/',
    ensures
        path.len() > 0 ==> without_trailing(path) == seq!['/'],
        path.len() == 0 ==> without_trailing(path).len() == 0,
    decreases path.len(),
{
    if path.len() > 1 {
        assert(path.last() == '/');
        lemma_only_separators(path.drop_last());
    } else if path.len() == 1 {
        assert(path =~= seq!['/']);
    }
}

/// The agent that belongs to a command lies beside it.
pub proof fn law_the_agent_lies_beside_the_command(
    current_exe: &str,
    directory: Option<String>,
    r: Option<String>,
)
    requires
        call_ensures(parent_directory, (current_exe,), directory),
        call_ensures(expected_agent, (current_exe,), r),
    ensures
        r is Some <==> directory is Some,
        directory matches Some(d) ==> d@.len() > 0 && d@.last() != '/' ==> r->0@ == d@ + "/"@
            + "omdesky-agent"@,
{
    assert(opt_text(r) is Some == r is Some);
    assert(opt_text(directory) is Some == directory is Some);
    if directory is Some {
        assert(opt_text(directory) == Some(directory->0@));
        assert(opt_text(r) == Some(r->0@));
    }
}

/// The service passes only where it runs the agent of this installation; it never fails.
pub proof fn law_a_foreign_service_only_warns(paths: Option<ServicePaths>, r: Check)
    requires
        call_ensures(agent_service_check, (paths,), r),
    ensures
        r.status == Status::Pass <==> (paths matches Some(p) && p.canonical_expected matches Some(
            expected,
        ) && expected@ == p.canonical_service@),
        r.status != Status::Fail,
        paths is None ==> r.message@ == "omdesky-agent.service"@
            + " is not installed; the agent must run as a user service"@,
        r.status == Status::Pass ==> r.message@ == "omdesky-agent.service"@ + " runs "@
            + paths->0.service@,
{
    assert(r@.status == r.status && r@.message == r.message@);
}

/// The list of allowed devices fails where it cannot be read, warns where it is empty or an
/// entry grants nothing, and passes with its length else.
pub proof fn law_an_entry_that_grants_nothing_is_told(allowlist: &[AllowedController], r: Check, unread: Check)
    requires
        call_ensures(access_check, (Some(allowlist),), r),
        call_ensures(access_check, (None,), unread),
    ensures
        unread.status == Status::Fail,
        unread.message@ == "the allowed devices list could not be read"@,
        r.status == Status::Pass <==> allowlist@.len() > 0 && forall|i: int|
            0 <= i < allowlist@.len() ==> (#[trigger] allowlist@[i]).capabilities@.len() > 0,
        r.status != Status::Fail,
        allowlist@.len() == 0 ==> r.message@
            == "no computer is allowed yet; run `omdesky access allow <device>` on both computers"@,
        r.status == Status::Pass ==> r.message@ == decimal(allowlist@.len()) + " computer(s) allowed"@,
{
    assert(r@.status == r.status && r@.message == r.message@);
    assert(unread@.status == unread.status && unread@.message == unread.message@);
    assert(opt_list(Some(allowlist)) == Some(allowlist@));
    lemma_inert(allowlist@);
}

/// The only entry that grants nothing is named, by its label where it has one.
pub proof fn law_the_entry_that_grants_nothing_is_named(allowlist: &[AllowedController], i: int, r: Check)
    requires
        call_ensures(access_check, (Some(allowlist),), r),
        0 <= i < allowlist@.len(),
        forall|k: int|
            0 <= k < allowlist@.len() ==> ((#[trigger] allowlist@[k]).capabilities@.len() == 0 <==> k == i),
    ensures
        ({
            let name = match allowlist@[i].label {
                Some(label) => label@,
                None => allowlist@[i].tailnet_node_id@,
            };
            r.message@ == name
                + " grant nothing, probably written by an earlier release; run `omdesky access allow` again for them"@
        }),
{
    assert(r@.status == r.status && r@.message == r.message@);
    assert(opt_list(Some(allowlist)) == Some(allowlist@));
    lemma_one_inert(allowlist@, i);
}

proof fn lemma_one_inert(list: Seq<AllowedController>, i: int)
    requires
        0 <= i < list.len(),
        forall|k: int|
            0 <= k < list.len() ==> ((#[trigger] list[k]).capabilities@.len() == 0 <==> k == i),
    ensures
        inert_names(list) == seq![entry_name(list[i])],
    decreases list.len(),
{
    let n = list.len() - 1;
    let before = list.drop_last();
    assert forall|k: int| 0 <= k < before.len() implies ((#[trigger] before[k]).capabilities@.len() == 0
        <==> k == i) by {
        assert(before[k] == list[k]);
    }
    assert(list.last() == list[n]);
    if i == n {
        lemma_inert(before);
        assert(inert_names(before) =~= Seq::<Seq<char>>::empty());
        assert(inert_names(list) =~= seq![entry_name(list[i])]);
    } else {
        lemma_one_inert(before, i);
    }
}

proof fn lemma_inert(list: Seq<AllowedController>)
    ensures
        inert_names(list).len() == 0 <==> forall|i: int|
            0 <= i < list.len() ==> (#[trigger] list[i]).capabilities@.len() > 0,
    decreases list.len(),
{
    if list.len() > 0 {
        let before = list.drop_last();
        lemma_inert(before);
        assert(list.last() == list[list.len() - 1]);
        assert forall|i: int| 0 <= i < before.len() implies before[i] == list[i] by {}
        if forall|i: int| 0 <= i < list.len() ==> (#[trigger] list[i]).capabilities@.len() > 0 {
            assert forall|i: int| 0 <= i < before.len() implies (#[trigger] before[i]).capabilities@.len()
                > 0 by {
                assert(before[i] == list[i]);
            }
        } else if inert_names(list).len() == 0 {
            assert forall|i: int| 0 <= i < list.len() implies (#[trigger] list[i]).capabilities@.len()
                > 0 by {
                if i < before.len() {
                    assert(before[i] == list[i]);
                }
            }
        }
    }
}

/// The devices pass where there is another computer and nothing stands in the way of any, and
/// then it is told how many of the other computers are ready.
pub proof fn law_ready_devices_are_counted(nodes: &[DiscoveredNode], r: Check)
    requires
        call_ensures(devices_check, (Ok(nodes),), r),
    ensures
        r.status != Status::Fail,
        r.status == Status::Pass <==> (forall|i: int|
            0 <= i < nodes@.len() ==> (#[trigger] nodes@[i]).blockers@.len() == 0) && (exists|i: int|
            0 <= i < nodes@.len() && !(#[trigger] nodes@[i]).is_local),
        r.status == Status::Pass ==> r.message@ == decimal(
            nodes@.filter(|n: DiscoveredNode| !n.is_local && n.status == NodeStatus::Ready).len(),
        ) + " of "@ + decimal(nodes@.filter(|n: DiscoveredNode| !n.is_local).len())
            + " device(s) ready"@,
        nodes@.len() == 0 ==> r.message@ == "no other Omdesky device is online"@,
{
    assert(r@.status == r.status && r@.message == r.message@);
    lemma_problems(nodes@);
    lemma_counts(nodes@);
}

/// A discovery that failed fails, with its own error.
pub proof fn law_a_failed_discovery_fails(error: String, r: Check)
    requires
        call_ensures(devices_check, (Err(error),), r),
    ensures
        r.status == Status::Fail,
        r.message@ == error@,
{
    assert(r@.status == r.status && r@.message == r.message@);
}

proof fn lemma_problems(nodes: Seq<DiscoveredNode>)
    ensures
        problems_of(nodes, true).len() + problems_of(nodes, false).len() == 0 <==> forall|i: int|
            0 <= i < nodes.len() ==> (#[trigger] nodes[i]).blockers@.len() == 0,
    decreases nodes.len(),
{
    if nodes.len() > 0 {
        let before = nodes.drop_last();
        lemma_problems(before);
        let last = nodes[nodes.len() - 1];
        assert(nodes.last() == last);
        assert(node_problems(last@).len() == last.blockers@.len()) by {
            assert(last@.blockers.len() == last.blockers@.len());
        }
        if forall|i: int| 0 <= i < nodes.len() ==> (#[trigger] nodes[i]).blockers@.len() == 0 {
            assert forall|i: int| 0 <= i < before.len() implies (#[trigger] before[i]).blockers@.len()
                == 0 by {
                assert(before[i] == nodes[i]);
            }
        } else if problems_of(nodes, true).len() + problems_of(nodes, false).len() == 0 {
            assert forall|i: int| 0 <= i < nodes.len() implies (#[trigger] nodes[i]).blockers@.len()
                == 0 by {
                if i < before.len() {
                    assert(before[i] == nodes[i]);
                }
            }
        }
    }
}

proof fn lemma_counts(nodes: Seq<DiscoveredNode>)
    ensures
        count_remote(nodes, false) == nodes.filter(|n: DiscoveredNode| !n.is_local).len(),
        count_remote(nodes, true) == nodes.filter(
            |n: DiscoveredNode| !n.is_local && n.status == NodeStatus::Ready,
        ).len(),
        count_remote(nodes, false) > 0 <==> exists|i: int|
            0 <= i < nodes.len() && !(#[trigger] nodes[i]).is_local,
    decreases nodes.len(),
{
    let remote = |n: DiscoveredNode| !n.is_local;
    let ready = |n: DiscoveredNode| !n.is_local && n.status == NodeStatus::Ready;
    if nodes.len() == 0 {
        crate::seqs::lemma_filter_nothing(nodes, remote);
        crate::seqs::lemma_filter_nothing(nodes, ready);
    } else {
        let before = nodes.drop_last();
        let n = nodes.len() - 1;
        lemma_counts(before);
        crate::seqs::lemma_filter_step(nodes, remote, n);
        crate::seqs::lemma_filter_step(nodes, ready, n);
        assert(nodes.take(n) =~= before);
        assert(nodes.take(n + 1) =~= nodes);
        assert(nodes.last() == nodes[n]);
        if exists|i: int| 0 <= i < before.len() && !(#[trigger] before[i]).is_local {
            let i = choose|i: int| 0 <= i < before.len() && !(#[trigger] before[i]).is_local;
            assert(!nodes[i].is_local);
        }
        if exists|i: int| 0 <= i < nodes.len() && !(#[trigger] nodes[i]).is_local {
            let i = choose|i: int| 0 <= i < nodes.len() && !(#[trigger] nodes[i]).is_local;
            if i < n {
                assert(!before[i].is_local);
            }
        }
    }
}

/// The report is in order as long as nothing failed, whatever warns, and counts what failed else.
pub proof fn law_only_failures_fail_the_report(checks: &Vec<(&'static str, Check)>, r: Result<(), String>)
    requires
        call_ensures(report, (checks,), r),
    ensures
        r is Ok <==> forall|i: int|
            0 <= i < checks@.len() ==> (#[trigger] checks@[i]).1.status != Status::Fail,
        r matches Err(message) ==> message@ == decimal(
            checks@.filter(|c: (&'static str, Check)| c.1.status == Status::Fail).len(),
        ) + " check(s) failed"@,
{
    lemma_failures(checks@);
}

proof fn lemma_failures(checks: Seq<(&'static str, Check)>)
    ensures
        failures_in(checks) == checks.filter(|c: (&'static str, Check)| c.1.status == Status::Fail).len(),
        failures_in(checks) == 0 <==> forall|i: int|
            0 <= i < checks.len() ==> (#[trigger] checks[i]).1.status != Status::Fail,
    decreases checks.len(),
{
    let failed = |c: (&'static str, Check)| c.1.status == Status::Fail;
    if checks.len() == 0 {
        crate::seqs::lemma_filter_nothing(checks, failed);
    } else {
        let before = checks.drop_last();
        let n = checks.len() - 1;
        lemma_failures(before);
        crate::seqs::lemma_filter_step(checks, failed, n);
        assert(checks.take(n) =~= before);
        assert(checks.take(n + 1) =~= checks);
        assert(checks.last() == checks[n]);
        if forall|i: int| 0 <= i < checks.len() ==> (#[trigger] checks[i]).1.status != Status::Fail {
            assert forall|i: int| 0 <= i < before.len() implies (#[trigger] before[i]).1.status
                != Status::Fail by {
                assert(before[i] == checks[i]);
            }
        } else if failures_in(checks) == 0 {
            assert forall|i: int| 0 <= i < checks.len() implies (#[trigger] checks[i]).1.status
                != Status::Fail by {
                if i < before.len() {
                    assert(before[i] == checks[i]);
                }
            }
        }
    }
}

/// Nine checks are run, from Omarchy to the devices; each of the first four fails exactly where
/// that part failed.
pub proof fn law_every_part_is_checked_under_its_name(findings: Findings, r: Vec<(&'static str, Check)>)
    requires
        call_ensures(run, (findings,), r),
    ensures
        r@.len() == 9,
        r@[0].0@ == "omarchy"@,
        r@[1].0@ == "tailscale"@,
        r@[2].0@ == "hyprland"@,
        r@[3].0@ == "sunshine"@,
        r@[4].0@ == "sunshine_pairing"@,
        r@[5].0@ == "agent"@,
        r@[6].0@ == "agent_service"@,
        r@[7].0@ == "access"@,
        r@[8].0@ == "devices"@,
        r@[0].1.status == Status::Fail <==> findings.omarchy is Some,
        r@[1].1.status == Status::Fail <==> findings.tailscale is Some,
        r@[2].1.status == Status::Fail <==> findings.hyprland is Some,
        r@[3].1.status == Status::Fail <==> findings.sunshine is Some,
        r@[4].1.status == Status::Fail <==> findings.credentials is Err,
        findings.health is None ==> r@[5].1.status == Status::Fail,
        r@[6].1.status != Status::Fail,
        r@[7].1.status == Status::Fail <==> findings.allowlist is None,
        r@[8].1.status == Status::Fail <==> findings.devices is Err,
{
    let views = check_views(r@);
    assert(views == all_checks(findings));
    assert(views.len() == r@.len());
    assert forall|i: int| 0 <= i < 9 implies (#[trigger] views[i]).0 == r@[i].0@ && views[i].1.status
        == r@[i].1.status by {
        assert(views[i] == (r@[i].0@, r@[i].1@));
    }
    assert(views[0].0 == "omarchy"@ && views[1].0 == "tailscale"@ && views[2].0 == "hyprland"@);
    assert(views[3].0 == "sunshine"@ && views[4].0 == "sunshine_pairing"@ && views[5].0 == "agent"@);
    assert(views[6].0 == "agent_service"@ && views[7].0 == "access"@ && views[8].0 == "devices"@);
}

/// A service of another installation is told with what it runs and where this command lives.
pub proof fn law_a_foreign_service_is_told(paths: ServicePaths, exe: &str, directory: Option<String>, r: Check)
    requires
        call_ensures(agent_service_check, (Some(paths),), r),
        call_ensures(parent_directory, (exe,), directory),
        paths.current_exe matches Some(current) && current@ == exe@,
        r.status == Status::Warn,
    ensures
        r.message@ == "omdesky-agent.service"@ + " runs "@ + paths.service@ + " but this command lives in "@ + (
        match directory {
            Some(d) => d@,
            None => "an unknown directory"@,
        }) + "; both should come from the same installation"@,
{
    assert(r@.status == r.status && r@.message == r.message@);
    assert(opt_text(directory) == directory_of(exe@));
}

} // verus!
