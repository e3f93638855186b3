//! The launchers of remote desktops, and the identity of this computer in them.
use vstd::prelude::*;
use vstd::string::*;

use crate::config::{join_path, path_below};
use crate::ids::{hyphenated, is_random_uuid, NodeId};
use crate::order::{is_before, lemma_text_order, stable_sort, stably_sorted, text_before};
use crate::ports::{port_error, LauncherSpec, PortError};
use crate::scan::{begins_with, ends_in, ends_with, starts_with};
use crate::seqs::keep_when;
use crate::strings::{chars_of, same_text};

verus! {

/// A text with every line end made a space.
pub open spec fn on_one_line(value: Seq<char>) -> Seq<char> {
    value.map_values(
        |c: char|
            if c == '\n' || c == '\r' {
                ' '
            } else {
                c
            },
    )
}

pub fn escape_value(value: &str) -> (r: String)
    ensures
        r@ == on_one_line(value@),
{
    let v = chars_of(value);
    let ghost goal = on_one_line(value@);
    let mut out = String::new();
    let mut i: usize = 0;
    assert(out@ =~= goal.take(0));
    while i < v.len()
        invariant
            v@ == value@,
            i <= v@.len(),
            goal == on_one_line(value@),
            out@ == goal.take(i as int),
        decreases v@.len() - i,
    {
        let c = if v[i] == '\n' || v[i] == '\r' {
            ' '
        } else {
            v[i]
        };
        out.push(c);
        assert(goal.take(i + 1) =~= goal.take(i as int).push(goal[i as int]));
        i += 1;
    }
    assert(goal.take(goal.len() as int) =~= goal);
    out
}

/// No name can add a line of its own to a launcher.
pub proof fn law_names_stay_on_one_line(value: Seq<char>)
    ensures
        forall|i: int|
            0 <= i < on_one_line(value).len() ==> #[trigger] on_one_line(value)[i] != '\n'
                && on_one_line(value)[i] != '\r',
        on_one_line(value).len() == value.len(),
{
}

/// The launchers in a directory.
#[derive(Debug, PartialEq, Eq)]
pub struct DesktopLauncherStore {
    pub directory: String,
}

/// The content of a launcher.
pub open spec fn launcher_text(name: Seq<char>, id: u128) -> Seq<char> {
    "[Desktop Entry]\nName="@ + on_one_line(name)
        + "\nComment=Remote Omarchy Desktop\nExec=uwsm app -- omdesk connect "@ + hyphenated(id)
        + "\nIcon=computer\nTerminal=false\nType=Application\nCategories=Network;RemoteAccess;\nX-OmarchyDesk-NodeId="@
        + hyphenated(id) + "\n"@
}

pub open spec fn launcher_name(id: u128) -> Seq<char> {
    "omdesk-"@ + hyphenated(id) + ".desktop"@
}

pub open spec fn is_launcher_name(name: Seq<char>) -> bool {
    begins_with(name, "omdesk-"@) && ends_in(name, ".desktop"@)
}

pub open spec fn launcher_file() -> spec_fn(String) -> bool {
    |name: String| is_launcher_name(name@)
}

pub open spec fn name_before() -> spec_fn(String, String) -> bool {
    |a: String, b: String| text_before(a@, b@)
}

fn is_name_before(a: &String, b: &String) -> (r: bool)
    ensures
        r == name_before()(*a, *b),
{
    is_before(a.as_str(), b.as_str())
}

fn names_launcher(name: &String) -> (r: bool)
    ensures
        r == launcher_file()(*name),
{
    starts_with(name.as_str(), "omdesk-") && ends_with(name.as_str(), ".desktop")
}

impl DesktopLauncherStore {
    pub fn new(directory: String) -> (r: Self)
        ensures
            r.directory == directory,
    {
        DesktopLauncherStore { directory }
    }

    pub fn render(spec: &LauncherSpec) -> (r: String)
        ensures
            r@ == launcher_text(spec.display_name@, spec.node_id.0),
    {
        let id = spec.node_id.to_text();
        let name = escape_value(spec.display_name.as_str());
        "[Desktop Entry]\nName=".to_owned().concat(name.as_str()).concat(
            "\nComment=Remote Omarchy Desktop\nExec=uwsm app -- omdesk connect ",
        ).concat(id.as_str()).concat(
            "\nIcon=computer\nTerminal=false\nType=Application\nCategories=Network;RemoteAccess;\nX-OmarchyDesk-NodeId=",
        ).concat(id.as_str()).concat("\n")
    }

    /// Where the launcher of a computer is.
    pub fn path(&self, node_id: NodeId) -> (r: String)
        ensures
            r@ == path_below(self.directory@, launcher_name(node_id.0)),
    {
        let name = "omdesk-".to_owned().concat(node_id.to_text().as_str()).concat(".desktop");
        join_path(self.directory.as_str(), name.as_str())
    }

    /// The launchers among the files of the directory, in the order of their names.
    pub fn list(names: Vec<String>) -> (r: Vec<String>)
        ensures
            stably_sorted(names@.filter(launcher_file()), r@, name_before()),
    {
        let kept = keep_when(names, names_launcher, Ghost(launcher_file()));
        proof {
            lemma_text_order();
            let f = name_before();
            assert forall|a: String, b: String, c: String| #[trigger]
                f(a, b) && #[trigger] f(b, c) implies f(a, c) by {}
            assert forall|a: String, b: String, c: String|
                #![trigger f(a, c), f(a, b)]
                #![trigger f(a, c), f(b, c)]
                f(a, c) implies f(a, b) || f(b, c) by {
                assert(text_before(a@, b@) || a@ == b@ || text_before(b@, a@));
            }
        }
        stable_sort(kept, is_name_before, Ghost(name_before()))
    }
}

/// A launcher is written only where it would change.
pub fn needs_write(existing: Option<&str>, content: &str) -> (r: bool)
    ensures
        r == !(existing matches Some(text) && text@ == content@),
{
    match existing {
        Some(text) => !same_text(text, content),
        None => true,
    }
}

pub fn launcher_error(detail: &str) -> (r: PortError)
    ensures
        r@ == port_error("LAUNCHER_IO_FAILED"@, detail@, false),
{
    PortError::plain("LAUNCHER_IO_FAILED", detail, false)
}

/// Every launcher that is written is found again among the files of its directory.
pub proof fn law_written_launchers_are_listed(id: u128)
    ensures
        is_launcher_name(launcher_name(id)),
{
    let name = launcher_name(id);
    let start = "omdesk-"@;
    let end = ".desktop"@;
    assert(name.take(start.len() as int) =~= start);
    assert(name.skip(name.len() - end.len()) =~= end);
}

/// The stable number of this computer, used for launchers and settings. Trust rests on the tailnet.
#[derive(Clone, Copy, Debug, PartialEq, Eq, Structural)]
pub struct NodeIdentity {
    pub node_id: NodeId,
}

#[derive(Debug, PartialEq, Eq)]
pub enum IdentityError {
    State(String),
}

impl IdentityError {
    pub fn message(&self) -> (r: String)
        ensures
            r@ == "identity state failed: "@ + self->State_0@,
    {
        match self {
            IdentityError::State(detail) => "identity state failed: ".to_owned().concat(
                detail.as_str(),
            ),
        }
    }
}

impl NodeIdentity {
    /// The identity by what its file held, where there is one; else a new one, which is to be
    /// written.
    pub fn load_or_create(stored: Option<Result<NodeIdentity, String>>) -> (r: Result<
        (NodeIdentity, bool),
        IdentityError,
    >)
        ensures
            match stored {
                Some(Ok(identity)) => r == Ok::<(NodeIdentity, bool), IdentityError>((identity, false)),
                Some(Err(detail)) => r == Err::<(NodeIdentity, bool), IdentityError>(
                    IdentityError::State(detail),
                ),
                None => r matches Ok((identity, created)) && created && is_random_uuid(
                    identity.node_id.0,
                ),
            },
    {
        match stored {
            Some(Ok(identity)) => Ok((identity, false)),
            Some(Err(detail)) => Err(IdentityError::State(detail)),
            None => Ok((NodeIdentity { node_id: NodeId::new() }, true)),
        }
    }
}

/// A launcher connects to its computer under its name, which adds no line to it.
pub proof fn law_a_launcher_connects_to_its_computer(spec: LauncherSpec, r: String)
    requires
        call_ensures(DesktopLauncherStore::render, (&spec,), r),
    ensures
        r@ == "[Desktop Entry]\nName="@ + on_one_line(spec.display_name@)
            + "\nComment=Remote Omarchy Desktop\nExec=uwsm app -- omdesk connect "@ + hyphenated(
            spec.node_id.0,
        )
            + "\nIcon=computer\nTerminal=false\nType=Application\nCategories=Network;RemoteAccess;\nX-OmarchyDesk-NodeId="@
            + hyphenated(spec.node_id.0) + "\n"@,
{
}

/// A line end in a name becomes a space, and every other character stays.
pub proof fn law_line_ends_become_spaces(value: &str, r: String, i: int)
    requires
        call_ensures(escape_value, (value,), r),
        0 <= i < value@.len(),
    ensures
        r@.len() == value@.len(),
        value@[i] == '\n' || value@[i] == '\r' ==> r@[i] == ' ',
        value@[i] != '\n' && value@[i] != '\r' ==> r@[i] == value@[i],
{
}

/// The launchers among the files are those of that beginning and end, each of them, in order.
pub proof fn law_launchers_are_listed_in_order(names: Vec<String>, r: Vec<String>, name: String)
    requires
        call_ensures(DesktopLauncherStore::list, (names,), r),
    ensures
        r@.contains(name) <==> names@.contains(name) && is_launcher_name(name@),
        forall|i: int, j: int|
            0 <= i < j < r@.len() ==> !text_before((#[trigger] r@[j])@, (#[trigger] r@[i])@),
{
    let p = launcher_file();
    let kept = names@.filter(p);
    assert(r@.to_multiset() == kept.to_multiset());
    broadcast use vstd::seq_lib::group_to_multiset_ensures;

    assert(r@.contains(name) <==> kept.contains(name)) by {
        assert(r@.to_multiset().count(name) > 0 <==> r@.contains(name));
        assert(kept.to_multiset().count(name) > 0 <==> kept.contains(name));
    }
    if kept.contains(name) {
        let k = choose|k: int| 0 <= k < kept.len() && kept[k] == name;
        names@.lemma_filter_pred(p, k);
        names@.lemma_filter_contains_rev(p, name);
    }
    if names@.contains(name) && p(name) {
        let k = choose|k: int| 0 <= k < names@.len() && names@[k] == name;
        names@.lemma_filter_contains(p, k);
    }
    let before = name_before();
    assert forall|i: int, j: int| 0 <= i < j < r@.len() implies !text_before(
        (#[trigger] r@[j])@,
        (#[trigger] r@[i])@,
    ) by {
        assert(!before(r@[j], r@[i]));
    }
}

/// The file of a launcher is named after its computer.
pub proof fn law_a_launcher_is_named_after_its_computer(
    store: DesktopLauncherStore,
    id: NodeId,
    r: String,
)
    requires
        call_ensures(DesktopLauncherStore::path, (&store, id), r),
    ensures
        r@ == path_below(store.directory@, "omdesk-"@ + hyphenated(id.0) + ".desktop"@),
{
}

/// Only a launcher that would change is written.
pub proof fn law_only_changes_are_written(existing: Option<&str>, content: &str, r: bool)
    requires
        call_ensures(needs_write, (existing, content), r),
    ensures
        existing is None ==> r,
        existing matches Some(text) ==> (r <==> text@ != content@),
{
}

/// A stored identity stays; one that cannot be read is an error; only without one a new one is made
/// and written.
pub proof fn law_an_identity_is_made_once(
    stored: Option<Result<NodeIdentity, String>>,
    r: Result<(NodeIdentity, bool), IdentityError>,
)
    requires
        call_ensures(NodeIdentity::load_or_create, (stored,), r),
    ensures
        stored matches Some(Ok(identity)) ==> (r matches Ok((kept, written)) && kept == identity
            && !written),
        stored matches Some(Err(detail)) ==> (r matches Err(IdentityError::State(told)) && told@
            == detail@),
        stored is None ==> (r matches Ok((_, written)) && written),
{
}

/// A launcher that cannot be written or read is told with its detail.
pub proof fn law_launcher_failures_keep_their_detail(detail: &str, r: PortError)
    requires
        call_ensures(launcher_error, (detail,), r),
    ensures
        r@.code == "LAUNCHER_IO_FAILED"@,
        r@.message == detail@,
        !r@.retryable,
{
}

} // verus!
