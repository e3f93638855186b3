//! The version of Omarchy on this computer, and its notifications.
use vstd::prelude::*;
use vstd::string::*;

use crate::config::{parse_number, parsed_number};
use crate::ports::{port_error, CommandSpec, Notification, PortError, PortErrorView, PortResult};
use crate::scan::{rsplit_once, split_last};
use crate::strings::{decimal, opt_text, push_decimal, split_text, split_when, texts};
use crate::wrap::{split_whitespace, words};

verus! {

#[derive(Debug, PartialEq, Eq)]
pub struct OmarchyVersion {
    pub major: u32,
    pub minor: u32,
    pub patch: u32,
    pub package_release: Option<String>,
}

pub struct VersionView {
    pub major: int,
    pub minor: int,
    pub patch: int,
    pub package_release: Option<Seq<char>>,
}

impl View for OmarchyVersion {
    type V = VersionView;

    open spec fn view(&self) -> VersionView {
        VersionView {
            major: self.major as int,
            minor: self.minor as int,
            patch: self.patch as int,
            package_release: opt_text(self.package_release),
        }
    }
}

pub open spec fn is_dot() -> spec_fn(char) -> bool {
    |c: char| c == '.'
}

/// The number that stands at a place of a dotted version, zero where the version is shorter.
pub open spec fn component(upstream: Seq<char>, i: int) -> Option<int> {
    let parts = split_when(upstream, is_dot());
    if i < parts.len() {
        parsed_number(parts[i], u32::MAX as int)
    } else {
        Some(0)
    }
}

pub open spec fn unknown_version(message: Seq<char>) -> PortErrorView {
    port_error("OMARCHY_VERSION_UNKNOWN"@, message, false)
}

/// The version of a dotted text with the release of its package.
pub open spec fn dotted_version(upstream: Seq<char>, package_release: Option<Seq<char>>) -> Result<
    VersionView,
    PortErrorView,
> {
    match (component(upstream, 0), component(upstream, 1), component(upstream, 2)) {
        (Some(major), Some(minor), Some(patch)) => if major == 4 {
            Ok(VersionView { major, minor, patch, package_release })
        } else {
            Err(
                port_error(
                    "OMARCHY_UNSUPPORTED_VERSION"@,
                    "Omarchy "@ + decimal(major as nat) + " is unsupported, version 4 is required"@,
                    false,
                ),
            )
        },
        _ => Err(unknown_version("invalid version"@)),
    }
}

/// The version in the answer of the package manager: the second word, of which the release of the
/// package stands behind the last hyphen.
pub open spec fn package_version(output: Seq<char>) -> Result<VersionView, PortErrorView> {
    if words(output).len() < 2 {
        Err(unknown_version("invalid package output"@))
    } else {
        let version = words(output)[1];
        match split_last(version, '-') {
            Some((upstream, release)) => dotted_version(upstream, Some(release)),
            None => dotted_version(version, None),
        }
    }
}

pub open spec fn version_result(r: PortResult<OmarchyVersion>) -> Result<VersionView, PortErrorView> {
    match r {
        Ok(version) => Ok(version@),
        Err(error) => Err(error@),
    }
}

fn is_version_dot(c: char) -> (r: bool)
    ensures
        r == (c == '.'),
{
    c == '.'
}

fn part_number(parts: &Vec<String>, i: usize) -> (r: Option<u32>)
    ensures
        match r {
            Some(n) => (if i < parts@.len() {
                parsed_number(parts@[i as int]@, u32::MAX as int)
            } else {
                Some(0int)
            }) == Some(n as int),
            None => i < parts@.len() && parsed_number(parts@[i as int]@, u32::MAX as int) is None,
        },
{
    if i >= parts.len() {
        return Some(0);
    }
    match parse_number(parts[i].as_str()) {
        Some(n) => if n <= 4294967295 {
            Some(n as u32)
        } else {
            None
        },
        None => None,
    }
}

fn parse_dotted(upstream: &str, package_release: Option<String>) -> (r: PortResult<OmarchyVersion>)
    ensures
        version_result(r) == dotted_version(upstream@, opt_text(package_release)),
{
    let parts = split_text(upstream, is_version_dot, Ghost(is_dot()));
    let ghost seen = split_when(upstream@, is_dot());
    assert(forall|i: int| 0 <= i < parts@.len() ==> seen[i] == (#[trigger] parts@[i])@);
    match (part_number(&parts, 0), part_number(&parts, 1), part_number(&parts, 2)) {
        (Some(major), Some(minor), Some(patch)) => {
            if major != 4 {
                let mut message = "Omarchy ".to_owned();
                push_decimal(&mut message, major as u64);
                message.append(" is unsupported, version 4 is required");
                return Err(PortError::new("OMARCHY_UNSUPPORTED_VERSION", message, false));
            }
            Ok(OmarchyVersion { major, minor, patch, package_release })
        },
        _ => Err(PortError::plain("OMARCHY_VERSION_UNKNOWN", "invalid version", false)),
    }
}

pub fn parse_package_version(output: &str) -> (r: PortResult<OmarchyVersion>)
    ensures
        version_result(r) == package_version(output@),
{
    let list = split_whitespace(output);
    assert(texts(list@).len() == list@.len());
    if list.len() < 2 {
        return Err(PortError::plain("OMARCHY_VERSION_UNKNOWN", "invalid package output", false));
    }
    let version = list[1].as_str();
    assert(version@ == words(output@)[1]);
    match rsplit_once(version, '-') {
        Some((upstream, release)) => parse_dotted(upstream.as_str(), Some(release)),
        None => parse_dotted(version, None),
    }
}

/// The call that asks the package manager for the version.
pub fn version_query() -> (r: CommandSpec)
    ensures
        r.program@ == "pacman"@,
        texts(r.args@) == seq!["-Q"@, "omarchy"@],
        r.has_default_limits(),
        r.environment_policy == crate::ports::EnvironmentPolicy::Session,
{
    let mut args: Vec<String> = Vec::new();
    args.push("-Q".to_owned());
    args.push("omarchy".to_owned());
    assert(texts(args@) =~= seq!["-Q"@, "omarchy"@]);
    CommandSpec::new("pacman".to_owned(), args)
}

/// The call that shows a notification.
pub fn notification_spec(notification: Notification) -> (r: CommandSpec)
    ensures
        r.program@ == "omarchy-notification-send"@,
        texts(r.args@) == seq![notification.summary@, notification.body@],
        r.has_default_limits(),
        r.environment_policy == crate::ports::EnvironmentPolicy::Session,
{
    let mut args: Vec<String> = Vec::new();
    args.push(notification.summary);
    args.push(notification.body);
    assert(texts(args@) =~= seq![notification.summary@, notification.body@]);
    CommandSpec::new("omarchy-notification-send".to_owned(), args)
}

/// Only the fourth version is ever accepted.
pub proof fn law_only_the_fourth_version_is_accepted(output: Seq<char>)
    ensures
        package_version(output) matches Ok(version) ==> version.major == 4,
{
}

/// The version is the second word of the answer. What stands behind its last hyphen is the release of
/// the package; before that are up to three numbers, of which those that are not there are zero.
pub proof fn law_a_version_has_three_numbers(
    output: &str,
    upstream: Seq<char>,
    release: Seq<char>,
    r: PortResult<OmarchyVersion>,
)
    requires
        call_ensures(parse_package_version, (output,), r),
        words(output@).len() >= 2,
        words(output@)[1] == upstream.push('-') + release,
        !release.contains('-'),
    ensures
        ({
            let parts = split_when(upstream, |c: char| c == '.');
            let at = |i: int|
                if i < parts.len() {
                    parsed_number(parts[i], u32::MAX as int)
                } else {
                    Some(0int)
                };
            &&& r is Ok <==> at(0) == Some(4int) && at(1) is Some && at(2) is Some
            &&& r matches Ok(version) ==> version.major == 4 && at(1) == Some(version.minor as int) && at(2)
                == Some(version.patch as int) && (version.package_release matches Some(told) && told@
                == release)
        }),
{
    let version = words(output@)[1];
    assert forall|k: int| upstream.len() < k < version.len() implies version[k] != '-' by {
        assert(version[k] == release[k - upstream.len() - 1]);
        assert(release.contains(release[k - upstream.len() - 1]));
    }
    lemma_last_hyphen(version, upstream.len() as int);
    assert(version.take(upstream.len() as int) =~= upstream);
    assert(version.skip(upstream.len() as int + 1) =~= release);
    assert(version_result(r) is Ok <==> r is Ok);
    if let Ok(told) = r {
        assert(version_result(r)->Ok_0 == told@);
        assert(told@.major == told.major as int);
        assert(told@.minor == told.minor as int);
        assert(told@.patch == told.patch as int);
        assert(told@.package_release == opt_text(told.package_release));
    }
}

proof fn lemma_last_hyphen(s: Seq<char>, i: int)
    requires
        0 <= i < s.len(),
        s[i] == '-',
        forall|k: int| i < k < s.len() ==> s[k] != '-',
    ensures
        crate::scan::last_place(s, '-') == i,
    decreases s.len(),
{
    if i < s.len() - 1 {
        let shorter = s.drop_last();
        assert(s[s.len() - 1] != '-');
        assert forall|k: int| i < k < shorter.len() implies shorter[k] != '-' by {
            assert(s[k] != '-');
        }
        lemma_last_hyphen(shorter, i);
    }
}

/// An answer of fewer than two words tells no version; another version than the fourth is not
/// supported.
pub proof fn law_other_versions_are_refused(output: &str, r: PortResult<OmarchyVersion>)
    requires
        call_ensures(parse_package_version, (output,), r),
    ensures
        words(output@).len() < 2 ==> (r matches Err(error) && error.code@ == "OMARCHY_VERSION_UNKNOWN"@),
        r matches Ok(version) ==> version.major == 4,
        r matches Err(error) ==> !error.retryable && (error.code@ == "OMARCHY_VERSION_UNKNOWN"@
            || error.code@ == "OMARCHY_UNSUPPORTED_VERSION"@),
{
    assert(version_result(r) is Ok <==> r is Ok);
    if let Ok(told) = r {
        assert(version_result(r)->Ok_0 == told@);
        assert(told@.major == told.major as int);
    }
    if let Err(error) = r {
        assert(version_result(r)->Err_0 == error@);
        assert(error@.code == error.code@);
        assert(error@.retryable == error.retryable);
    }
}

/// The package manager is asked for the package; a notification has its summary and its text.
pub proof fn law_what_omarchy_is_asked(query: CommandSpec, notification: Notification, shown: CommandSpec)
    requires
        call_ensures(version_query, (), query),
        call_ensures(notification_spec, (notification,), shown),
    ensures
        query.program@ == "pacman"@ && texts(query.args@) == seq!["-Q"@, "omarchy"@],
        shown.program@ == "omarchy-notification-send"@ && texts(shown.args@) == seq![
            notification.summary@,
            notification.body@,
        ],
{
}

} // verus!
