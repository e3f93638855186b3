//! The record of the session that this computer controls, and the process that it belongs to.
use vstd::prelude::*;
use vstd::string::*;

use crate::config::{parse_number, parsed_number};
use crate::domain::InputMode;
use crate::ids::{is_random_uuid, SessionId};
use crate::protocol::now_unix_nanos;
use crate::scan::{last_place, rsplit_once, split_last};
use crate::strings::{decimal, push_decimal, texts};
use crate::wrap::{split_whitespace, words};

verus! {

/// A process as it can be told from another with the same number: by when it began.
#[derive(Clone, Copy, Debug, PartialEq, Eq, Structural)]
pub struct SupervisedProcess {
    pub pid: u32,
    pub start_ticks: u64,
}

/// The session that runs. The time is in nanoseconds since the Unix epoch.
#[derive(Debug, PartialEq, Eq)]
pub struct SessionRecord {
    pub session_id: SessionId,
    pub remote_node: String,
    pub input_mode: InputMode,
    pub started_at: i128,
    pub moonlight: Option<SupervisedProcess>,
}

impl SessionRecord {
    /// A record of a session that begins now, under a new number.
    pub fn new(remote_node: String, input_mode: InputMode) -> (r: Self)
        ensures
            is_random_uuid(r.session_id.0),
            r.remote_node == remote_node,
            r.input_mode == input_mode,
            r.moonlight is None,
    {
        SessionRecord {
            session_id: SessionId::new(),
            remote_node,
            input_mode,
            started_at: now_unix_nanos(),
            moonlight: None,
        }
    }
}

/// Whether the record that was read may be removed for a session: only where it is its own.
pub fn owns_record(record: Option<&SessionRecord>, session_id: SessionId) -> (r: bool)
    ensures
        r == (record matches Some(record) && record.session_id == session_id),
{
    match record {
        Some(record) => record.session_id == session_id,
        None => false,
    }
}

pub const START_TIME_FIELDS_AFTER_COMM: usize = 19;

/// When a process began, by the line that the kernel keeps of it: the name of the program stands
/// in parentheses and may hold anything, so what counts stands behind the last of them.
pub open spec fn start_ticks(stat: Seq<char>) -> Option<int> {
    match split_last(stat, ')') {
        Some((_, fields)) => if words(fields).len() > START_TIME_FIELDS_AFTER_COMM {
            parsed_number(words(fields)[START_TIME_FIELDS_AFTER_COMM as int], u64::MAX as int)
        } else {
            None
        },
        None => None,
    }
}

pub open spec fn opt_ticks(r: Option<u64>) -> Option<int> {
    match r {
        Some(n) => Some(n as int),
        None => None,
    }
}

pub fn parse_start_ticks(stat: &str) -> (r: Option<u64>)
    ensures
        opt_ticks(r) == start_ticks(stat@),
{
    match rsplit_once(stat, ')') {
        Some((_, fields)) => {
            let list = split_whitespace(fields.as_str());
            assert(texts(list@).len() == list@.len());
            if list.len() > START_TIME_FIELDS_AFTER_COMM {
                assert(list@[START_TIME_FIELDS_AFTER_COMM as int]@ == words(
                    fields@,
                )[START_TIME_FIELDS_AFTER_COMM as int]);
                parse_number(list[START_TIME_FIELDS_AFTER_COMM].as_str())
            } else {
                None
            }
        },
        None => None,
    }
}

/// Where the kernel keeps the line of a process.
pub fn stat_path(pid: u32) -> (r: String)
    ensures
        r@ == "/proc/"@ + decimal(pid as nat) + "/stat"@,
{
    let mut path = "/proc/".to_owned();
    push_decimal(&mut path, pid as u64);
    path.append("/stat");
    path
}

/// When a process began, where its line could be read.
pub open spec fn observed_ticks(stat: Option<Seq<char>>) -> Option<int> {
    match stat {
        Some(stat) => start_ticks(stat),
        None => None,
    }
}

pub open spec fn opt_line(stat: Option<&str>) -> Option<Seq<char>> {
    match stat {
        Some(stat) => Some(stat@),
        None => None,
    }
}

pub fn process_start_ticks(stat: Option<&str>) -> (r: Option<u64>)
    ensures
        opt_ticks(r) == observed_ticks(opt_line(stat)),
{
    match stat {
        Some(stat) => parse_start_ticks(stat),
        None => None,
    }
}

/// The process of a number, by the line that is there.
pub open spec fn observed(pid: u32, stat: Option<Seq<char>>) -> Option<SupervisedProcess> {
    match observed_ticks(stat) {
        Some(ticks) => Some(SupervisedProcess { pid, start_ticks: ticks as u64 }),
        None => None,
    }
}

/// Whether the line that is there is that of the process.
pub open spec fn still_running(process: SupervisedProcess, stat: Option<Seq<char>>) -> bool {
    observed_ticks(stat) == Some(process.start_ticks as int)
}

impl SupervisedProcess {
    /// The process of that number, by the line that is there now.
    pub fn observe(pid: u32, stat: Option<&str>) -> (r: Option<SupervisedProcess>)
        ensures
            r == observed(pid, opt_line(stat)),
    {
        match process_start_ticks(stat) {
            Some(start_ticks) => Some(SupervisedProcess { pid, start_ticks }),
            None => None,
        }
    }

    /// Whether the line that is there now is still that of this process.
    pub fn is_still_running(&self, stat: Option<&str>) -> (r: bool)
        ensures
            r == still_running(*self, opt_line(stat)),
    {
        match process_start_ticks(stat) {
            Some(ticks) => ticks == self.start_ticks,
            None => false,
        }
    }
}

/// A process that was observed is taken to run just as long as the line of its number tells the
/// same beginning: another process that got the number later is not taken for it.
pub proof fn law_an_observed_process_runs_until_its_line_changes(
    pid: u32,
    first: Option<Seq<char>>,
    later: Option<Seq<char>>,
)
    requires
        observed(pid, first) is Some,
    ensures
        still_running(observed(pid, first)->0, later) <==> observed_ticks(later) == observed_ticks(first),
{
    assert(observed_ticks(first) is Some);
    assert(0 <= observed_ticks(first)->0 <= u64::MAX) by {
        let stat = first->0;
        let parts = split_last(stat, ')')->0;
        let fields = parts.1;
        let word = words(fields)[START_TIME_FIELDS_AFTER_COMM as int];
        let digits = if word.len() > 1 && word[0] == '+' {
            word.drop_first()
        } else {
            word
        };
        crate::strings::lemma_number_grows(digits, digits.len() as int);
    }
}

/// A process is known by when it began: the twentieth word behind the last parenthesis of its line.
/// Whatever the name of the program holds, even parentheses, does not matter.
pub proof fn law_a_process_is_known_by_its_twentieth_field(
    name: Seq<char>,
    fields: Seq<char>,
    line: &str,
    r: Option<u64>,
)
    requires
        line@ == name.push(')') + fields,
        !fields.contains(')'),
        call_ensures(parse_start_ticks, (line,), r),
    ensures
        words(fields).len() < 20 ==> r is None,
        words(fields).len() >= 20 ==> opt_ticks(r) == parsed_number(words(fields)[19], u64::MAX as int),
{
    lemma_last_place(line@, ')', name.len() as int);
    assert(line@.skip(name.len() as int + 1) =~= fields);
}

proof fn lemma_last_place(s: Seq<char>, c: char, i: int)
    requires
        0 <= i < s.len(),
        s[i] == c,
        forall|k: int| i < k < s.len() ==> s[k] != c,
    ensures
        last_place(s, c) == i,
    decreases s.len(),
{
    if i < s.len() - 1 {
        let shorter = s.drop_last();
        assert(s[s.len() - 1] != c);
        assert forall|k: int| i < k < shorter.len() implies shorter[k] != c by {
            assert(s[k] != c);
        }
        lemma_last_place(shorter, c, i);
    }
}

/// A line without a parenthesis is none, and a process without a line does not run.
pub proof fn law_a_process_without_a_line_is_gone(
    process: SupervisedProcess,
    stat: Option<&str>,
    running: bool,
    ticks: Option<u64>,
)
    requires
        call_ensures(SupervisedProcess::is_still_running, (&process, stat), running),
        call_ensures(process_start_ticks, (stat,), ticks),
    ensures
        stat is None ==> !running,
        running <==> ticks == Some(process.start_ticks),
{
}

/// An observed process has the number that was asked for and the beginning that its line tells.
pub proof fn law_a_process_is_observed_by_its_line(
    pid: u32,
    stat: Option<&str>,
    r: Option<SupervisedProcess>,
    ticks: Option<u64>,
)
    requires
        call_ensures(SupervisedProcess::observe, (pid, stat), r),
        call_ensures(process_start_ticks, (stat,), ticks),
    ensures
        r is Some <==> ticks is Some,
        r matches Some(process) ==> process.pid == pid && ticks == Some(process.start_ticks),
{
}

/// Only a session's own record is removed for it.
pub proof fn law_a_record_is_removed_by_its_session(
    record: Option<&SessionRecord>,
    session_id: SessionId,
    r: bool,
)
    requires
        call_ensures(owns_record, (record, session_id), r),
    ensures
        record is None ==> !r,
        record matches Some(kept) ==> (r <==> kept.session_id == session_id),
{
}

/// The line of a process is in its directory.
pub proof fn law_the_line_is_in_the_directory_of_the_process(pid: u32, r: String)
    requires
        call_ensures(stat_path, (pid,), r),
    ensures
        r@ == "/proc/"@ + decimal(pid as nat) + "/stat"@,
{
}

} // verus!
