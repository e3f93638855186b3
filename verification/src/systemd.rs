//! The unit that runs the agent.
use vstd::prelude::*;
use vstd::string::*;

use crate::ports::CommandSpec;
use crate::scan::{after_start, begins_with, starts_with, strip_start};
use crate::strings::{
    chars_of, opt_text, split_text, split_when, text_between, texts, trim_start_when, trim_text, trimmed,
};

verus! {

pub const AGENT_UNIT: &'static str = "omdesky-agent.service";

/// The call that asks which program the unit starts.
pub fn agent_service_query() -> (r: CommandSpec)
    ensures
        r.program@ == "systemctl"@,
        texts(r.args@) == seq!["--user"@, "show"@, AGENT_UNIT@, "--property=ExecStart"@, "--value"@],
        r.has_default_limits(),
        r.environment_policy == crate::ports::EnvironmentPolicy::Session,
{
    let mut args: Vec<String> = Vec::new();
    args.push("--user".to_owned());
    args.push("show".to_owned());
    args.push(AGENT_UNIT.to_owned());
    args.push("--property=ExecStart".to_owned());
    args.push("--value".to_owned());
    assert(texts(args@) =~= seq![
        "--user"@,
        "show"@,
        AGENT_UNIT@,
        "--property=ExecStart"@,
        "--value"@,
    ]);
    CommandSpec::new("systemctl".to_owned(), args)
}

pub open spec fn is_brace() -> spec_fn(char) -> bool {
    |c: char| c == '{'
}

pub open spec fn is_semicolon() -> spec_fn(char) -> bool {
    |c: char| c == ';'
}

/// What the first field that names a path names.
pub open spec fn first_path(fields: Seq<Seq<char>>) -> Option<Seq<char>>
    decreases fields.len(),
{
    if fields.len() == 0 {
        None
    } else {
        match after_start(trimmed(fields[0]), "path="@) {
            Some(path) => Some(path),
            None => first_path(fields.drop_first()),
        }
    }
}

/// The program of a unit: the path among the fields of the property, where it is absolute.
pub open spec fn exec_start(value: Seq<char>) -> Option<Seq<char>> {
    match first_path(split_when(trim_start_when(trimmed(value), is_brace()), is_semicolon())) {
        Some(path) => if begins_with(trimmed(path), "/"@) {
            Some(trimmed(path))
        } else {
            None
        },
        None => None,
    }
}

fn without_braces(text: &str) -> (r: String)
    ensures
        r@ == trim_start_when(text@, is_brace()),
{
    let v = chars_of(text);
    let mut from: usize = 0;
    assert(text@.skip(0) =~= text@);
    while from < v.len() && v[from] == '{'
        invariant
            v@ == text@,
            from <= v@.len(),
            trim_start_when(text@, is_brace()) == trim_start_when(text@.skip(from as int), is_brace()),
        decreases v@.len() - from,
    {
        assert(text@.skip(from as int).drop_first() =~= text@.skip(from + 1));
        from += 1;
    }
    let r = text_between(&v, from, v.len());
    assert(r@ =~= text@.skip(from as int));
    r
}

fn is_field_end(c: char) -> (r: bool)
    ensures
        r == (c == ';'),
{
    c == ';'
}

fn find_path(fields: &Vec<String>) -> (r: Option<String>)
    ensures
        opt_text(r) == first_path(texts(fields@)),
{
    let ghost all = texts(fields@);
    let mut i: usize = 0;
    assert(all.skip(0) =~= all);
    while i < fields.len()
        invariant
            all == texts(fields@),
            i <= fields@.len(),
            first_path(all) == first_path(all.skip(i as int)),
        decreases fields@.len() - i,
    {
        assert(all.skip(i as int)[0] == fields@[i as int]@);
        assert(all.skip(i as int).drop_first() =~= all.skip(i + 1));
        let path = strip_start(trim_text(fields[i].as_str()).as_str(), "path=");
        if path.is_some() {
            return path;
        }
        i += 1;
    }
    None
}

pub fn parse_exec_start(value: &str) -> (r: Option<String>)
    ensures
        opt_text(r) == exec_start(value@),
{
    let text = without_braces(trim_text(value).as_str());
    let fields = split_text(text.as_str(), is_field_end, Ghost(is_semicolon()));
    match find_path(&fields) {
        Some(path) => {
            let path = trim_text(path.as_str());
            if starts_with(path.as_str(), "/") {
                Some(path)
            } else {
                None
            }
        },
        None => None,
    }
}

/// Only an absolute path is taken for the program of the unit.
pub proof fn law_relative_programs_are_not_trusted(value: Seq<char>)
    ensures
        exec_start(value) matches Some(path) ==> path.len() > 0 && path[0] == '/',
{
    reveal_strlit("/");
    match exec_start(value) {
        Some(path) => {
            assert(path.take(1)[0] == "/"@[0]);
        },
        None => {},
    }
}

/// The property is asked of the unit of the agent, as the user's own.
pub proof fn law_the_unit_is_asked_for_its_program(r: CommandSpec)
    requires
        call_ensures(agent_service_query, (), r),
    ensures
        r.program@ == "systemctl"@,
        texts(r.args@) == seq![
            "--user"@,
            "show"@,
            "omdesky-agent.service"@,
            "--property=ExecStart"@,
            "--value"@,
        ],
{
}

/// The program is what the first field that begins with `path=` names, without the space around it,
/// where that is absolute; fields before it that name no path do not count.
pub proof fn law_the_first_path_is_the_program(fields: Seq<Seq<char>>, i: int)
    requires
        0 <= i < fields.len(),
        forall|k: int| 0 <= k < i ==> !begins_with(trimmed(#[trigger] fields[k]), "path="@),
        begins_with(trimmed(fields[i]), "path="@),
    ensures
        first_path(fields) == Some(trimmed(fields[i]).skip(5)),
    decreases i,
{
    reveal_strlit("path=");
    if i > 0 {
        let rest = fields.drop_first();
        assert(!begins_with(trimmed(fields[0]), "path="@));
        assert forall|k: int| 0 <= k < i - 1 implies !begins_with(trimmed(#[trigger] rest[k]), "path="@) by {
            assert(rest[k] == fields[k + 1]);
        }
        assert(rest[i - 1] == fields[i]);
        law_the_first_path_is_the_program(rest, i - 1);
    }
}

/// The program that is read from a property is absolute, and is the path of the first field that has
/// one, where fields end at semicolons.
pub proof fn law_a_program_is_read_from_its_property(value: &str, r: Option<String>, fields: Seq<Seq<char>>)
    requires
        call_ensures(parse_exec_start, (value,), r),
        fields == split_when(
            trim_start_when(trimmed(value@), |c: char| c == '{'),
            |c: char| c == ';',
        ),
    ensures
        r matches Some(path) ==> path@.len() > 0 && path@[0] == '/' && first_path(fields) is Some
            && path@ == trimmed(first_path(fields)->0),
        r is None ==> first_path(fields) is None || !begins_with(trimmed(first_path(fields)->0), "/"@),
{
    law_relative_programs_are_not_trusted(value@);
}

} // verus!
