//! Reading the configured rule groups out of the text of a configuration file.

use vstd::prelude::*;
use crate::error::FatalError;
use crate::text::{chars_of, string_of, trim, trimmed};

verus! {

/// The pieces of `s` between its line feeds: one more piece than there are line feeds.
pub open spec fn split_lines(s: Seq<char>) -> Seq<Seq<char>>
    decreases s.len(),
{
    if s.len() == 0 {
        seq![Seq::<char>::empty()]
    } else {
        let before = split_lines(s.drop_last());
        if s.last() == '\n' {
            before.push(Seq::<char>::empty())
        } else {
            before.drop_last().push(before.last().push(s.last()))
        }
    }
}

/// The group identifiers that a list of lines yields: every line trimmed, those
/// of which nothing is left dropped, in order.
pub open spec fn group_ids_of_lines(lines: Seq<Seq<char>>) -> Seq<Seq<char>> {
    lines.map_values(|line: Seq<char>| trimmed(line)).filter(|id: Seq<char>| id.len() > 0)
}

/// The group identifiers that the text of a configuration file names.
pub open spec fn security_group_ids(contents: Seq<char>) -> Seq<Seq<char>> {
    group_ids_of_lines(split_lines(contents))
}

proof fn lemma_group_ids_push(lines: Seq<Seq<char>>, line: Seq<char>)
    ensures
        group_ids_of_lines(lines.push(line)) == if trimmed(line).len() > 0 {
            group_ids_of_lines(lines).push(trimmed(line))
        } else {
            group_ids_of_lines(lines)
        },
{
    let tidy = |line: Seq<char>| trimmed(line);
    let keep = |id: Seq<char>| id.len() > 0;
    assert(lines.push(line).map_values(tidy) =~= lines.map_values(tidy).push(trimmed(line)));
    lines.map_values(tidy).lemma_filter_push(trimmed(line), keep);
}

/// Appends the identifier on `line`, if trimming leaves any of it.
fn push_group(groups: &mut Vec<String>, line: &Vec<char>, Ghost(lines): Ghost<Seq<Seq<char>>>)
    requires
        old(groups).deep_view() == group_ids_of_lines(lines),
    ensures
        final(groups).deep_view() == group_ids_of_lines(lines.push(line@)),
{
    proof {
        lemma_group_ids_push(lines, line@);
    }
    let id = trim(line);
    if id.len() > 0 {
        groups.push(string_of(&id));
        assert(groups.deep_view() =~= group_ids_of_lines(lines).push(trimmed(line@)));
    }
}

/// Reads the rule groups from the text of a configuration file: one identifier per
/// line, trimmed, lines of which trimming leaves nothing left out. A text that
/// names no group is a configuration error.
pub fn parse_security_groups(contents: &str) -> (result: Result<Vec<String>, FatalError>)
    ensures
        match result {
            Ok(groups) => {
                &&& groups.deep_view() == security_group_ids(contents@)
                &&& groups.len() > 0
            },
            Err(e) => {
                &&& e is NoSecurityGroups
                &&& security_group_ids(contents@).len() == 0
            },
        },
{
    let chars = chars_of(contents);
    let mut groups: Vec<String> = Vec::new();
    let mut current: Vec<char> = Vec::new();
    let ghost mut lines: Seq<Seq<char>> = Seq::empty();
    let mut i: usize = 0;
    assert(chars@.take(0) =~= Seq::<char>::empty());
    assert(split_lines(chars@.take(0)) =~= lines.push(current@));
    assert(groups.deep_view() =~= group_ids_of_lines(lines)) by {
        reveal(Seq::filter);
    }
    while i < chars.len()
        invariant
            i <= chars.len(),
            split_lines(chars@.take(i as int)) == lines.push(current@),
            groups.deep_view() == group_ids_of_lines(lines),
        decreases chars.len() - i,
    {
        let c = chars[i];
        proof {
            assert(chars@.take(i + 1).drop_last() =~= chars@.take(i as int));
            assert(chars@.take(i + 1).last() == c);
            assert(lines.push(current@).drop_last() =~= lines);
        }
        if c == '\n' {
            push_group(&mut groups, &current, Ghost(lines));
            proof {
                lines = lines.push(current@);
            }
            current = Vec::new();
        } else {
            current.push(c);
        }
        i += 1;
    }
    assert(chars@.take(chars.len() as int) =~= chars@);
    push_group(&mut groups, &current, Ghost(lines));
    if groups.len() == 0 {
        Err(FatalError::NoSecurityGroups)
    } else {
        Ok(groups)
    }
}

/// The name of the configuration file in the user's home directory.
pub const DEFAULT_CONFIG_FILE: &'static str = ".ssh-me-in";

/// Settles where the configuration is read from: the location that the operator
/// gave, else the default one in the user's home directory, if that is known.
pub fn get_config_location<P>(explicit: Option<P>, home_default: Option<P>) -> (result: Result<
    P,
    FatalError,
>)
    ensures
        match explicit {
            Some(location) => result == Ok::<P, FatalError>(location),
            None => match home_default {
                Some(location) => result == Ok::<P, FatalError>(location),
                None => result is Err && result->Err_0 is ConfigLocationUnknown,
            },
        },
{
    match explicit {
        Some(location) => Ok(location),
        None => match home_default {
            Some(location) => Ok(location),
            None => Err(FatalError::ConfigLocationUnknown),
        },
    }
}

/// Reads the rule groups of a run from what the configuration file holds;
/// `None` stands for a file that does not exist.
pub fn get_security_groups(contents: Option<&str>) -> (result: Result<Vec<String>, FatalError>)
    ensures
        match contents {
            None => result is Err && result->Err_0 is ConfigFileMissing,
            Some(text) => match result {
                Ok(groups) => {
                    &&& groups.deep_view() == security_group_ids(text@)
                    &&& groups.len() > 0
                },
                Err(e) => {
                    &&& e is NoSecurityGroups
                    &&& security_group_ids(text@).len() == 0
                },
            },
        },
{
    match contents {
        None => Err(FatalError::ConfigFileMissing),
        Some(text) => parse_security_groups(text),
    }
}

} // verus!
