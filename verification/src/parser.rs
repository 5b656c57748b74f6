//! Reading the lines of one configuration file into a raw table.

use crate::profile::setting;
use crate::table::{section_or_empty, RawProfileTable, StrMap, TableView};
use crate::text::{classify, classify_line, ConfigLine, ConfigLineView};
use vstd::prelude::*;

verus! {

/// What the parser knows after some lines: the table so far and the profile
/// that the last header opened.
pub ghost struct ParseState {
    pub table: TableView,
    pub current: Option<Seq<char>>,
}

/// The effect of one line. A header opens its profile and adds nothing to
/// the table; an assignment is recorded under the open profile and dropped
/// where none is open; every other line changes nothing.
pub open spec fn parse_step(state: ParseState, line: Seq<char>) -> ParseState {
    match classify(line) {
        ConfigLineView::Ignored => state,
        ConfigLineView::Header(name) => ParseState { table: state.table, current: Some(name) },
        ConfigLineView::Assignment(key, value) => match state.current {
            Some(profile) => ParseState {
                table: state.table.insert(
                    profile,
                    section_or_empty(state.table, profile).insert(key, value),
                ),
                current: state.current,
            },
            None => state,
        },
    }
}

/// The state after all of `lines`, read in order from the empty state.
pub open spec fn parse_state(lines: Seq<Seq<char>>) -> ParseState
    decreases lines.len(),
{
    if lines.len() == 0 {
        ParseState { table: Map::empty(), current: None }
    } else {
        parse_step(parse_state(lines.drop_last()), lines.last())
    }
}

/// The table that `lines` describe.
pub open spec fn parsed_table(lines: Seq<Seq<char>>) -> TableView {
    parse_state(lines).table
}

/// Parses the lines of a configuration file into a table of profiles.
pub fn parse_config_file(lines: &Vec<String>) -> (table: RawProfileTable)
    ensures
        table@ == parsed_table(lines.deep_view()),
{
    let mut table: RawProfileTable = StrMap::new();
    let mut current: Option<String> = None;
    let ghost all = lines.deep_view();
    for i in 0..lines.len()
        invariant
            all == lines.deep_view(),
            table@ == parse_state(all.take(i as int)).table,
            current.deep_view() == parse_state(all.take(i as int)).current,
    {
        proof {
            assert(all.take(i + 1).drop_last() =~= all.take(i as int));
        }
        match classify_line(lines[i].as_str()) {
            ConfigLine::Ignored => {},
            ConfigLine::Header(name) => {
                current = Some(name);
            },
            ConfigLine::Assignment(key, value) => {
                if let Some(profile) = &current {
                    table.insert_into(profile.as_str(), key, value);
                }
            },
        }
    }
    assert(all.take(lines@.len() as int) =~= all);
    table
}

/// The profile that is open when line `i` is read: the one that the last
/// header before that line names.
pub open spec fn open_profile(lines: Seq<Seq<char>>, i: int) -> Option<Seq<char>>
    decreases i,
{
    if i <= 0 || i > lines.len() {
        None
    } else {
        match classify(lines[i - 1]) {
            ConfigLineView::Header(name) => Some(name),
            _ => open_profile(lines, i - 1),
        }
    }
}

/// Whether line `i` sets `key` of `profile`.
pub open spec fn assigns(lines: Seq<Seq<char>>, i: int, profile: Seq<char>, key: Seq<char>) -> bool {
    &&& 0 <= i < lines.len()
    &&& open_profile(lines, i) == Some(profile)
    &&& match classify(lines[i]) {
        ConfigLineView::Assignment(k, _) => k == key,
        _ => false,
    }
}

/// The value that the last of the first `n` lines to set `key` of `profile`
/// gives it.
pub open spec fn last_setting(
    lines: Seq<Seq<char>>,
    n: int,
    profile: Seq<char>,
    key: Seq<char>,
) -> Option<Seq<char>>
    decreases n,
{
    if n <= 0 || n > lines.len() {
        None
    } else if assigns(lines, n - 1, profile, key) {
        Some(classify(lines[n - 1])->Assignment_1)
    } else {
        last_setting(lines, n - 1, profile, key)
    }
}

/// The value of `key` in `profile`, where the table has both.
pub open spec fn table_setting(table: TableView, profile: Seq<char>, key: Seq<char>) -> Option<
    Seq<char>,
> {
    if table.contains_key(profile) {
        setting(table[profile], key)
    } else {
        None
    }
}

/// `last_setting` finds the last line that sets the key, and finds nothing
/// only where no line sets it.
pub proof fn lemma_last_setting(lines: Seq<Seq<char>>, n: int, profile: Seq<char>, key: Seq<char>)
    requires
        0 <= n <= lines.len(),
    ensures
        match last_setting(lines, n, profile, key) {
            Some(value) => exists|i: int|
                0 <= i < n && #[trigger] assigns(lines, i, profile, key) && classify(lines[i])
                    == ConfigLineView::Assignment(key, value) && forall|j: int|
                    i < j < n ==> !#[trigger] assigns(lines, j, profile, key),
            None => forall|i: int| 0 <= i < n ==> !#[trigger] assigns(lines, i, profile, key),
        },
    decreases n,
{
    if n > 0 && !assigns(lines, n - 1, profile, key) {
        lemma_last_setting(lines, n - 1, profile, key);
        if let Some(value) = last_setting(lines, n - 1, profile, key) {
            let i = choose|i: int|
                0 <= i < n - 1 && #[trigger] assigns(lines, i, profile, key) && classify(lines[i])
                    == ConfigLineView::Assignment(key, value) && forall|j: int|
                    i < j < n - 1 ==> !#[trigger] assigns(lines, j, profile, key);
            assert forall|j: int| i < j < n implies !#[trigger] assigns(lines, j, profile, key) by {}
        }
    }
}

/// The state after the first `n` lines, read off the lines themselves.
proof fn lemma_parse_prefix(lines: Seq<Seq<char>>, n: int, profile: Seq<char>, key: Seq<char>)
    requires
        0 <= n <= lines.len(),
    ensures
        parse_state(lines.take(n)).current == open_profile(lines, n),
        table_setting(parse_state(lines.take(n)).table, profile, key) == last_setting(
            lines,
            n,
            profile,
            key,
        ),
        parse_state(lines.take(n)).table.contains_key(profile) ==> exists|k: Seq<char>|
            parse_state(lines.take(n)).table[profile].contains_key(k),
    decreases n,
{
    if n > 0 {
        lemma_parse_prefix(lines, n - 1, profile, key);
        assert(lines.take(n).drop_last() =~= lines.take(n - 1));
        if let ConfigLineView::Assignment(k, _) = classify(lines[n - 1]) {
            if parse_state(lines.take(n - 1)).current == Some(profile) {
                assert(parse_state(lines.take(n)).table[profile].contains_key(k));
            }
        }
    }
}

/// The table holds exactly what the lines set. A key of a profile is in
/// the table where some line sets it, that is, where an assignment to it
/// stands under a header of that profile; its value is that of the last
/// such line. A profile is in the table only with at least one key.
pub proof fn lemma_table_holds_last_settings(
    lines: Seq<Seq<char>>,
    profile: Seq<char>,
    key: Seq<char>,
)
    ensures
        table_setting(parsed_table(lines), profile, key) == last_setting(
            lines,
            lines.len() as int,
            profile,
            key,
        ),
        table_setting(parsed_table(lines), profile, key) is Some <==> exists|i: int| #[trigger]
            assigns(lines, i, profile, key),
        parsed_table(lines).contains_key(profile) ==> exists|k: Seq<char>|
            parsed_table(lines)[profile].contains_key(k),
{
    let n = lines.len() as int;
    lemma_parse_prefix(lines, n, profile, key);
    assert(lines.take(n) =~= lines);
    lemma_last_setting(lines, n, profile, key);
}

/// A line that is ignored can be taken out of the file: the lines before
/// and after it give the same table with it and without it.
pub proof fn lemma_ignored_line_changes_nothing(
    before: Seq<Seq<char>>,
    line: Seq<char>,
    after: Seq<Seq<char>>,
)
    requires
        classify(line) == ConfigLineView::Ignored,
    ensures
        parse_state(before.push(line) + after) == parse_state(before + after),
    decreases after.len(),
{
    if after.len() == 0 {
        assert(before.push(line).drop_last() =~= before);
    } else {
        lemma_ignored_line_changes_nothing(before, line, after.drop_last());
        assert((before.push(line) + after).drop_last() =~= before.push(line) + after.drop_last());
        assert((before + after).drop_last() =~= before + after.drop_last());
    }
}

} // verus!
