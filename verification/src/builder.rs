//! Building the table of resolved profiles from the configuration files.

use crate::error::{ErrorView, StsClientError};
use crate::instance::{chosen_profile, select_instance, InstanceView};
use crate::parser::{parse_config_file, parsed_table, table_setting};
use crate::profile::{resolve, setting, AwsProfileInfo, ProfileMap, ProfileView};
use crate::table::{section_or_empty, RawProfileTable, StrMap, TableView};
use vstd::prelude::*;

verus! {

/// Where the configuration files are looked for.
#[derive(Debug)]
pub enum ConfigLocation<P> {
    /// In this directory, which the caller named.
    Directory(P),
    /// In the well-known subdirectory of this home directory.
    HomeSubdirectory(P),
}

/// Name of the subdirectory of the home directory that holds the files.
pub const HOME_SUBDIRECTORY: &'static str = ".aws";

/// Name of the file that is read first.
pub const CONFIG_FILE: &'static str = "config";

/// Name of the file that is read second.
pub const CREDENTIALS_FILE: &'static str = "credentials";

/// Chooses where to look for the configuration files: a directory that the
/// caller names comes first, the home directory second; with neither there
/// is nowhere to look.
pub fn locate_config_dir<P>(named: Option<P>, home: Option<P>) -> (r: Result<
    ConfigLocation<P>,
    StsClientError,
>)
    ensures
        r == match (named, home) {
            (Some(dir), _) => Ok::<ConfigLocation<P>, StsClientError>(
                ConfigLocation::Directory(dir),
            ),
            (None, Some(dir)) => Ok(ConfigLocation::HomeSubdirectory(dir)),
            (None, None) => Err(StsClientError::NoHomeError),
        },
{
    match named {
        Some(dir) => Ok(ConfigLocation::Directory(dir)),
        None => match home {
            Some(dir) => Ok(ConfigLocation::HomeSubdirectory(dir)),
            None => Err(StsClientError::NoHomeError),
        },
    }
}

/// The tables of two files as one: a profile of either file is there; where
/// both files have it, it has the keys of both, and a key that both set has
/// the second file's value.
pub open spec fn merge_tables(first: TableView, second: TableView) -> TableView {
    Map::new(
        |p: Seq<char>| first.contains_key(p) || second.contains_key(p),
        |p: Seq<char>|
            section_or_empty(first, p).union_prefer_right(section_or_empty(second, p)),
    )
}

/// The records of all profiles of `table` that resolve.
pub open spec fn resolve_all(table: TableView) -> Map<Seq<char>, ProfileView> {
    Map::new(
        |p: Seq<char>| table.contains_key(p) && resolve(p, table) is Some,
        |p: Seq<char>| resolve(p, table)->0,
    )
}

/// The table of a file that may be missing: a missing file has no profiles.
pub open spec fn file_table(lines: Option<Seq<Seq<char>>>) -> TableView {
    match lines {
        Some(l) => parsed_table(l),
        None => Map::empty(),
    }
}

/// The keys at the positions before `i`.
spec fn keys_before(keys: Seq<Seq<char>>, i: int) -> Set<Seq<char>> {
    Set::new(|k: Seq<char>| exists|j: int| 0 <= j < i && keys[j] == k)
}

/// One more position adds its key, which was not there before.
proof fn lemma_keys_before_step(keys: Seq<Seq<char>>, i: int)
    requires
        0 <= i < keys.len(),
        keys.no_duplicates(),
    ensures
        keys_before(keys, i + 1) == keys_before(keys, i).insert(keys[i]),
        !keys_before(keys, i).contains(keys[i]),
        keys_before(keys, 0) == Set::<Seq<char>>::empty(),
{
    assert forall|k: Seq<char>|
        keys_before(keys, i + 1).contains(k) <==> keys_before(keys, i).insert(keys[i]).contains(
            k,
        ) by {}
}

/// A map whose keys are all listed loses nothing when it is restricted
/// to the keys at all positions.
proof fn lemma_keys_before_all<T>(keys: Seq<Seq<char>>, m: Map<Seq<char>, T>)
    requires
        forall|k: Seq<char>| #[trigger] m.contains_key(k) ==> keys.contains(k),
    ensures
        m.restrict(keys_before(keys, keys.len() as int)) == m,
{
    assert forall|k: Seq<char>| m.contains_key(k) implies keys_before(
        keys,
        keys.len() as int,
    ).contains(k) by {}
}

/// Adds the settings of `section` to the profile `name` of `base`.
fn merge_section(base: &mut RawProfileTable, name: &String, section: &StrMap<String>)
    ensures
        final(base)@ == old(base)@.insert(
            name@,
            section_or_empty(old(base)@, name@).union_prefer_right(section@),
        ),
{
    if !base.contains_key(name.as_str()) {
        base.insert(name.clone(), StrMap::new());
    }
    let ghost start = section_or_empty(old(base)@, name@);
    let n = section.len();
    let ghost keys = section.keys();
    let mut j: usize = 0;
    proof {
        assert(start.union_prefer_right(section@.restrict(keys_before(keys, 0))) =~= start);
    }
    while j < n
        invariant
            j <= n == keys.len(),
            keys == section.keys(),
            keys.no_duplicates(),
            forall|k: Seq<char>| #[trigger] section@.contains_key(k) <==> keys.contains(k),
            base@ == old(base)@.insert(
                name@,
                start.union_prefer_right(section@.restrict(keys_before(keys, j as int))),
            ),
        decreases n - j,
    {
        if let Some((key, value)) = section.entry_at(j) {
            proof {
                lemma_keys_before_step(keys, j as int);
                assert(start.union_prefer_right(
                    section@.restrict(keys_before(keys, j as int)),
                ).insert(key@, value@) =~= start.union_prefer_right(
                    section@.restrict(keys_before(keys, j + 1)),
                ));
            }
            base.insert_into(name.as_str(), key.clone(), value.clone());
        }
        j += 1;
    }
    proof {
        lemma_keys_before_all(keys, section@);
    }
}

/// Merges the table of a later file into `base`.
pub fn merge_profile_tables(base: &mut RawProfileTable, later: &RawProfileTable)
    ensures
        final(base)@ == merge_tables(old(base)@, later@),
{
    let n = later.len();
    let ghost keys = later.keys();
    let ghost first = old(base)@;
    let mut i: usize = 0;
    proof {
        assert(base@ =~~= merge_tables(first, later@.restrict(keys_before(keys, 0))));
    }
    while i < n
        invariant
            i <= n == keys.len(),
            keys == later.keys(),
            keys.no_duplicates(),
            forall|k: Seq<char>| #[trigger] later@.contains_key(k) <==> keys.contains(k),
            base@ == merge_tables(first, later@.restrict(keys_before(keys, i as int))),
        decreases n - i,
    {
        if let Some((name, section)) = later.entry_at(i) {
            merge_section(base, name, section);
            proof {
                lemma_keys_before_step(keys, i as int);
                let next = later@.restrict(keys_before(keys, i + 1));
                assert(base@ =~~= merge_tables(first, next)) by {
                    assert forall|p: Seq<char>| #[trigger]
                        merge_tables(first, next).contains_key(p) implies base@[p]
                        =~= merge_tables(first, next)[p] by {}
                }
            }
        }
        i += 1;
    }
    proof {
        lemma_keys_before_all(keys, later@);
    }
}

/// Resolves every profile of `table` and keeps those that resolve.
pub fn resolve_profiles(table: &RawProfileTable) -> (profiles: ProfileMap)
    ensures
        profiles@ == resolve_all(table@),
{
    let mut profiles: ProfileMap = StrMap::new();
    let n = table.len();
    let ghost keys = table.keys();
    let mut i: usize = 0;
    while i < n
        invariant
            i <= n == keys.len(),
            keys == table.keys(),
            keys.no_duplicates(),
            forall|k: Seq<char>| #[trigger] table@.contains_key(k) <==> keys.contains(k),
            profiles@ == resolve_all(table@).restrict(keys_before(keys, i as int)),
        decreases n - i,
    {
        if let Some((name, _)) = table.entry_at(i) {
            proof {
                lemma_keys_before_step(keys, i as int);
            }
            if let Some(profile) = AwsProfileInfo::from_hashmap(name.as_str(), table) {
                profiles.insert(name.clone(), profile);
            }
        }
        i += 1;
    }
    proof {
        lemma_keys_before_all(keys, resolve_all(table@));
    }
    profiles
}

/// The profiles that two files with these lines give, either of which may
/// be missing.
pub open spec fn profile_map_of(
    config: Option<Seq<Seq<char>>>,
    credentials: Option<Seq<Seq<char>>>,
) -> Map<Seq<char>, ProfileView> {
    resolve_all(merge_tables(file_table(config), file_table(credentials)))
}

/// The lines of a file that may be missing, as values.
pub open spec fn lines_view(lines: Option<&Vec<String>>) -> Option<Seq<Seq<char>>> {
    match lines {
        Some(l) => Some(l.deep_view()),
        None => None,
    }
}

/// Parses a file that may be missing.
fn parse_optional_file(lines: Option<&Vec<String>>) -> (table: RawProfileTable)
    ensures
        table@ == file_table(lines_view(lines)),
{
    match lines {
        Some(l) => parse_config_file(l),
        None => StrMap::new(),
    }
}

impl AwsProfileInfo {
    /// Builds the resolved profiles from the lines of the `config` file and
    /// of the `credentials` file, in this order; `None` stands for a file
    /// that does not exist.
    pub fn fill_profile_map(
        config: Option<&Vec<String>>,
        credentials: Option<&Vec<String>>,
    ) -> (profiles: ProfileMap)
        ensures
            profiles@ == profile_map_of(lines_view(config), lines_view(credentials)),
    {
        let mut table = parse_optional_file(config);
        let later = parse_optional_file(credentials);
        merge_profile_tables(&mut table, &later);
        resolve_profiles(&table)
    }
}

/// In the merged table a key of a profile has the second file's value
/// where the second file sets it, else the first file's; it is there where
/// either file sets it.
pub proof fn lemma_merge_precedence(
    first: TableView,
    second: TableView,
    profile: Seq<char>,
    key: Seq<char>,
)
    ensures
        table_setting(merge_tables(first, second), profile, key) == match table_setting(
            second,
            profile,
            key,
        ) {
            Some(value) => Some(value),
            None => table_setting(first, profile, key),
        },
{
}

/// Merging with a table that has no profiles changes nothing, on either
/// side.
pub proof fn lemma_merge_with_empty(table: TableView)
    ensures
        merge_tables(table, Map::empty()) == table,
        merge_tables(Map::empty(), table) == table,
{
    assert(merge_tables(table, Map::empty()) =~~= table);
    assert(merge_tables(Map::empty(), table) =~~= table);
}

/// A profile whose source profile is missing from the table is not among
/// the resolved profiles, and asking for it reports it as not available.
pub proof fn lemma_dangling_source_is_excluded(
    table: TableView,
    name: Seq<char>,
    source: Seq<char>,
    ambient: Option<Seq<char>>,
)
    requires
        table.contains_key(name),
        setting(table[name], "source_profile"@) == Some(source),
        !table.contains_key(source),
    ensures
        !resolve_all(table).contains_key(name),
        select_instance(Some(name), ambient, resolve_all(table)) == Err::<InstanceView, ErrorView>(
            ErrorView::StsProfileError(name),
        ),
{
}

/// With both files missing there are no profiles, and whichever profile is
/// asked for is reported as not available.
pub proof fn lemma_missing_files(asked: Option<Seq<char>>, ambient: Option<Seq<char>>)
    ensures
        profile_map_of(None, None) == Map::<Seq<char>, ProfileView>::empty(),
        select_instance(asked, ambient, profile_map_of(None, None)) == Err::<InstanceView, ErrorView>(
            ErrorView::StsProfileError(chosen_profile(asked, ambient)),
        ),
{
}

} // verus!
