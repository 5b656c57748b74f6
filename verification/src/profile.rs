//! Profile records and how one is resolved from the raw table.

use crate::table::{RawProfileTable, SectionView, StrMap, TableView};
use vstd::prelude::*;

verus! {

/// Profile meta-data: either a profile with an access key of its own, or one
/// that assumes a role with the key of its source profile.
#[derive(Debug)]
pub struct AwsProfileInfo {
    pub name: String,
    pub region: String,
    pub aws_access_key_id: String,
    pub aws_secret_access_key: String,
    pub role_arn: Option<String>,
    pub source_profile: Option<String>,
}

/// The mathematical value of an [`AwsProfileInfo`].
pub ghost struct ProfileView {
    pub name: Seq<char>,
    pub region: Seq<char>,
    pub aws_access_key_id: Seq<char>,
    pub aws_secret_access_key: Seq<char>,
    pub role_arn: Option<Seq<char>>,
    pub source_profile: Option<Seq<char>>,
}

/// The resolved profiles by name.
pub type ProfileMap = StrMap<AwsProfileInfo>;

impl View for AwsProfileInfo {
    type V = ProfileView;

    open spec fn view(&self) -> ProfileView {
        ProfileView {
            name: self.name@,
            region: self.region@,
            aws_access_key_id: self.aws_access_key_id@,
            aws_secret_access_key: self.aws_secret_access_key@,
            role_arn: self.role_arn.deep_view(),
            source_profile: self.source_profile.deep_view(),
        }
    }
}

impl Clone for AwsProfileInfo {
    fn clone(&self) -> (r: Self)
        ensures
            r@ == self@,
    {
        AwsProfileInfo {
            name: self.name.clone(),
            region: self.region.clone(),
            aws_access_key_id: self.aws_access_key_id.clone(),
            aws_secret_access_key: self.aws_secret_access_key.clone(),
            role_arn: copy_setting(self.role_arn.as_ref()),
            source_profile: copy_setting(self.source_profile.as_ref()),
        }
    }
}

impl Default for AwsProfileInfo {
    fn default() -> (r: Self)
        ensures
            r@ == (ProfileView {
                name: Seq::empty(),
                region: Seq::empty(),
                aws_access_key_id: Seq::empty(),
                aws_secret_access_key: Seq::empty(),
                role_arn: None,
                source_profile: None,
            }),
    {
        AwsProfileInfo {
            name: String::new(),
            region: String::new(),
            aws_access_key_id: String::new(),
            aws_secret_access_key: String::new(),
            role_arn: None,
            source_profile: None,
        }
    }
}

/// Region of a profile that names none.
pub open spec fn default_region() -> Seq<char> {
    "us-east-1"@
}

/// The value of `key` in a section, if it is set.
pub open spec fn setting(section: SectionView, key: Seq<char>) -> Option<Seq<char>> {
    if section.contains_key(key) {
        Some(section[key])
    } else {
        None
    }
}

/// Key id and secret of a profile. Where it names a source profile that sets
/// both, they are the source's; in every other case they are the profile's
/// own, as far as it has them.
pub open spec fn key_material(own: SectionView, source: Option<SectionView>) -> (
    Option<Seq<char>>,
    Option<Seq<char>>,
) {
    match source {
        Some(src) if src.contains_key("aws_access_key_id"@) && src.contains_key(
            "aws_secret_access_key"@,
        ) => (Some(src["aws_access_key_id"@]), Some(src["aws_secret_access_key"@])),
        _ => (setting(own, "aws_access_key_id"@), setting(own, "aws_secret_access_key"@)),
    }
}

/// The record of profile `name` in `table`. There is none where the table
/// lacks the profile, where the profile names a source profile that the
/// table lacks, or where key id or secret end up missing or empty. Only the
/// source profile's own settings are read: its source is not followed.
pub open spec fn resolve(name: Seq<char>, table: TableView) -> Option<ProfileView> {
    if !table.contains_key(name) {
        None
    } else {
        let own = table[name];
        let source_profile = setting(own, "source_profile"@);
        if source_profile is Some && !table.contains_key(source_profile->0) {
            None
        } else {
            let source = match source_profile {
                Some(s) => Some(table[s]),
                None => None,
            };
            match key_material(own, source) {
                (Some(id), Some(secret)) if id.len() > 0 && secret.len() > 0 => Some(
                    ProfileView {
                        name,
                        region: match setting(own, "region"@) {
                            Some(r) => r,
                            None => default_region(),
                        },
                        aws_access_key_id: id,
                        aws_secret_access_key: secret,
                        role_arn: setting(own, "role_arn"@),
                        source_profile,
                    },
                ),
                _ => None,
            }
        }
    }
}

/// An owned copy of a setting.
fn copy_setting(value: Option<&String>) -> (r: Option<String>)
    ensures
        r.deep_view() == match value {
            Some(v) => Some(v@),
            None => None,
        },
{
    match value {
        Some(v) => Some(v.clone()),
        None => None,
    }
}

impl AwsProfileInfo {
    /// Resolves the profile `profile_name` of `profile_map`, borrowing the key
    /// of its source profile where it names one.
    pub fn from_hashmap(profile_name: &str, profile_map: &RawProfileTable) -> (r: Option<Self>)
        ensures
            match r {
                Some(p) => resolve(profile_name@, profile_map@) == Some(p@),
                None => resolve(profile_name@, profile_map@) is None,
            },
    {
        let own = match profile_map.get(profile_name) {
            Some(p) => p,
            None => {
                return None;
            },
        };
        let region = match own.get("region") {
            Some(r) => r.clone(),
            None => "us-east-1".to_owned(),
        };
        let source_profile = copy_setting(own.get("source_profile"));
        let role_arn = copy_setting(own.get("role_arn"));
        let mut access_key = own.get("aws_access_key_id");
        let mut access_secret = own.get("aws_secret_access_key");
        if let Some(s) = &source_profile {
            let source = match profile_map.get(s.as_str()) {
                Some(p) => p,
                None => {
                    return None;
                },
            };
            match (source.get("aws_access_key_id"), source.get("aws_secret_access_key")) {
                (Some(id), Some(secret)) => {
                    access_key = Some(id);
                    access_secret = Some(secret);
                },
                _ => {},
            }
        }
        match (access_key, access_secret) {
            (Some(id), Some(secret)) => {
                if id.as_str().is_empty() || secret.as_str().is_empty() {
                    None
                } else {
                    Some(
                        AwsProfileInfo {
                            name: profile_name.to_owned(),
                            region,
                            aws_access_key_id: id.clone(),
                            aws_secret_access_key: secret.clone(),
                            role_arn,
                            source_profile,
                        },
                    )
                }
            },
            _ => None,
        }
    }
}

/// A profile that names a source profile which sets both key id and secret,
/// neither of them empty, resolves to the source's key id and secret,
/// whatever it sets itself.
pub proof fn lemma_source_profile_supplies_key(
    table: TableView,
    name: Seq<char>,
    source: Seq<char>,
)
    requires
        table.contains_key(name),
        setting(table[name], "source_profile"@) == Some(source),
        table.contains_key(source),
        table[source].contains_key("aws_access_key_id"@),
        table[source].contains_key("aws_secret_access_key"@),
        table[source]["aws_access_key_id"@].len() > 0,
        table[source]["aws_secret_access_key"@].len() > 0,
    ensures
        resolve(name, table) is Some,
        resolve(name, table)->0.aws_access_key_id == table[source]["aws_access_key_id"@],
        resolve(name, table)->0.aws_secret_access_key == table[source]["aws_secret_access_key"@],
        resolve(name, table)->0.source_profile == Some(source),
{
}

/// A profile that names a source profile which the table lacks does not
/// resolve, whatever it sets itself.
pub proof fn lemma_dangling_source_profile(table: TableView, name: Seq<char>, source: Seq<char>)
    requires
        table.contains_key(name),
        setting(table[name], "source_profile"@) == Some(source),
        !table.contains_key(source),
    ensures
        resolve(name, table) is None,
{
}

/// A record that resolves has a key id and a secret that are not empty, and
/// carries the name that it was asked under.
pub proof fn lemma_resolved_has_key(table: TableView, name: Seq<char>)
    requires
        resolve(name, table) is Some,
    ensures
        table.contains_key(name),
        resolve(name, table)->0.name == name,
        resolve(name, table)->0.aws_access_key_id.len() > 0,
        resolve(name, table)->0.aws_secret_access_key.len() > 0,
{
}

} // verus!
