//! The long-lived key of a profile, ready to sign calls or to assume a role.

use crate::error::{ErrorView, StsClientError};
use crate::profile::{default_region, AwsProfileInfo, ProfileMap, ProfileView};
use crate::provider::{ProviderView, StsAuthProvider};
use vstd::prelude::*;

verus! {

/// The static key pair of a profile with its region and, where the profile
/// assumes a role, the role. It cannot be printed: it holds the secret.
pub struct StsInstance {
    region: String,
    aws_access_key_id: String,
    aws_secret_access_key: String,
    role_arn: Option<String>,
}

/// The mathematical value of an [`StsInstance`].
pub ghost struct InstanceView {
    pub region: Seq<char>,
    pub aws_access_key_id: Seq<char>,
    pub aws_secret_access_key: Seq<char>,
    pub role_arn: Option<Seq<char>>,
}

impl View for StsInstance {
    type V = InstanceView;

    closed spec fn view(&self) -> InstanceView {
        InstanceView {
            region: self.region@,
            aws_access_key_id: self.aws_access_key_id@,
            aws_secret_access_key: self.aws_secret_access_key@,
            role_arn: self.role_arn.deep_view(),
        }
    }
}

/// Name of the profile that is used when none is asked for.
pub open spec fn default_profile() -> Seq<char> {
    "default"@
}

/// The profile to use: the one asked for, else the one that the environment
/// names, else the default one.
pub open spec fn chosen_profile(asked: Option<Seq<char>>, ambient: Option<Seq<char>>) -> Seq<
    char,
> {
    match asked {
        Some(name) => name,
        None => match ambient {
            Some(name) => name,
            None => default_profile(),
        },
    }
}

/// The key pair, region and role of a resolved profile.
pub open spec fn instance_of(profile: ProfileView) -> InstanceView {
    InstanceView {
        region: profile.region,
        aws_access_key_id: profile.aws_access_key_id,
        aws_secret_access_key: profile.aws_secret_access_key,
        role_arn: profile.role_arn,
    }
}

/// What asking for a profile gives: its instance, or the name that was not
/// found.
pub open spec fn select_instance(
    asked: Option<Seq<char>>,
    ambient: Option<Seq<char>>,
    profiles: Map<Seq<char>, ProfileView>,
) -> Result<InstanceView, ErrorView> {
    let name = chosen_profile(asked, ambient);
    if profiles.contains_key(name) {
        Ok(instance_of(profiles[name]))
    } else {
        Err(ErrorView::StsProfileError(name))
    }
}

/// The view of a string that may be absent.
pub open spec fn name_view(name: Option<&str>) -> Option<Seq<char>> {
    match name {
        Some(n) => Some(n@),
        None => None,
    }
}

/// An owned copy of a string that may be absent.
fn copy_optional(value: &Option<String>) -> (r: Option<String>)
    ensures
        r.deep_view() == value.deep_view(),
{
    match value {
        Some(v) => Some(v.clone()),
        None => None,
    }
}

impl Clone for StsInstance {
    fn clone(&self) -> (r: Self)
        ensures
            r@ == self@,
    {
        StsInstance {
            region: self.region.clone(),
            aws_access_key_id: self.aws_access_key_id.clone(),
            aws_secret_access_key: self.aws_secret_access_key.clone(),
            role_arn: copy_optional(&self.role_arn),
        }
    }
}

impl Default for StsInstance {
    fn default() -> (r: Self)
        ensures
            r@ == (InstanceView {
                region: default_region(),
                aws_access_key_id: Seq::empty(),
                aws_secret_access_key: Seq::empty(),
                role_arn: None,
            }),
    {
        StsInstance {
            region: "us-east-1".to_owned(),
            aws_access_key_id: String::new(),
            aws_secret_access_key: String::new(),
            role_arn: None,
        }
    }
}

impl StsInstance {
    /// The instance of a resolved profile. Nothing is looked up: the record
    /// already holds the key that it signs with.
    pub fn from_profile(profile: &AwsProfileInfo) -> (r: Self)
        ensures
            r@ == instance_of(profile@),
    {
        StsInstance {
            region: profile.region.clone(),
            aws_access_key_id: profile.aws_access_key_id.clone(),
            aws_secret_access_key: profile.aws_secret_access_key.clone(),
            role_arn: copy_optional(&profile.role_arn),
        }
    }

    /// Creates the instance of a profile of `profiles`: the one in
    /// `profile_name`, else the one in `ambient_profile` (what the environment
    /// names), else the default profile.
    pub fn new(
        profile_name: Option<&str>,
        ambient_profile: Option<&str>,
        profiles: &ProfileMap,
    ) -> (r: Result<Self, StsClientError>)
        ensures
            match r {
                Ok(instance) => select_instance(
                    name_view(profile_name),
                    name_view(ambient_profile),
                    profiles@,
                ) == Ok::<InstanceView, ErrorView>(instance@),
                Err(e) => select_instance(
                    name_view(profile_name),
                    name_view(ambient_profile),
                    profiles@,
                ) == Err::<InstanceView, ErrorView>(e@),
            },
    {
        let name = match profile_name {
            Some(n) => n,
            None => match ambient_profile {
                Some(n) => n,
                None => "default",
            },
        };
        match profiles.get(name) {
            Some(profile) => Ok(StsInstance::from_profile(profile)),
            None => Err(StsClientError::StsProfileError(name.to_owned())),
        }
    }

    /// The region of the profile, as the profile spells it.
    pub fn get_region(&self) -> (r: String)
        ensures
            r@ == self@.region,
    {
        self.region.clone()
    }

    /// The access key id that signs calls made as this profile.
    pub fn access_key_id(&self) -> (r: &String)
        ensures
            r@ == self@.aws_access_key_id,
    {
        &self.aws_access_key_id
    }

    /// The secret that belongs to the access key id.
    pub fn secret_access_key(&self) -> (r: &String)
        ensures
            r@ == self@.aws_secret_access_key,
    {
        &self.aws_secret_access_key
    }

    /// The role that the profile assumes, if it assumes one.
    pub fn role_arn(&self) -> (r: &Option<String>)
        ensures
            r.deep_view() == self@.role_arn,
    {
        &self.role_arn
    }

    /// A provider of refreshed role credentials, with nothing cached yet.
    /// There is none where the profile assumes no role: its own key is
    /// then used as it is.
    pub fn get_provider(&self) -> (r: Option<StsAuthProvider>)
        ensures
            match r {
                Some(provider) => self@.role_arn is Some && provider@ == (ProviderView {
                    base: self@,
                    role_arn: self@.role_arn->0,
                    cached: None,
                }),
                None => self@.role_arn is None,
            },
    {
        match &self.role_arn {
            Some(role_arn) => Some(StsAuthProvider::new(self.clone(), role_arn.clone())),
            None => None,
        }
    }
}

} // verus!
