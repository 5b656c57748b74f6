//! Resolves the credentials of a named profile from configuration files:
//! the files are parsed and merged into a table of profiles, a profile is
//! resolved to its long-lived key, and the credentials of the role that it
//! assumes are cached and renewed before they expire.

pub mod builder;
pub mod error;
pub mod instance;
pub mod parser;
pub mod profile;
pub mod provider;
pub mod table;
pub mod text;

pub use builder::{locate_config_dir, ConfigLocation};
pub use error::StsClientError;
pub use instance::StsInstance;
pub use profile::{AwsProfileInfo, ProfileMap};
pub use provider::{CacheState, CredentialAction, StsAuthProvider, TemporaryCredentials};
pub use table::{ProfileSection, RawProfileTable, StrMap};
