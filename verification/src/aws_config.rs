//! An access key pair, and the two kinds of configuration document.

use crate::rotate_error::RotateError;
use vstd::prelude::*;

verus! {

/// An access key: its identifier and its secret. A rotation never edits
/// one in place; it produces a new value.
#[derive(Debug)]
pub struct AWSConfig {
    pub access_key_id: String,
    pub secret_access_key: String,
}

impl View for AWSConfig {
    type V = (Seq<char>, Seq<char>);

    /// The identifier and the secret, as text.
    open spec fn view(&self) -> (Seq<char>, Seq<char>) {
        (self.access_key_id@, self.secret_access_key@)
    }
}

impl AWSConfig {
    /// A key pair with the given identifier and secret.
    pub fn new(access_key: &str, secret_key: &str) -> (c: Self)
        ensures
            c@ == (access_key@, secret_key@),
    {
        AWSConfig { access_key_id: access_key.to_owned(), secret_access_key: secret_key.to_owned() }
    }

    /// The text shown to the user: `AK: <identifier>, SK: <secret>`.
    pub fn to_string(&self) -> (s: String)
        ensures
            s@ == "AK: "@ + self.access_key_id@ + ", SK: "@ + self.secret_access_key@,
    {
        let mut s: String = "AK: ".to_owned();
        s.append(self.access_key_id.as_str());
        s.append(", SK: ");
        s.append(self.secret_access_key.as_str());
        s
    }
}

impl Clone for AWSConfig {
    fn clone(&self) -> (c: Self)
        ensures
            c == *self,
    {
        AWSConfig {
            access_key_id: self.access_key_id.clone(),
            secret_access_key: self.secret_access_key.clone(),
        }
    }
}

/// Which of the two configuration documents is meant.
#[derive(Debug, Clone, Copy, PartialEq, Eq, Structural)]
pub enum ConfigType {
    /// The document that holds the key pairs.
    Credentials,
    /// The document that lists the profiles.
    Config,
}

/// The directory under the home directory that holds both documents.
pub const CONFIG_DIRECTORY: &'static str = ".aws";

/// The message of the error for a home directory that cannot be found.
pub const NO_HOME_DIRECTORY: &'static str = "Failed to find home directory";

impl ConfigType {
    /// The name of the environment variable that overrides the document's
    /// default location.
    pub open spec fn spec_env_var(self) -> Seq<char> {
        match self {
            ConfigType::Credentials => "AWS_SHARED_CREDENTIALS_FILE"@,
            ConfigType::Config => "AWS_CONFIG_FILE"@,
        }
    }

    /// The document's file name under [`CONFIG_DIRECTORY`].
    pub open spec fn spec_file_name(self) -> Seq<char> {
        match self {
            ConfigType::Credentials => "credentials"@,
            ConfigType::Config => "config"@,
        }
    }

    /// The name of the environment variable that overrides the document's
    /// default location.
    pub fn env_var(&self) -> (name: &'static str)
        ensures
            name@ == self.spec_env_var(),
    {
        match self {
            ConfigType::Credentials => "AWS_SHARED_CREDENTIALS_FILE",
            ConfigType::Config => "AWS_CONFIG_FILE",
        }
    }

    /// The document's file name under [`CONFIG_DIRECTORY`].
    pub fn file_name(&self) -> (name: &'static str)
        ensures
            name@ == self.spec_file_name(),
    {
        match self {
            ConfigType::Credentials => "credentials",
            ConfigType::Config => "config",
        }
    }
}

/// Where a configuration document is to be found.
#[derive(Debug)]
pub enum ConfigLocation {
    /// At the path that the environment gives, taken as it stands.
    Given { path: String },
    /// In the file `file` of the directory `directory` under the user's
    /// home directory.
    UnderHome { directory: String, file: String },
}

/// A location, as plain text.
pub enum LocationModel {
    Given(Seq<char>),
    UnderHome(Seq<char>, Seq<char>),
}

impl View for ConfigLocation {
    type V = LocationModel;

    open spec fn view(&self) -> LocationModel {
        match *self {
            ConfigLocation::Given { path } => LocationModel::Given(path@),
            ConfigLocation::UnderHome { directory, file } => LocationModel::UnderHome(directory@, file@),
        }
    }
}

/// The location of a document: the value of its environment variable where
/// that is set and not empty, and else its default place under the home
/// directory.
pub open spec fn location_of(config_type: ConfigType, env_value: Option<Seq<char>>) -> LocationModel {
    match env_value {
        Some(path) => if path.len() > 0 {
            LocationModel::Given(path)
        } else {
            LocationModel::UnderHome(CONFIG_DIRECTORY@, config_type.spec_file_name())
        },
        None => LocationModel::UnderHome(CONFIG_DIRECTORY@, config_type.spec_file_name()),
    }
}

/// Decides where the document of the given kind is. `home_found` says
/// whether the user's home directory is known, and `env_value` is the
/// value of the variable [`ConfigType::env_var`], if it is set. Without a
/// home directory there is no location, whatever the environment says.
pub fn get_config_path(config_type: &ConfigType, home_found: bool, env_value: Option<&str>) -> (r: Result<ConfigLocation, RotateError>)
    ensures
        !home_found ==> (r matches Err(e) && e.message@ == NO_HOME_DIRECTORY@ && e.profile is None),
        home_found ==> (r matches Ok(location) && location@ == location_of(
            *config_type,
            match env_value {
                Some(v) => Some(v@),
                None => None,
            },
        )),
{
    if !home_found {
        return Err(RotateError::new_simple(NO_HOME_DIRECTORY));
    }
    match env_value {
        Some(value) => {
            if value.unicode_len() > 0 {
                return Ok(ConfigLocation::Given { path: value.to_owned() });
            }
        },
        None => {},
    }
    Ok(
        ConfigLocation::UnderHome {
            directory: CONFIG_DIRECTORY.to_owned(),
            file: config_type.file_name().to_owned(),
        },
    )
}

} // verus!
