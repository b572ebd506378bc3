//! Building the profile registry from the two configuration documents.
//!
//! The configuration document lists the profiles: a section named
//! `profile <name>` without a `source_profile` property is a profile that
//! can be rotated. The credentials document holds, in the section named
//! `<name>`, the profile's key pair.

use crate::aws_config::AWSConfig;
use crate::aws_config::ConfigType;
use crate::document::find_section;
use crate::document::has_property;
use crate::document::has_section;
use crate::document::document_model;
use crate::document::ini_parse;
use crate::document::parse;
use crate::document::property_value;
use crate::document::section_index;
use crate::document::sections_of;
use crate::document::DocumentModel;
use crate::document::Section;
use crate::document::SectionModel;
use crate::registry::entries_map;
use crate::registry::entries_put;
use crate::registry::lemma_entries_put;
use crate::registry::names_distinct;
use crate::registry::EntryModel;
use crate::registry::ProfileRegistry;
use crate::rotate_error::RotateError;
use crate::text::second_word;
use crate::text::second_word_of;
use crate::text::starts_with;
use vstd::prelude::*;

verus! {

/// The prefix of a section that names a profile.
pub const PROFILE_PREFIX: &'static str = "profile";

/// The property that marks a profile as derived from another.
pub const SOURCE_PROFILE: &'static str = "source_profile";

/// The property that holds the key's identifier.
pub const ACCESS_KEY_ID: &'static str = "aws_access_key_id";

/// The property that holds the key's secret.
pub const SECRET_ACCESS_KEY: &'static str = "aws_secret_access_key";

/// One of the two fields of a stored key pair.
#[derive(Debug, Clone, Copy, PartialEq, Eq, Structural)]
pub enum CredentialField {
    AccessKeyId,
    SecretAccessKey,
}

impl CredentialField {
    /// The name of the property that holds the field.
    pub open spec fn spec_key(self) -> Seq<char> {
        match self {
            CredentialField::AccessKeyId => ACCESS_KEY_ID@,
            CredentialField::SecretAccessKey => SECRET_ACCESS_KEY@,
        }
    }

    /// The name of the property that holds the field.
    pub fn key(&self) -> (k: &'static str)
        ensures
            k@ == self.spec_key(),
    {
        match self {
            CredentialField::AccessKeyId => ACCESS_KEY_ID,
            CredentialField::SecretAccessKey => SECRET_ACCESS_KEY,
        }
    }
}

/// Why no registry could be built.
#[derive(Debug)]
pub enum ConfigError {
    /// One of the two documents could not be parsed.
    Malformed { document: ConfigType },
    /// The credentials document has a section for the profile, but the
    /// section lacks the field.
    MissingField { profile: String, field: CredentialField },
}

impl ConfigError {
    /// The text shown to the user.
    pub open spec fn message(self) -> Seq<char> {
        match self {
            ConfigError::Malformed { document: ConfigType::Config } => "Failed to parse the config file"@,
            ConfigError::Malformed { document: ConfigType::Credentials } => "Failed to parse the credentials file"@,
            ConfigError::MissingField { profile, field: CredentialField::AccessKeyId } => "No access key for profile: "@
                + profile@,
            ConfigError::MissingField { profile, field: CredentialField::SecretAccessKey } => "No secret key for profile: "@
                + profile@,
        }
    }

    /// The text shown to the user.
    pub fn to_string(&self) -> (s: String)
        ensures
            s@ == self.message(),
    {
        match self {
            ConfigError::Malformed { document: ConfigType::Config } => "Failed to parse the config file".to_owned(),
            ConfigError::Malformed { document: ConfigType::Credentials } => "Failed to parse the credentials file".to_owned(),
            ConfigError::MissingField { profile, field: CredentialField::AccessKeyId } => {
                let mut s: String = "No access key for profile: ".to_owned();
                s.append(profile.as_str());
                s
            },
            ConfigError::MissingField { profile, field: CredentialField::SecretAccessKey } => {
                let mut s: String = "No secret key for profile: ".to_owned();
                s.append(profile.as_str());
                s
            },
        }
    }

    /// The error as a [`RotateError`]: the same text, attached to the
    /// profile where the error names one.
    pub fn to_rotate_error(&self) -> (e: RotateError)
        ensures
            e.message@ == self.message(),
            e.profile == match *self {
                ConfigError::MissingField { profile, .. } => Some(profile),
                ConfigError::Malformed { .. } => None,
            },
    {
        let message = self.to_string();
        match self {
            ConfigError::MissingField { profile, .. } => RotateError { message, profile: Some(profile.clone()) },
            ConfigError::Malformed { .. } => RotateError { message, profile: None },
        }
    }
}

/// The profile that a section of the configuration document declares: the
/// second word of a name that begins with `profile`, unless the section
/// has a `source_profile` property. Every other section declares none: the
/// properties before the first header, a name without that prefix, and a
/// name that has no second word.
pub open spec fn rotatable_profile(section: SectionModel) -> Option<Seq<char>> {
    match section.0 {
        Some(name) => if !has_property(section.1, SOURCE_PROFILE@) && PROFILE_PREFIX@.is_prefix_of(name) {
            second_word(name)
        } else {
            None
        },
        None => None,
    }
}

/// What the credentials document holds for a profile: `None` where it has
/// no section of that name; else the key pair of the first such section,
/// or the first field that the section lacks.
pub open spec fn stored_credential(credentials: DocumentModel, profile: Seq<char>) -> Option<Result<(Seq<char>, Seq<char>), CredentialField>> {
    let i = section_index(credentials, Some(profile));
    if i < credentials.len() {
        match property_value(credentials[i].1, ACCESS_KEY_ID@) {
            None => Some(Err(CredentialField::AccessKeyId)),
            Some(id) => match property_value(credentials[i].1, SECRET_ACCESS_KEY@) {
                None => Some(Err(CredentialField::SecretAccessKey)),
                Some(secret) => Some(Ok((id, secret))),
            },
        }
    } else {
        None
    }
}

/// The section declares a profile whose stored key pair lacks a field.
pub open spec fn incomplete(section: SectionModel, credentials: DocumentModel) -> bool {
    rotatable_profile(section) matches Some(profile) && stored_credential(credentials, profile) matches Some(Err(_))
}

/// Some section of the configuration document declares the profile.
pub open spec fn declared(config: DocumentModel, profile: Seq<char>) -> bool {
    exists|i: int| 0 <= i < config.len() && #[trigger] rotatable_profile(config[i]) == Some(profile)
}

/// The registry entries that the first `n` sections of the configuration
/// document give: each declared profile with a complete stored key pair,
/// in the order of its first declaration.
pub open spec fn profile_entries(config: DocumentModel, credentials: DocumentModel, n: int) -> Seq<EntryModel>
    decreases n,
{
    if n <= 0 || n > config.len() {
        Seq::empty()
    } else {
        let before = profile_entries(config, credentials, n - 1);
        match rotatable_profile(config[n - 1]) {
            Some(profile) => match stored_credential(credentials, profile) {
                Some(Ok(credential)) => entries_put(before, profile, credential),
                _ => before,
            },
            None => before,
        }
    }
}

/// The result that is owed for two documents: the error for the first
/// section that declares a profile with an incomplete key pair, and else
/// the registry of [`profile_entries`].
pub open spec fn is_registry_of(config: DocumentModel, credentials: DocumentModel, r: Result<ProfileRegistry, ConfigError>) -> bool {
    match r {
        Ok(registry) => {
            &&& forall|i: int| 0 <= i < config.len() ==> !incomplete(#[trigger] config[i], credentials)
            &&& registry.wf()
            &&& registry.entries() == profile_entries(config, credentials, config.len() as int)
        },
        Err(ConfigError::MissingField { profile, field }) => exists|i: int|
            {
                &&& 0 <= i < config.len()
                &&& forall|j: int| 0 <= j < i ==> !incomplete(#[trigger] config[j], credentials)
                &&& #[trigger] rotatable_profile(config[i]) == Some(profile@)
                &&& stored_credential(credentials, profile@) == Some(
                    Err::<(Seq<char>, Seq<char>), CredentialField>(field),
                )
            },
        Err(ConfigError::Malformed { .. }) => false,
    }
}

/// The entries that the first `n` sections give bind exactly the profiles
/// that one of those sections declares and whose stored key pair is
/// complete, each to that key pair, and no name twice.
pub proof fn lemma_profile_entries(config: DocumentModel, credentials: DocumentModel, n: int)
    requires
        0 <= n <= config.len(),
    ensures
        names_distinct(profile_entries(config, credentials, n)),
        forall|name: Seq<char>| #[trigger]
            entries_map(profile_entries(config, credentials, n)).dom().contains(name) <==> {
                &&& stored_credential(credentials, name) matches Some(Ok(_))
                &&& exists|i: int| 0 <= i < n && #[trigger] rotatable_profile(config[i]) == Some(name)
            },
        forall|name: Seq<char>| #[trigger]
            entries_map(profile_entries(config, credentials, n)).dom().contains(name)
                ==> stored_credential(credentials, name) == Some(
                Ok::<(Seq<char>, Seq<char>), CredentialField>(
                    entries_map(profile_entries(config, credentials, n))[name],
                ),
            ),
    decreases n,
{
    if n > 0 {
        lemma_profile_entries(config, credentials, n - 1);
        let before = profile_entries(config, credentials, n - 1);
        let after = profile_entries(config, credentials, n);
        match rotatable_profile(config[n - 1]) {
            Some(profile) => match stored_credential(credentials, profile) {
                Some(Ok(credential)) => {
                    lemma_entries_put(before, profile, credential);
                    assert(entries_map(after) == entries_map(before).insert(profile, credential));
                },
                _ => {},
            },
            None => {},
        }
        assert forall|name: Seq<char>| #[trigger]
            entries_map(after).dom().contains(name) implies {
            &&& stored_credential(credentials, name) matches Some(Ok(_))
            &&& exists|i: int| 0 <= i < n && #[trigger] rotatable_profile(config[i]) == Some(name)
        } by {
            if entries_map(before).dom().contains(name) {
                let i = choose|i: int| 0 <= i < n - 1 && #[trigger] rotatable_profile(config[i]) == Some(name);
                assert(0 <= i < n && rotatable_profile(config[i]) == Some(name));
            } else {
                assert(rotatable_profile(config[n - 1]) == Some(name));
            }
        }
        assert forall|name: Seq<char>|
            {
                &&& stored_credential(credentials, name) matches Some(Ok(_))
                &&& exists|i: int| 0 <= i < n && #[trigger] rotatable_profile(config[i]) == Some(name)
            } implies #[trigger] entries_map(after).dom().contains(name) by {
            let i = choose|i: int| 0 <= i < n && #[trigger] rotatable_profile(config[i]) == Some(name);
            if i < n - 1 {
                assert(entries_map(before).dom().contains(name));
            }
        }
    }
}

/// A registry that was built from two documents holds exactly the profiles
/// that the configuration document declares and for which the credentials
/// document has a section, each with the key pair stored there. A section
/// with a `source_profile` property declares no profile.
pub proof fn registry_holds_exactly_the_declared_profiles(config: DocumentModel, credentials: DocumentModel, registry: ProfileRegistry)
    requires
        is_registry_of(config, credentials, Ok(registry)),
    ensures
        forall|name: Seq<char>| #[trigger]
            registry@.dom().contains(name) <==> declared(config, name) && has_section(
                credentials,
                Some(name),
            ),
        forall|name: Seq<char>| #[trigger]
            registry@.dom().contains(name) ==> stored_credential(credentials, name) == Some(
                Ok::<(Seq<char>, Seq<char>), CredentialField>(registry@[name]),
            ),
        forall|i: int|
            0 <= i < config.len() && has_property(config[i].1, SOURCE_PROFILE@)
                ==> #[trigger] rotatable_profile(config[i]) is None,
{
    lemma_profile_entries(config, credentials, config.len() as int);
    assert forall|name: Seq<char>| declared(config, name) && has_section(credentials, Some(name))
        implies #[trigger] registry@.dom().contains(name) by {
        let i = choose|i: int| 0 <= i < config.len() && #[trigger] rotatable_profile(config[i]) == Some(name);
        assert(!incomplete(config[i], credentials));
    }
}

/// Where some declared profile has a stored key pair that lacks a field,
/// no registry is built: the result is the error that names the first such
/// profile and the first field that its section lacks.
pub proof fn missing_field_fails_the_build(config: DocumentModel, credentials: DocumentModel, r: Result<ProfileRegistry, ConfigError>, at: int)
    requires
        is_registry_of(config, credentials, r),
        0 <= at < config.len(),
        incomplete(config[at], credentials),
    ensures
        r matches Err(ConfigError::MissingField { profile, field }) && declared(config, profile@)
            && stored_credential(credentials, profile@) == Some(
            Err::<(Seq<char>, Seq<char>), CredentialField>(field),
        ),
{
}

/// The profile that a section of the configuration document declares.
pub fn declared_profile(section: &Section) -> (profile: Option<String>)
    ensures
        profile is Some <==> rotatable_profile(section@) is Some,
        profile matches Some(p) ==> rotatable_profile(section@) == Some(p@),
{
    if section.contains_key(SOURCE_PROFILE) {
        return None;
    }
    match &section.name {
        Some(name) => {
            if starts_with(name.as_str(), PROFILE_PREFIX) {
                second_word_of(name.as_str())
            } else {
                None
            }
        },
        None => None,
    }
}

/// The key pair that the credentials document holds for `profile`.
pub fn lookup_credential(credentials: &Vec<Section>, profile: &str) -> (found: Option<Result<AWSConfig, CredentialField>>)
    ensures
        match found {
            None => stored_credential(document_model(credentials@), profile@) is None,
            Some(Err(field)) => stored_credential(document_model(credentials@), profile@) == Some(
                Err::<(Seq<char>, Seq<char>), CredentialField>(field),
            ),
            Some(Ok(c)) => stored_credential(document_model(credentials@), profile@) == Some(
                Ok::<(Seq<char>, Seq<char>), CredentialField>(c@),
            ),
        },
{
    match find_section(credentials, profile) {
        None => None,
        Some(section) => match section.get(ACCESS_KEY_ID) {
            None => Some(Err(CredentialField::AccessKeyId)),
            Some(id) => match section.get(SECRET_ACCESS_KEY) {
                None => Some(Err(CredentialField::SecretAccessKey)),
                Some(secret) => Some(Ok(AWSConfig::new(id, secret))),
            },
        },
    }
}

/// Builds the registry from the sections of the two documents. The walk
/// stops at the first declared profile whose stored key pair lacks a
/// field, and then no registry is returned.
pub fn build_registry(config: &Vec<Section>, credentials: &Vec<Section>) -> (r: Result<ProfileRegistry, ConfigError>)
    ensures
        is_registry_of(document_model(config@), document_model(credentials@), r),
{
    let ghost conf = document_model(config@);
    let ghost cred = document_model(credentials@);
    let mut registry = ProfileRegistry::new();
    let mut i: usize = 0;
    while i < config.len()
        invariant
            i <= config@.len(),
            conf == document_model(config@),
            cred == document_model(credentials@),
            registry.wf(),
            registry.entries() == profile_entries(conf, cred, i as int),
            forall|j: int| 0 <= j < i ==> !incomplete(#[trigger] conf[j], cred),
        decreases config@.len() - i,
    {
        assert(conf[i as int] == config@[i as int]@);
        match declared_profile(&config[i]) {
            None => {},
            Some(profile) => match lookup_credential(credentials, profile.as_str()) {
                None => {},
                Some(Err(field)) => {
                    return Err(ConfigError::MissingField { profile, field });
                },
                Some(Ok(credential)) => {
                    registry.insert(profile, credential);
                },
            },
        }
        i = i + 1;
    }
    Ok(registry)
}

/// Builds the registry from the texts of the two documents. A text that
/// does not parse is reported for the configuration document first.
pub fn parse_config_files(conf_text: &str, cred_text: &str) -> (r: Result<ProfileRegistry, ConfigError>)
    ensures
        match (ini_parse(conf_text@), ini_parse(cred_text@)) {
            (None, _) => r matches Err(ConfigError::Malformed { document: ConfigType::Config }),
            (Some(_), None) => r matches Err(ConfigError::Malformed { document: ConfigType::Credentials }),
            (Some(config), Some(credentials)) => is_registry_of(config, credentials, r),
        },
{
    let conf = match parse(conf_text) {
        Ok(doc) => doc,
        Err(_) => {
            return Err(ConfigError::Malformed { document: ConfigType::Config });
        },
    };
    let cred = match parse(cred_text) {
        Ok(doc) => doc,
        Err(_) => {
            return Err(ConfigError::Malformed { document: ConfigType::Credentials });
        },
    };
    let config = sections_of(&conf);
    let credentials = sections_of(&cred);
    build_registry(&config, &credentials)
}

} // verus!
