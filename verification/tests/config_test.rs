use rotate_iam_keys::build_registry;
use rotate_iam_keys::parse_config_files;
use rotate_iam_keys::ConfigError;
use rotate_iam_keys::ConfigType;
use rotate_iam_keys::CredentialField;
use rotate_iam_keys::Property;
use rotate_iam_keys::Section;

const CONFIG: &str = "[default]\nregion=eu-west-1\n\n[profile dev]\nregion=eu-west-1\n\n[profile assumed]\nsource_profile=dev\nrole_arn=arn\n\n[profile prod]\nregion=us-east-1\n\n[profile ghost]\nregion=us-east-1\n";
const CREDENTIALS: &str = "[dev]\naws_access_key_id=AK1\naws_secret_access_key=SK1\n\n[prod]\naws_access_key_id=AK2\naws_secret_access_key=SK2\n\n[assumed]\naws_access_key_id=AK3\naws_secret_access_key=SK3\n\n[stray]\naws_access_key_id=AK4\naws_secret_access_key=SK4\n";

fn section(name: Option<&str>, properties: &[(&str, &str)]) -> Section {
    Section {
        name: name.map(String::from),
        properties: properties
            .iter()
            .map(|(k, v)| Property { key: k.to_string(), value: v.to_string() })
            .collect(),
    }
}

#[test]
fn registry_holds_the_profiles_of_both_documents() {
    let registry = parse_config_files(CONFIG, CREDENTIALS).unwrap();
    assert_eq!(registry.len(), 2);
    assert_eq!(registry.profile(0).name, "dev");
    assert_eq!(registry.profile(1).name, "prod");
    let dev = registry.get("dev").unwrap();
    assert_eq!(dev.access_key_id, "AK1");
    assert_eq!(dev.secret_access_key, "SK1");
    let prod = registry.get("prod").unwrap();
    assert_eq!(prod.access_key_id, "AK2");
    assert_eq!(prod.secret_access_key, "SK2");
}

#[test]
fn profile_with_source_profile_is_left_out() {
    let registry = parse_config_files(CONFIG, CREDENTIALS).unwrap();
    assert!(!registry.contains("assumed"));
    assert!(registry.get("assumed").is_none());
}

#[test]
fn profile_without_credentials_is_skipped() {
    let registry = parse_config_files(CONFIG, CREDENTIALS).unwrap();
    assert!(!registry.contains("ghost"));
}

#[test]
fn sections_that_declare_no_profile_are_skipped() {
    let registry = parse_config_files(CONFIG, CREDENTIALS).unwrap();
    assert!(!registry.contains("default"));
    assert!(!registry.contains("stray"));
}

#[test]
fn missing_access_key_fails_the_build() {
    let credentials = "[dev]\naws_secret_access_key=SK1\n";
    match parse_config_files(CONFIG, credentials) {
        Err(ConfigError::MissingField { profile, field }) => {
            assert_eq!(profile, "dev");
            assert_eq!(field, CredentialField::AccessKeyId);
        }
        other => panic!("unexpected result: {:?}", other),
    }
}

#[test]
fn missing_secret_key_fails_the_build() {
    let credentials = "[dev]\naws_access_key_id=AK1\naws_secret_access_key=SK1\n[prod]\naws_access_key_id=AK2\n";
    match parse_config_files(CONFIG, credentials) {
        Err(ConfigError::MissingField { profile, field }) => {
            assert_eq!(profile, "prod");
            assert_eq!(field, CredentialField::SecretAccessKey);
        }
        other => panic!("unexpected result: {:?}", other),
    }
}

#[test]
fn missing_both_fields_reports_the_access_key() {
    let credentials = "[dev]\nregion=eu\n";
    match parse_config_files(CONFIG, credentials) {
        Err(ConfigError::MissingField { profile, field }) => {
            assert_eq!(profile, "dev");
            assert_eq!(field, CredentialField::AccessKeyId);
        }
        other => panic!("unexpected result: {:?}", other),
    }
}

#[test]
fn first_incomplete_profile_is_the_one_reported() {
    let credentials = "[prod]\naws_access_key_id=AK2\n[dev]\naws_secret_access_key=SK1\n";
    match parse_config_files(CONFIG, credentials) {
        Err(ConfigError::MissingField { profile, field }) => {
            assert_eq!(profile, "dev");
            assert_eq!(field, CredentialField::AccessKeyId);
        }
        other => panic!("unexpected result: {:?}", other),
    }
}

#[test]
fn malformed_config_is_reported_first() {
    match parse_config_files("[broken", "[also broken") {
        Err(ConfigError::Malformed { document }) => assert_eq!(document, ConfigType::Config),
        other => panic!("unexpected result: {:?}", other),
    }
}

#[test]
fn malformed_credentials_are_reported() {
    match parse_config_files(CONFIG, "no equals sign here") {
        Err(ConfigError::Malformed { document }) => assert_eq!(document, ConfigType::Credentials),
        other => panic!("unexpected result: {:?}", other),
    }
}

#[test]
fn config_error_texts() {
    let e = ConfigError::MissingField { profile: "dev".to_string(), field: CredentialField::AccessKeyId };
    assert_eq!(e.to_string(), "No access key for profile: dev");
    let e = ConfigError::MissingField { profile: "dev".to_string(), field: CredentialField::SecretAccessKey };
    assert_eq!(e.to_string(), "No secret key for profile: dev");
    let e = ConfigError::Malformed { document: ConfigType::Config };
    assert_eq!(e.to_string(), "Failed to parse the config file");
    let e = ConfigError::Malformed { document: ConfigType::Credentials };
    assert_eq!(e.to_string(), "Failed to parse the credentials file");
}

#[test]
fn credential_field_keys() {
    assert_eq!(CredentialField::AccessKeyId.key(), "aws_access_key_id");
    assert_eq!(CredentialField::SecretAccessKey.key(), "aws_secret_access_key");
}

#[test]
fn build_registry_on_plain_sections() {
    let config = vec![
        section(None, &[("region", "eu")]),
        section(Some("profile dev"), &[("region", "eu")]),
        section(Some("profile   spaced\tname"), &[]),
        section(Some("profile"), &[]),
        section(Some("profiles"), &[]),
        section(Some("other dev2"), &[]),
        section(Some("profile dev"), &[("output", "json")]),
    ];
    let credentials = vec![
        section(Some("dev"), &[("aws_access_key_id", "A"), ("aws_secret_access_key", "S")]),
        section(Some("spaced"), &[("aws_access_key_id", "A2"), ("aws_secret_access_key", "S2")]),
        section(Some("dev2"), &[("aws_access_key_id", "A3"), ("aws_secret_access_key", "S3")]),
        section(Some("dev"), &[("aws_access_key_id", "LATER")]),
    ];
    let registry = build_registry(&config, &credentials).unwrap();
    assert_eq!(registry.len(), 2);
    assert_eq!(registry.profile(0).name, "dev");
    assert_eq!(registry.profile(0).config.access_key_id, "A");
    assert_eq!(registry.profile(0).config.secret_access_key, "S");
    assert_eq!(registry.profile(1).name, "spaced");
    assert_eq!(registry.profile(1).config.access_key_id, "A2");
}

#[test]
fn first_value_of_a_repeated_key_is_read() {
    let config = vec![section(Some("profile dev"), &[])];
    let credentials = vec![section(
        Some("dev"),
        &[("aws_access_key_id", "FIRST"), ("aws_access_key_id", "SECOND"), ("aws_secret_access_key", "S")],
    )];
    let registry = build_registry(&config, &credentials).unwrap();
    assert_eq!(registry.get("dev").unwrap().access_key_id, "FIRST");
}

#[test]
fn section_lookups() {
    let s = section(Some("dev"), &[("a", "1"), ("b", "2"), ("a", "3")]);
    assert!(s.contains_key("a"));
    assert!(!s.contains_key("c"));
    assert_eq!(s.get("a"), Some("1"));
    assert_eq!(s.get("b"), Some("2"));
    assert_eq!(s.get("c"), None);
}

#[test]
fn config_error_as_rotate_error() {
    let e = ConfigError::MissingField { profile: "dev".to_string(), field: CredentialField::SecretAccessKey };
    let r = e.to_rotate_error();
    assert_eq!(r.message, "No secret key for profile: dev");
    assert_eq!(r.profile, Some("dev".to_string()));
    let e = ConfigError::Malformed { document: ConfigType::Credentials };
    let r = e.to_rotate_error();
    assert_eq!(r.message, "Failed to parse the credentials file");
    assert!(r.profile.is_none());
}

#[test]
fn repeated_sections_and_keys_read_as_their_first() {
    let config = "[profile dev]\nsource_profile=base\n[profile dev]\nregion=eu\n[profile twice]\n[profile twice]\n";
    let credentials = "[dev]\naws_access_key_id=A\naws_access_key_id=B\naws_secret_access_key=S\n[twice]\naws_access_key_id=T1\naws_secret_access_key=TS1\n[dev]\naws_access_key_id=C\naws_secret_access_key=D\n[twice]\naws_access_key_id=T2\n";
    let registry = parse_config_files(config, credentials).unwrap();
    assert_eq!(registry.len(), 2);
    assert_eq!(registry.profile(0).name, "dev");
    assert_eq!(registry.profile(0).config.access_key_id, "A");
    assert_eq!(registry.profile(0).config.secret_access_key, "S");
    assert_eq!(registry.profile(1).name, "twice");
    assert_eq!(registry.profile(1).config.access_key_id, "T1");
    assert_eq!(registry.profile(1).config.secret_access_key, "TS1");
}

#[test]
fn properties_before_the_first_header_declare_nothing() {
    let config = "profile=dev\n[profile dev]\n";
    let credentials = "aws_access_key_id=TOP\n[dev]\naws_access_key_id=A\naws_secret_access_key=S\n";
    let registry = parse_config_files(config, credentials).unwrap();
    assert_eq!(registry.len(), 1);
    assert_eq!(registry.get("dev").unwrap().access_key_id, "A");
}

#[test]
fn empty_documents_give_an_empty_registry() {
    let registry = parse_config_files("", "").unwrap();
    assert_eq!(registry.len(), 0);
}
