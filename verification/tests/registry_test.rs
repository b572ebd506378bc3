use ini::Ini;
use rotate_iam_keys::apply_updates;
use rotate_iam_keys::get_config_path;
use rotate_iam_keys::load;
use rotate_iam_keys::StoreError;
use rotate_iam_keys::AWSConfig;
use rotate_iam_keys::ConfigLocation;
use rotate_iam_keys::ConfigType;
use rotate_iam_keys::ProfileRegistry;
use rotate_iam_keys::text::char_is_whitespace;
use rotate_iam_keys::text::same_text;
use rotate_iam_keys::text::second_word_of;
use rotate_iam_keys::text::starts_with;
use rotate_iam_keys::text::strip_byte_order_mark;

#[test]
fn empty_registry() {
    let r = ProfileRegistry::new();
    assert_eq!(r.len(), 0);
    assert!(!r.contains("dev"));
    assert!(r.get("dev").is_none());
}

#[test]
fn insert_appends_a_new_name_and_replaces_a_known_one() {
    let mut r = ProfileRegistry::new();
    r.insert("a".to_string(), AWSConfig::new("A1", "S1"));
    r.insert("b".to_string(), AWSConfig::new("B1", "S2"));
    r.insert("a".to_string(), AWSConfig::new("A2", "S3"));
    assert_eq!(r.len(), 2);
    assert_eq!(r.profile(0).name, "a");
    assert_eq!(r.profile(0).config.access_key_id, "A2");
    assert_eq!(r.profile(0).config.secret_access_key, "S3");
    assert_eq!(r.profile(1).name, "b");
    assert_eq!(r.get("b").unwrap().access_key_id, "B1");
    assert!(r.contains("a"));
    assert!(!r.contains("c"));
}

#[test]
fn clone_holds_the_same_profiles() {
    let mut r = ProfileRegistry::new();
    r.insert("a".to_string(), AWSConfig::new("A1", "S1"));
    let mut c = r.clone();
    c.insert("a".to_string(), AWSConfig::new("A2", "S2"));
    assert_eq!(r.get("a").unwrap().access_key_id, "A1");
    assert_eq!(c.get("a").unwrap().access_key_id, "A2");
}

#[test]
fn apply_updates_edits_the_document_in_registry_order() {
    let mut doc = Ini::load_from_str("[b]\nkeep=1\naws_access_key_id=OLD\n").unwrap();
    let mut r = ProfileRegistry::new();
    r.insert("z".to_string(), AWSConfig::new("ZA", "ZS"));
    r.insert("b".to_string(), AWSConfig::new("BA", "BS"));
    r.insert("a".to_string(), AWSConfig::new("AA", "AS"));
    apply_updates(&mut doc, &r);
    let sections: Vec<(Option<String>, Vec<(String, String)>)> = doc
        .iter()
        .map(|(n, p)| {
            (
                n.map(String::from),
                p.iter().map(|(k, v)| (k.to_string(), v.to_string())).collect(),
            )
        })
        .collect();
    let pair = |k: &str, v: &str| (k.to_string(), v.to_string());
    assert_eq!(
        sections,
        vec![
            (
                Some("b".to_string()),
                vec![pair("keep", "1"), pair("aws_access_key_id", "BA"), pair("aws_secret_access_key", "BS")]
            ),
            (
                Some("z".to_string()),
                vec![pair("aws_access_key_id", "ZA"), pair("aws_secret_access_key", "ZS")]
            ),
            (
                Some("a".to_string()),
                vec![pair("aws_access_key_id", "AA"), pair("aws_secret_access_key", "AS")]
            ),
        ]
    );
}

#[test]
fn location_is_the_override_when_it_is_set() {
    match get_config_path(&ConfigType::Config, true, Some("/etc/aws/config")) {
        Ok(ConfigLocation::Given { path }) => assert_eq!(path, "/etc/aws/config"),
        other => panic!("unexpected location: {:?}", other),
    }
}

#[test]
fn location_is_under_home_without_an_override() {
    match get_config_path(&ConfigType::Config, true, None) {
        Ok(ConfigLocation::UnderHome { directory, file }) => {
            assert_eq!(directory, ".aws");
            assert_eq!(file, "config");
        }
        other => panic!("unexpected location: {:?}", other),
    }
    match get_config_path(&ConfigType::Credentials, true, None) {
        Ok(ConfigLocation::UnderHome { directory, file }) => {
            assert_eq!(directory, ".aws");
            assert_eq!(file, "credentials");
        }
        other => panic!("unexpected location: {:?}", other),
    }
}

#[test]
fn empty_override_counts_as_unset() {
    match get_config_path(&ConfigType::Credentials, true, Some("")) {
        Ok(ConfigLocation::UnderHome { directory, file }) => {
            assert_eq!(directory, ".aws");
            assert_eq!(file, "credentials");
        }
        other => panic!("unexpected location: {:?}", other),
    }
}

#[test]
fn no_home_directory_is_an_error_even_with_an_override() {
    let e = get_config_path(&ConfigType::Config, false, Some("/etc/aws/config")).unwrap_err();
    assert_eq!(e.message, "Failed to find home directory");
    assert!(e.profile.is_none());
    assert!(get_config_path(&ConfigType::Credentials, false, None).is_err());
}

#[test]
fn environment_variable_names() {
    assert_eq!(ConfigType::Credentials.env_var(), "AWS_SHARED_CREDENTIALS_FILE");
    assert_eq!(ConfigType::Config.env_var(), "AWS_CONFIG_FILE");
    assert_eq!(ConfigType::Credentials.file_name(), "credentials");
    assert_eq!(ConfigType::Config.file_name(), "config");
}

#[test]
fn whitespace_is_what_std_calls_whitespace() {
    let mut c: u32 = 0;
    while c <= 0x10FFFF {
        if let Some(ch) = char::from_u32(c) {
            assert_eq!(char_is_whitespace(ch), ch.is_whitespace(), "U+{:04X}", c);
        }
        c += 1;
    }
}

#[test]
fn second_word_is_the_second_split_whitespace_item() {
    for s in [
        "profile dev",
        "profile   dev  extra",
        "  profile\tdev",
        "profile",
        "",
        "   ",
        "profile ",
        "profile\u{a0}caf\u{e9} x",
        "one two three",
    ] {
        let expected = s.split_whitespace().nth(1).map(String::from);
        assert_eq!(second_word_of(s), expected, "{:?}", s);
    }
    assert_eq!(second_word_of("profile dev"), Some("dev".to_string()));
    assert_eq!(second_word_of("profile"), None);
}

#[test]
fn prefixes_and_equality() {
    assert!(starts_with("profile dev", "profile"));
    assert!(starts_with("profile", "profile"));
    assert!(starts_with("anything", ""));
    assert!(!starts_with("profil", "profile"));
    assert!(!starts_with("Profile dev", "profile"));
    assert!(same_text("abc", "abc"));
    assert!(!same_text("abc", "abd"));
    assert!(!same_text("abc", "ab"));
}

#[test]
fn byte_order_mark_is_stripped_once() {
    assert_eq!(strip_byte_order_mark("\u{feff}[dev]\n"), "[dev]\n");
    assert_eq!(strip_byte_order_mark("[dev]\n"), "[dev]\n");
    assert_eq!(strip_byte_order_mark("\u{feff}\u{feff}x"), "\u{feff}x");
    assert_eq!(strip_byte_order_mark(""), "");
    assert_eq!(strip_byte_order_mark("\u{feff}"), "");
}

#[test]
fn load_gives_the_document_or_the_error() {
    let doc = load("[dev]\naws_access_key_id=AK1\n").unwrap();
    assert_eq!(doc.len(), 1);
    assert_eq!(doc.get_from(Some("dev"), "aws_access_key_id"), Some("AK1"));
    assert!(matches!(load("[dev"), Err(StoreError::Malformed)));
    assert!(load("").unwrap().is_empty());
}
