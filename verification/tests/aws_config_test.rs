use ini::Ini;
use rotate_iam_keys::write_credentials;
use rotate_iam_keys::AWSConfig;
use rotate_iam_keys::ProfileRegistry;
use rotate_iam_keys::StoreError;

const TEST_PROFILE: &str = "test";
const TEST_AK: &str = "ThisIsAnAccessKey";
const TEST_SK: &str = "ThisIsASecretKey";
const TEST_PROFILE2: &str = "test2";
const TEST_AK2: &str = "ThisIsAnAccessKey2";
const TEST_SK2: &str = "ThisIsASecretKey2";

#[test]
fn aws_config() {
    let a = AWSConfig::new(&TEST_AK, &TEST_SK);
    assert_eq!(TEST_AK, a.access_key_id);
    assert_eq!(TEST_SK, a.secret_access_key);
}

#[test]
fn aws_config_to_string() {
    let a = AWSConfig::new(TEST_AK, TEST_SK);
    assert_eq!(a.to_string(), "AK: ThisIsAnAccessKey, SK: ThisIsASecretKey");
}

#[test]
fn write_test_credentials() {
    let mut config = ProfileRegistry::new();
    config.insert(TEST_PROFILE.to_string(), AWSConfig::new(&TEST_AK, &TEST_SK));

    let written = write_credentials(&config, "").unwrap();

    let ini_file = Ini::load_from_str(&written).unwrap();
    assert!(!ini_file.is_empty());
    assert!(ini_file.section(Some(TEST_PROFILE)).is_some());

    let test_section = ini_file.section(Some(TEST_PROFILE)).unwrap();
    assert_eq!(test_section.get("aws_access_key_id").unwrap(), TEST_AK);
    assert_eq!(test_section.get("aws_secret_access_key").unwrap(), TEST_SK);
}

#[test]
fn test_nondestructive_write() {
    let mut config = ProfileRegistry::new();
    config.insert(TEST_PROFILE.to_string(), AWSConfig::new(&TEST_AK, &TEST_SK));

    let first = write_credentials(&config, "").unwrap();
    let mut config = ProfileRegistry::new();
    config.insert(
        TEST_PROFILE2.to_string(),
        AWSConfig::new(&TEST_AK2, &TEST_SK2),
    );
    let second = write_credentials(&config, &first).unwrap();

    let ini_file = Ini::load_from_str(&second).unwrap();
    assert!(!ini_file.is_empty());
    assert!(ini_file.section(Some(TEST_PROFILE)).is_some());
    assert!(ini_file.section(Some(TEST_PROFILE2)).is_some());

    let mut test_section = ini_file.section(Some(TEST_PROFILE)).unwrap();
    assert_eq!(test_section.get("aws_access_key_id").unwrap(), TEST_AK);
    assert_eq!(test_section.get("aws_secret_access_key").unwrap(), TEST_SK);

    test_section = ini_file.section(Some(TEST_PROFILE2)).unwrap();
    assert_eq!(test_section.get("aws_access_key_id").unwrap(), TEST_AK2);
    assert_eq!(test_section.get("aws_secret_access_key").unwrap(), TEST_SK2);
}

#[test]
fn test_failed_write() {
    let mut config = ProfileRegistry::new();
    config.insert(TEST_PROFILE.to_string(), AWSConfig::new(&TEST_AK, &TEST_SK));

    assert!(
        write_credentials(&config, "asdfda;lkjhgs;oijfdjlkjkldsajlkd").is_err(),
        "cred file should be invalid"
    );
}

#[test]
fn failed_write_is_malformed() {
    let config = ProfileRegistry::new();
    assert_eq!(
        write_credentials(&config, "[unterminated").unwrap_err(),
        StoreError::Malformed
    );
    assert_eq!(StoreError::Malformed.to_string(), "Failed to load the credential file");
    let e = StoreError::Malformed.to_rotate_error();
    assert_eq!(e.message, "Failed to load the credential file");
    assert!(e.profile.is_none());
}

#[test]
fn write_gives_the_exact_text() {
    let mut config = ProfileRegistry::new();
    config.insert("test".to_string(), AWSConfig::new("AK", "SK"));
    let before = "[test]\naws_access_key_id=OLD\nregion=eu\naws_secret_access_key=OLDS\n\n[other]\nkey=value\n";
    let after = write_credentials(&config, before).unwrap();
    assert_eq!(
        after,
        "[test]\nregion=eu\naws_access_key_id=AK\naws_secret_access_key=SK\n\n[other]\nkey=value\n"
    );
}

#[test]
fn write_appends_a_missing_section_last() {
    let mut config = ProfileRegistry::new();
    config.insert("new".to_string(), AWSConfig::new("AK", "SK"));
    let after = write_credentials(&config, "[other]\nkey=value\n").unwrap();
    assert_eq!(
        after,
        "[other]\nkey=value\n\n[new]\naws_access_key_id=AK\naws_secret_access_key=SK\n"
    );
}

#[test]
fn write_edits_the_first_of_two_sections_of_one_name() {
    let mut config = ProfileRegistry::new();
    config.insert("dup".to_string(), AWSConfig::new("AK", "SK"));
    let before = "[dup]\na=1\n[mid]\nb=2\n[dup]\nc=3\n";
    let after = write_credentials(&config, before).unwrap();
    assert_eq!(
        after,
        "[dup]\na=1\naws_access_key_id=AK\naws_secret_access_key=SK\n\n[mid]\nb=2\n\n[dup]\nc=3\n"
    );
}

#[test]
fn write_with_no_updates_keeps_every_section() {
    let config = ProfileRegistry::new();
    let before = "top=1\n\n[a]\nx=1\n\n[b]\ny=2\n";
    assert_eq!(write_credentials(&config, before).unwrap(), before);
}

#[test]
fn write_replaces_every_earlier_value_of_a_key() {
    let mut config = ProfileRegistry::new();
    config.insert("dev".to_string(), AWSConfig::new("NEW", "NEWS"));
    let before = "top=1\n[dev]\naws_access_key_id=A\nkeep=1\naws_access_key_id=B\naws_secret_access_key=S\nkeep=2\n";
    let after = write_credentials(&config, before).unwrap();
    assert_eq!(
        after,
        "top=1\n\n[dev]\nkeep=1\nkeep=2\naws_access_key_id=NEW\naws_secret_access_key=NEWS\n"
    );
}
