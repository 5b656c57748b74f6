use sts_profile_auth::builder::{
    merge_profile_tables, resolve_profiles, CONFIG_FILE, CREDENTIALS_FILE, HOME_SUBDIRECTORY,
};
use sts_profile_auth::parser::parse_config_file;
use sts_profile_auth::{
    locate_config_dir, AwsProfileInfo, ConfigLocation, StsClientError, StsInstance,
};

fn text(lines: &[&str]) -> Vec<String> {
    lines.iter().map(|l| l.to_string()).collect()
}

#[test]
fn lib_test_fill_profile_map() {
    let config = text(&[
        "[default]",
        "region = us-east-1",
        "aws_access_key_id = AKIDEXAMPLE",
        "aws_secret_access_key = secret",
    ]);
    let prof_map = AwsProfileInfo::fill_profile_map(Some(&config), None);
    for i in 0..prof_map.len() {
        let (k, v) = prof_map.entry_at(i).unwrap();
        println!("{} {:?}", k, v);
    }
    assert!(prof_map.len() > 0);
    assert!(prof_map.contains_key("default"));
}

#[test]
fn sts_instance_test_fill_profile_map() {
    let credentials = text(&[
        "[default]",
        "aws_access_key_id = AKIDEXAMPLE",
        "aws_secret_access_key = secret",
    ]);
    let prof_map = AwsProfileInfo::fill_profile_map(None, Some(&credentials));
    for i in 0..prof_map.len() {
        let (k, v) = prof_map.entry_at(i).unwrap();
        println!("{} {:?}", k, v);
    }
    assert!(prof_map.len() > 0);
    assert!(prof_map.contains_key("default"));
}

#[test]
fn second_file_overrides_and_adds_keys_of_a_known_profile() {
    let config = text(&["[P]", "region=a", "aws_access_key_id = K", "output = json"]);
    let credentials = text(&[
        "[P]",
        "region=b",
        "role_arn=X",
        "aws_secret_access_key = S",
    ]);
    let profiles = AwsProfileInfo::fill_profile_map(Some(&config), Some(&credentials));
    assert_eq!(profiles.len(), 1);
    let p = profiles.get("P").unwrap();
    assert_eq!(p.region, "b");
    assert_eq!(p.role_arn, Some("X".to_string()));
    assert_eq!(p.aws_access_key_id, "K");
    assert_eq!(p.aws_secret_access_key, "S");
}

#[test]
fn merged_table_has_the_keys_of_both_files() {
    let mut first = parse_config_file(&text(&["[P]", "region=a", "output=json", "[Q]", "k=1"]));
    let second = parse_config_file(&text(&["[P]", "region=b", "role_arn=X", "[R]", "k=2"]));
    merge_profile_tables(&mut first, &second);
    assert_eq!(first.len(), 3);
    let p = first.get("P").unwrap();
    assert_eq!(p.len(), 3);
    assert_eq!(p.get("region").unwrap(), "b");
    assert_eq!(p.get("role_arn").unwrap(), "X");
    assert_eq!(p.get("output").unwrap(), "json");
    assert_eq!(first.get("Q").unwrap().get("k").unwrap(), "1");
    assert_eq!(first.get("R").unwrap().get("k").unwrap(), "2");
    assert_eq!(second.get("P").unwrap().len(), 2);
}

#[test]
fn merge_into_an_empty_table_gives_the_second_table() {
    let mut first = parse_config_file(&Vec::new());
    let second = parse_config_file(&text(&["[P]", "region=b", "[R]", "k=2"]));
    merge_profile_tables(&mut first, &second);
    assert_eq!(first.len(), 2);
    assert_eq!(first.get("P").unwrap().get("region").unwrap(), "b");
    assert_eq!(first.get("R").unwrap().get("k").unwrap(), "2");
}

#[test]
fn merge_of_an_empty_table_changes_nothing() {
    let mut first = parse_config_file(&text(&["[P]", "region=b"]));
    let second = parse_config_file(&Vec::new());
    merge_profile_tables(&mut first, &second);
    assert_eq!(first.len(), 1);
    assert_eq!(first.get("P").unwrap().len(), 1);
    assert_eq!(first.get("P").unwrap().get("region").unwrap(), "b");
}

#[test]
fn source_profile_may_stand_in_the_other_file() {
    let config = text(&[
        "[profile A]",
        "source_profile = B",
        "role_arn = arn:aws:iam::1:role/a",
    ]);
    let credentials = text(&["[B]", "aws_access_key_id = K1", "aws_secret_access_key = S1"]);
    let profiles = AwsProfileInfo::fill_profile_map(Some(&config), Some(&credentials));
    assert_eq!(profiles.len(), 2);
    let a = profiles.get("A").unwrap();
    assert_eq!(a.aws_access_key_id, "K1");
    assert_eq!(a.aws_secret_access_key, "S1");
    assert_eq!(a.role_arn, Some("arn:aws:iam::1:role/a".to_string()));
    let b = profiles.get("B").unwrap();
    assert_eq!(b.aws_access_key_id, "K1");
    assert_eq!(b.role_arn, None);
}

#[test]
fn profile_with_a_dangling_source_is_left_out_of_the_table() {
    let config = text(&[
        "[A]",
        "source_profile = C",
        "[D]",
        "aws_access_key_id = K",
        "aws_secret_access_key = S",
    ]);
    let profiles = AwsProfileInfo::fill_profile_map(Some(&config), None);
    assert_eq!(profiles.len(), 1);
    assert!(!profiles.contains_key("A"));
    assert!(profiles.contains_key("D"));
    match StsInstance::new(Some("A"), None, &profiles) {
        Err(StsClientError::StsProfileError(name)) => assert_eq!(name, "A"),
        _ => panic!("unexpected outcome"),
    }
}

#[test]
fn profile_without_key_is_left_out_and_the_rest_stays() {
    let config = text(&[
        "[nokey]",
        "region = eu-west-1",
        "[ok]",
        "aws_access_key_id = K",
        "aws_secret_access_key = S",
    ]);
    let profiles = AwsProfileInfo::fill_profile_map(Some(&config), None);
    assert_eq!(profiles.len(), 1);
    assert_eq!(profiles.get("ok").unwrap().name, "ok");
}

#[test]
fn missing_files_give_an_empty_table() {
    let profiles = AwsProfileInfo::fill_profile_map(None, None);
    assert_eq!(profiles.len(), 0);
    assert!(profiles.is_empty());
    match StsInstance::new(Some("anything"), None, &profiles) {
        Err(StsClientError::StsProfileError(name)) => assert_eq!(name, "anything"),
        _ => panic!("unexpected outcome"),
    }
    match StsInstance::new(None, None, &profiles) {
        Err(StsClientError::StsProfileError(name)) => assert_eq!(name, "default"),
        _ => panic!("unexpected outcome"),
    }
}

#[test]
fn building_twice_gives_the_same_profiles() {
    let config = text(&["[a]", "aws_access_key_id = K", "aws_secret_access_key = S"]);
    let one = AwsProfileInfo::fill_profile_map(Some(&config), None);
    let two = AwsProfileInfo::fill_profile_map(Some(&config), None);
    assert_eq!(one.len(), two.len());
    assert_eq!(
        one.get("a").unwrap().aws_access_key_id,
        two.get("a").unwrap().aws_access_key_id
    );
}

#[test]
fn resolve_profiles_keeps_what_resolves() {
    let table = parse_config_file(&text(&[
        "[a]",
        "aws_access_key_id = K",
        "aws_secret_access_key = S",
        "[b]",
        "source_profile = a",
        "[c]",
        "source_profile = zz",
        "[d]",
        "region = r",
    ]));
    let profiles = resolve_profiles(&table);
    assert_eq!(profiles.len(), 2);
    assert_eq!(profiles.get("a").unwrap().aws_access_key_id, "K");
    assert_eq!(profiles.get("b").unwrap().aws_secret_access_key, "S");
    assert!(profiles.get("c").is_none());
    assert!(profiles.get("d").is_none());
}

#[test]
fn named_directory_comes_before_the_home_directory() {
    match locate_config_dir(Some("/etc/aws"), Some("/home/me")) {
        Ok(ConfigLocation::Directory(d)) => assert_eq!(d, "/etc/aws"),
        _ => panic!("unexpected outcome"),
    }
    match locate_config_dir(Some("/etc/aws"), None) {
        Ok(ConfigLocation::Directory(d)) => assert_eq!(d, "/etc/aws"),
        _ => panic!("unexpected outcome"),
    }
}

#[test]
fn home_directory_is_used_when_none_is_named() {
    match locate_config_dir(None, Some("/home/me")) {
        Ok(ConfigLocation::HomeSubdirectory(d)) => assert_eq!(d, "/home/me"),
        _ => panic!("unexpected outcome"),
    }
}

#[test]
fn no_directory_at_all_is_an_error() {
    match locate_config_dir::<String>(None, None) {
        Err(StsClientError::NoHomeError) => {}
        _ => panic!("unexpected outcome"),
    }
}

#[test]
fn file_names_are_the_well_known_ones() {
    assert_eq!(HOME_SUBDIRECTORY, ".aws");
    assert_eq!(CONFIG_FILE, "config");
    assert_eq!(CREDENTIALS_FILE, "credentials");
}
