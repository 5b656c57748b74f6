use sts_profile_auth::{AwsProfileInfo, ProfileMap, StsClientError, StsInstance};

fn lines_of(text: &[&str]) -> Vec<String> {
    text.iter().map(|l| l.to_string()).collect()
}

fn sample_profiles() -> ProfileMap {
    let config = lines_of(&[
        "[default]",
        "region = eu-central-1",
        "aws_access_key_id = KD",
        "aws_secret_access_key = SD",
        "[profile admin]",
        "region = us-west-2",
        "role_arn = arn:aws:iam::123456789012:role/admin",
        "source_profile = default",
        "[other]",
        "aws_access_key_id = KO",
        "aws_secret_access_key = SO",
    ]);
    AwsProfileInfo::fill_profile_map(Some(&config), None)
}

#[test]
fn asked_profile_comes_first() {
    let profiles = sample_profiles();
    let sts = StsInstance::new(Some("other"), Some("admin"), &profiles).unwrap();
    assert_eq!(sts.access_key_id(), "KO");
    assert_eq!(sts.secret_access_key(), "SO");
    assert_eq!(sts.get_region(), "us-east-1");
    assert_eq!(sts.role_arn(), &None);
}

#[test]
fn ambient_profile_comes_second() {
    let profiles = sample_profiles();
    let sts = StsInstance::new(None, Some("admin"), &profiles).unwrap();
    assert_eq!(sts.access_key_id(), "KD");
    assert_eq!(sts.secret_access_key(), "SD");
    assert_eq!(sts.get_region(), "us-west-2");
    assert_eq!(
        sts.role_arn(),
        &Some("arn:aws:iam::123456789012:role/admin".to_string())
    );
}

#[test]
fn default_profile_comes_last() {
    let profiles = sample_profiles();
    let sts = StsInstance::new(None, None, &profiles).unwrap();
    assert_eq!(sts.access_key_id(), "KD");
    assert_eq!(sts.get_region(), "eu-central-1");
    assert_eq!(sts.role_arn(), &None);
}

#[test]
fn unknown_profile_is_reported_by_name() {
    let profiles = sample_profiles();
    match StsInstance::new(Some("nobody"), Some("admin"), &profiles) {
        Err(StsClientError::StsProfileError(name)) => assert_eq!(name, "nobody"),
        _ => panic!("unexpected outcome"),
    }
    match StsInstance::new(None, Some("ghost"), &profiles) {
        Err(StsClientError::StsProfileError(name)) => assert_eq!(name, "ghost"),
        _ => panic!("unexpected outcome"),
    }
}

#[test]
fn instance_of_a_record_copies_its_key() {
    let record = AwsProfileInfo {
        name: "n".to_string(),
        region: "r".to_string(),
        aws_access_key_id: "K".to_string(),
        aws_secret_access_key: "S".to_string(),
        role_arn: Some("arn".to_string()),
        source_profile: Some("src".to_string()),
    };
    let sts = StsInstance::from_profile(&record);
    assert_eq!(sts.get_region(), "r");
    assert_eq!(sts.access_key_id(), "K");
    assert_eq!(sts.secret_access_key(), "S");
    assert_eq!(sts.role_arn(), &Some("arn".to_string()));
}

#[test]
fn profile_without_role_has_no_provider() {
    let profiles = sample_profiles();
    let sts = StsInstance::new(Some("default"), None, &profiles).unwrap();
    assert!(sts.get_provider().is_none());
}

#[test]
fn profile_with_role_has_a_provider_with_an_empty_cache() {
    let profiles = sample_profiles();
    let sts = StsInstance::new(Some("admin"), None, &profiles).unwrap();
    let provider = sts.get_provider().unwrap();
    assert_eq!(provider.base().access_key_id(), "KD");
    assert_eq!(provider.base().get_region(), "us-west-2");
    assert_eq!(provider.state(0), sts_profile_auth::CacheState::Empty);
}

#[test]
fn default_instance_has_no_key_and_no_role() {
    let sts = StsInstance::default();
    assert_eq!(sts.get_region(), "us-east-1");
    assert_eq!(sts.access_key_id(), "");
    assert_eq!(sts.secret_access_key(), "");
    assert_eq!(sts.role_arn(), &None);
    assert!(sts.get_provider().is_none());
}

#[test]
fn clone_of_an_instance_keeps_every_field() {
    let profiles = sample_profiles();
    let sts = StsInstance::new(Some("admin"), None, &profiles).unwrap();
    let copy = sts.clone();
    assert_eq!(sts.get_region(), copy.get_region());
    assert_eq!(sts.access_key_id(), copy.access_key_id());
    assert_eq!(sts.secret_access_key(), copy.secret_access_key());
    assert_eq!(sts.role_arn(), copy.role_arn());
}
