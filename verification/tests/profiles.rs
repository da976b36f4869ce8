use ganymede::error::Error;
use ganymede::profile::ProfileModel;
use ganymede::protobuf::ToProtobuf;
use ganymede::wire;

fn uid(s: &str) -> u128 {
    uuid::Uuid::parse_str(s).unwrap().as_u128()
}

#[test]
fn test_parse_profile() {
    let profile = wire::Profile {
        name: "profiles/lHQ-oH4nRuuHNXlaG2NYGA".into(),
        display_name: "A profile".into(),
        feature_profiles: Vec::new(),
    };

    let expected = ProfileModel::new(
        uid("94743ea0-7e27-46eb-8735-795a1b635818"),
        0,
        "A profile".into(),
        Vec::new(),
    );

    assert_eq!(ProfileModel::try_from_protobuf(profile, 0, false).unwrap(), expected);
}

#[test]
fn protobuf_test_parse_feature_with_bad_name() {
    let profile = wire::Profile {
        name: "device/lHQ-oH4nRuuHNXlaG2NYGA".into(),
        display_name: "A feature".into(),
        feature_profiles: Vec::new(),
    };

    assert_eq!(
        ProfileModel::try_from_protobuf(profile, 0, false).unwrap_err(),
        Error::NameError
    );
}

#[test]
fn protobuf_test_serialize_model() {
    let feature = ProfileModel::new(
        uid("94743ea0-7e27-46eb-8735-795a1b635818"),
        0,
        "some string\nyeah".into(),
        Vec::new(),
    );

    assert_eq!(
        feature.to_protobuf(false),
        wire::Profile {
            name: "profiles/lHQ-oH4nRuuHNXlaG2NYGA".into(),
            display_name: "some string\nyeah".into(),
            feature_profiles: Vec::new(),
        }
    )
}
