use ganymede::error::Error;
use ganymede::feature::{FeatureModel, FeatureType};
use ganymede::protobuf::ToProtobuf;
use ganymede::wire;

fn uid(s: &str) -> u128 {
    uuid::Uuid::parse_str(s).unwrap().as_u128()
}

#[test]
fn test_parse_feature() {
    let feature = wire::Feature {
        name: "features/lHQ-oH4nRuuHNXlaG2NYGA".into(),
        display_name: "A feature".into(),
        feature_type: 1,
    };

    let expected = FeatureModel::new(
        uid("94743ea0-7e27-46eb-8735-795a1b635818"),
        0,
        "A feature".into(),
        FeatureType::Light,
    );

    assert_eq!(FeatureModel::try_from_protobuf(feature, 0, false).unwrap(), expected);
}

#[test]
fn test_parse_feature_with_bad_name() {
    let feature = wire::Feature {
        name: "device/lHQ-oH4nRuuHNXlaG2NYGA".into(),
        display_name: "A feature".into(),
        feature_type: 1,
    };

    assert_eq!(
        FeatureModel::try_from_protobuf(feature, 0, false).unwrap_err(),
        Error::NameError
    );
}

#[test]
fn test_parse_feature_with_unspecified_type() {
    let feature = wire::Feature {
        name: "features/lHQ-oH4nRuuHNXlaG2NYGA".into(),
        display_name: "A feature".into(),
        feature_type: 0,
    };

    assert_eq!(
        FeatureModel::try_from_protobuf(feature, 0, false).unwrap_err(),
        Error::ValueError("Unspecified".into(), "FeatureType")
    );
}

#[test]
fn test_parse_feature_with_invalid_type() {
    let feature = wire::Feature {
        name: "features/lHQ-oH4nRuuHNXlaG2NYGA".into(),
        display_name: "A feature".into(),
        feature_type: 999,
    };

    assert_eq!(
        FeatureModel::try_from_protobuf(feature, 0, false).unwrap_err(),
        Error::ValueError("999".into(), "FeatureType")
    );
}

#[test]
fn test_parse_feature_with_negative_type() {
    let feature = wire::Feature {
        name: "features/lHQ-oH4nRuuHNXlaG2NYGA".into(),
        display_name: "A feature".into(),
        feature_type: -5,
    };

    assert_eq!(
        FeatureModel::try_from_protobuf(feature, 0, false).unwrap_err(),
        Error::ValueError("-5".into(), "FeatureType")
    );
}

#[test]
fn test_serialize_model() {
    let feature = FeatureModel::new(
        uid("94743ea0-7e27-46eb-8735-795a1b635818"),
        0,
        "some string\nyeah".into(),
        FeatureType::Light,
    );

    assert_eq!(
        feature.to_protobuf(false),
        wire::Feature {
            name: "features/lHQ-oH4nRuuHNXlaG2NYGA".into(),
            display_name: "some string\nyeah".into(),
            feature_type: 1,
        }
    )
}

#[test]
fn test_feature_type_validation() {
    assert!(FeatureType::try_from(1).is_ok());
    assert_eq!(
        FeatureType::try_from(0).unwrap_err(),
        Error::ValueError("Unspecified".into(), "FeatureType")
    );
    assert_eq!(
        FeatureType::try_from(2).unwrap_err(),
        Error::ValueError("2".into(), "FeatureType")
    );
}
