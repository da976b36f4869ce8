use ganymede::config::{ConfigError, ConfigModel};
use ganymede::database::{Database, DeviceFilter, DomainDatabase, UniqueDeviceFilter};
use ganymede::device::{DeviceError, DeviceModel};
use ganymede::error::{Error, ErrorSignal};
use ganymede::feature::{FeatureModel, FeatureType};
use ganymede::feature_profile::FeatureProfileModel;
use ganymede::mac::Mac;
use ganymede::profile::ProfileModel;
use ganymede::service::DeviceService;
use ganymede::wire;

fn create_test_config() -> ConfigModel {
    ConfigModel {
        config_id: 0,
        domain_id: 0,
        display_name: "config".to_string(),
        light_config: wire::LightConfig { luminaires: Vec::new() },
    }
}

fn create_test_device(config_id: u128) -> DeviceModel {
    DeviceModel {
        device_id: 0,
        display_name: "This is a device!".to_string(),
        mac: Mac::try_parse("00:00:00:00:00:00").unwrap(),
        config_id,
        description: "This is a description".to_string(),
        timezone: "America/Montreal".to_string(),
    }
}

#[test]
fn test_can_remove_config_in_use() {
    let mut database = DomainDatabase::new(Database::new(), 0);

    let config = database.insert_config(&create_test_config()).unwrap();
    let _ = database.insert_device(create_test_device(config.config_id)).unwrap();

    let err = database.delete_config(config.config_id).unwrap_err();
    assert_eq!(err, ConfigError::ConfigInUse);
}

#[test]
fn test_config_deletable_after_device_removed() {
    let mut database = DomainDatabase::new(Database::new(), 0);

    let config = database.insert_config(&create_test_config()).unwrap();
    let device = database.insert_device(create_test_device(config.config_id)).unwrap();

    assert_eq!(database.delete_config(config.config_id), Err(ConfigError::ConfigInUse));
    database.delete_device(device.device_id).unwrap();
    assert_eq!(database.delete_config(config.config_id), Ok(()));
    assert_eq!(database.delete_config(config.config_id), Err(ConfigError::NoSuchConfig));
}

#[test]
fn test_insert_feature() {
    let mut database = DomainDatabase::new(Database::new(), 0);

    let feature = FeatureModel::new(0, 0, "A feature".into(), FeatureType::Light);
    let result = database.insert_feature(feature).unwrap();

    assert_ne!(result.id(), 0);
}

#[test]
fn test_insert_profile() {
    let mut database = DomainDatabase::new(Database::new(), 0);

    let profile = ProfileModel::new(0, 0, "A profile".into(), Vec::new());
    let result = database.insert_profile(profile).unwrap();

    assert_ne!(result.id(), 0);
}

#[test]
fn test_mac_unique_within_tenant_only() {
    let mut t1 = DomainDatabase::new(Database::new(), 1);
    let config = t1.insert_config(&create_test_config()).unwrap();

    let first = t1.insert_device(create_test_device(config.config_id)).unwrap();
    assert_ne!(first.device_id, 0);

    let err = t1.insert_device(create_test_device(config.config_id)).unwrap_err();
    assert_eq!(err, DeviceError::MacConflict);

    let mut t2 = DomainDatabase::new(t1.into_pool(), 2);
    let other = t2.insert_device(create_test_device(config.config_id)).unwrap();
    assert_ne!(other.device_id, 0);
}

#[test]
fn test_update_device_mac_rules() {
    let mut db = DomainDatabase::new(Database::new(), 1);
    let config = db.insert_config(&create_test_config()).unwrap();

    let first = db.insert_device(create_test_device(config.config_id)).unwrap();
    let mut second = create_test_device(config.config_id);
    second.mac = Mac::try_parse("aa:bb:cc:dd:ee:ff").unwrap();
    let second = db.insert_device(second).unwrap();

    // updating a device to its own unchanged MAC succeeds
    let same = db.update_device(first.clone()).unwrap();
    assert_eq!(same.mac.to_string(), "00:00:00:00:00:00");

    // updating to a MAC held by a different device of the tenant fails
    let mut stolen = second.clone();
    stolen.mac = Mac::try_parse("00:00:00:00:00:00").unwrap();
    assert_eq!(db.update_device(stolen).unwrap_err(), DeviceError::MacConflict);
}

#[test]
fn test_fetch_devices_by_name_filter() {
    let mut db = DomainDatabase::new(Database::new(), 1);
    let config = db.insert_config(&create_test_config()).unwrap();

    let mut a = create_test_device(config.config_id);
    a.display_name = "greenhouse north".to_string();
    db.insert_device(a).unwrap();

    let mut b = create_test_device(config.config_id);
    b.display_name = "cellar".to_string();
    b.mac = Mac::try_parse("aa:bb:cc:dd:ee:ff").unwrap();
    db.insert_device(b).unwrap();

    let hits = db.fetch_many_device(DeviceFilter::NameFilter("house".to_string())).unwrap();
    assert_eq!(hits.len(), 1);
    assert_eq!(hits[0].display_name, "greenhouse north");

    let all = db.fetch_many_device(DeviceFilter::NameFilter("".to_string())).unwrap();
    assert_eq!(all.len(), 2);
}

#[test]
fn test_fetch_one_device_by_mac() {
    let mut db = DomainDatabase::new(Database::new(), 1);
    let config = db.insert_config(&create_test_config()).unwrap();
    let stored = db.insert_device(create_test_device(config.config_id)).unwrap();

    let mac = Mac::try_parse("00:00:00:00:00:00").unwrap();
    let found = db.fetch_one_device(UniqueDeviceFilter::DeviceMac(mac)).unwrap();
    assert_eq!(found, stored);

    let missing = Mac::try_parse("aa:bb:cc:dd:ee:ff").unwrap();
    assert_eq!(
        db.fetch_one_device(UniqueDeviceFilter::DeviceMac(missing)).unwrap_err(),
        DeviceError::NoSuchDevice
    );
}

fn light_fp(feature_id: u128, display_name: &str) -> FeatureProfileModel {
    FeatureProfileModel::try_new(
        0,
        0,
        display_name.to_string(),
        0,
        feature_id,
        FeatureType::Light,
        wire::FeatureProfileConfig::LightProfile(wire::LightProfile { control_points: Vec::new() }),
    )
    .unwrap()
}

#[test]
fn test_profile_children_scoped_to_profile_and_tenant() {
    let mut t1 = DomainDatabase::new(Database::new(), 1);
    let f1 = t1.insert_feature(FeatureModel::new(0, 0, "light".into(), FeatureType::Light)).unwrap();
    let p1 = t1
        .insert_profile(ProfileModel::new(0, 0, "p one".into(), vec![light_fp(f1.id(), "fp one")]))
        .unwrap();
    assert_eq!(p1.feature_profiles().len(), 1);

    let mut t2 = DomainDatabase::new(t1.into_pool(), 2);
    let f2 = t2.insert_feature(FeatureModel::new(0, 0, "light".into(), FeatureType::Light)).unwrap();
    let p2 = t2
        .insert_profile(ProfileModel::new(0, 0, "p two".into(), vec![light_fp(f2.id(), "fp two")]))
        .unwrap();

    let fetched2 = t2.fetch_one_profile(p2.id()).unwrap();
    assert_eq!(fetched2.feature_profiles().len(), 1);
    assert_eq!(fetched2.feature_profiles()[0].display_name(), "fp two");

    let mut t1 = DomainDatabase::new(t2.into_pool(), 1);
    let fetched1 = t1.fetch_one_profile(p1.id()).unwrap();
    assert_eq!(fetched1.feature_profiles().len(), 1);
    assert_eq!(fetched1.feature_profiles()[0].display_name(), "fp one");
    assert_eq!(fetched1.feature_profiles()[0].profile_id(), p1.id());

    // a profile of another tenant is invisible
    assert_eq!(
        t1.fetch_one_profile(p2.id()).unwrap_err(),
        Error::NoSuchResourceError("Profile", p2.id())
    );
}

#[test]
fn test_delete_profile_cascades() {
    let mut db = DomainDatabase::new(Database::new(), 1);
    let f = db.insert_feature(FeatureModel::new(0, 0, "light".into(), FeatureType::Light)).unwrap();
    let p = db
        .insert_profile(ProfileModel::new(0, 0, "p".into(), vec![light_fp(f.id(), "fp")]))
        .unwrap();

    let fp_id = p.feature_profiles()[0].id();
    db.delete_profile(p.id()).unwrap();
    assert_eq!(
        db.fetch_one_feature_profile(p.id(), fp_id).unwrap_err(),
        Error::NoSuchResourceError("FeatureProfile", fp_id)
    );
    assert_eq!(
        db.delete_profile(p.id()).unwrap_err(),
        Error::NoSuchResourceError("Profile", p.id())
    );
}

#[test]
fn test_delete_feature_refused_while_referenced() {
    let mut db = DomainDatabase::new(Database::new(), 1);
    let f = db.insert_feature(FeatureModel::new(0, 0, "light".into(), FeatureType::Light)).unwrap();
    let p = db
        .insert_profile(ProfileModel::new(0, 0, "p".into(), vec![light_fp(f.id(), "fp")]))
        .unwrap();

    // the storage layer's foreign key protects a referenced feature
    let err = db.delete_feature(f.id()).unwrap_err();
    assert!(matches!(err, Error::DatabaseError(_)));
    assert!(db.fetch_one_feature(f.id()).is_ok());

    // the cascade of the profile delete releases the reference
    db.delete_profile(p.id()).unwrap();
    assert_eq!(db.delete_feature(f.id()), Ok(()));
}

#[test]
fn test_feature_crud() {
    let mut db = DomainDatabase::new(Database::new(), 1);
    let f = db.insert_feature(FeatureModel::new(0, 0, "a".into(), FeatureType::Light)).unwrap();

    let renamed = FeatureModel::new(f.id(), 0, "b".into(), FeatureType::Light);
    let updated = db.update_feature(renamed).unwrap();
    assert_eq!(updated.display_name(), "b");

    let all = db.fetch_all_features().unwrap();
    assert_eq!(all.len(), 1);

    db.delete_feature(f.id()).unwrap();
    assert_eq!(
        db.fetch_one_feature(f.id()).unwrap_err(),
        Error::NoSuchResourceError("Feature", f.id())
    );
}

#[test]
fn test_error_messages_never_leak_database_detail() {
    assert_eq!(Error::DatabaseError("password in a query".into()).message(), "internal error");
    assert_eq!(DeviceError::DatabaseError("dsn".into()).message(), "internal error");
    assert_eq!(ConfigError::DatabaseError("dsn".into()).message(), "internal error");
    assert_eq!(
        Error::ValueError("999".into(), "FeatureType").message(),
        "invalid value '999' for type FeatureType"
    );
    assert_eq!(
        Error::NoSuchResourceError("Feature", 1).message(),
        "no such resource Feature/00000000-0000-0000-0000-000000000001"
    );
    assert_eq!(DeviceError::MacConflict.message(), "mac address already in use");
    assert_eq!(ConfigError::ConfigInUse.message(), "config is in use");
}

#[test]
fn test_error_signals() {
    assert_eq!(Error::NameError.signal(), ErrorSignal::InvalidArgument);
    assert_eq!(Error::DatabaseError("secret detail".into()).signal(), ErrorSignal::Internal);
    assert_eq!(ConfigError::ConfigInUse.signal(), ErrorSignal::FailedPrecondition);
    assert_eq!(ConfigError::NoSuchConfig.signal(), ErrorSignal::NotFound);
    assert_eq!(DeviceError::MacConflict.signal(), ErrorSignal::InvalidArgument);
    assert_eq!(DeviceError::NoSuchDevice.signal(), ErrorSignal::NotFound);
}

fn wire_device(mac: &str, timezone: &str) -> wire::Device {
    wire::Device {
        name: "".to_string(),
        mac: mac.to_string(),
        display_name: "a device".to_string(),
        description: "".to_string(),
        timezone: timezone.to_string(),
        config_name: "config/AAAAAAAAAAAAAAAAAAAAAA".to_string(),
    }
}

#[test]
fn test_create_device_scenario() {
    let mut service = DeviceService::new(Database::new());
    let t1: u128 = 1;
    let t2: u128 = 2;

    let created = service
        .create_device_internal(t1, wire_device("00:00:00:00:00:00", "America/Montreal"))
        .unwrap();
    assert_ne!(created.name, "devices/AAAAAAAAAAAAAAAAAAAAAA");
    assert!(created.name.starts_with("devices/"));

    let err = service
        .create_device_internal(t1, wire_device("00:00:00:00:00:00", "America/Montreal"))
        .unwrap_err();
    assert_eq!(err, DeviceError::MacConflict);

    let other = service
        .create_device_internal(t2, wire_device("00:00:00:00:00:00", "America/Montreal"))
        .unwrap();
    assert!(other.name.starts_with("devices/"));
}

#[test]
fn test_create_device_refuses_invalid_timezone() {
    let mut service = DeviceService::new(Database::new());
    let err = service
        .create_device_internal(1, wire_device("00:00:00:00:00:00", "Rohan/Edoras"))
        .unwrap_err();
    assert_eq!(err, DeviceError::InvalidTimezone);
}

#[test]
fn test_create_device_refuses_invalid_mac() {
    let mut service = DeviceService::new(Database::new());
    let err = service
        .create_device_internal(1, wire_device("", "America/Montreal"))
        .unwrap_err();
    assert_eq!(err, DeviceError::InvalidMac);
}

#[test]
fn test_service_feature_round_trip() {
    let mut service = DeviceService::new(Database::new());
    let feature = wire::Feature {
        name: "".to_string(),
        display_name: "lights".to_string(),
        feature_type: 1,
    };
    let created = service.create_feature_inner(1, feature).unwrap();
    assert!(created.name.starts_with("features/"));

    let fetched = service.get_feature_inner(1, created.name.as_str()).unwrap();
    assert_eq!(fetched, created);

    service.delete_feature_inner(1, created.name.as_str()).unwrap();
    assert!(service.get_feature_inner(1, created.name.as_str()).is_err());
}

#[test]
fn test_service_profile_round_trip() {
    let mut service = DeviceService::new(Database::new());
    let feature = service
        .create_feature_inner(
            1,
            wire::Feature { name: "".to_string(), display_name: "f".to_string(), feature_type: 1 },
        )
        .unwrap();

    let profile = wire::Profile {
        name: "".to_string(),
        display_name: "p".to_string(),
        feature_profiles: vec![wire::FeatureProfile {
            name: "".to_string(),
            display_name: "fp".to_string(),
            feature_name: feature.name.clone(),
            config: Some(wire::FeatureProfileConfig::LightProfile(wire::LightProfile {
                control_points: Vec::new(),
            })),
        }],
    };
    let created = service.create_profile_inner(1, profile).unwrap();
    assert!(created.name.starts_with("profiles/"));
    assert_eq!(created.feature_profiles.len(), 1);
    assert_eq!(created.feature_profiles[0].feature_name, feature.name);

    let fetched = service.get_profile_inner(1, created.name.as_str()).unwrap();
    assert_eq!(fetched.feature_profiles.len(), 1);

    service.delete_profile_inner(1, created.name.as_str()).unwrap();
    assert!(service.get_profile_inner(1, created.name.as_str()).is_err());
}

#[test]
fn test_config_crud() {
    let mut db = DomainDatabase::new(Database::new(), 1);

    let stored = db.insert_config(&create_test_config()).unwrap();
    assert_ne!(stored.config_id, 0);
    assert_eq!(db.exists_config(stored.config_id), Ok(true));
    assert_eq!(db.exists_config(0), Ok(false));

    let mut renamed = create_test_config();
    renamed.config_id = stored.config_id;
    renamed.display_name = "renamed".to_string();
    let updated = db.update_config(&renamed).unwrap();
    assert_eq!(updated.display_name, "renamed");
    assert_eq!(db.fetch_one_config(stored.config_id).unwrap().display_name, "renamed");

    let mut absent = create_test_config();
    absent.config_id = 424242;
    assert_eq!(db.update_config(&absent).unwrap_err(), ConfigError::NoSuchConfig);
}

#[test]
fn test_fetch_many_config_filter() {
    let mut db = DomainDatabase::new(Database::new(), 1);

    let mut a = create_test_config();
    a.display_name = "summer schedule".to_string();
    db.insert_config(&a).unwrap();

    let mut b = create_test_config();
    b.display_name = "winter schedule".to_string();
    db.insert_config(&b).unwrap();

    let hits = db.fetch_many_config(Some("win".to_string())).unwrap();
    assert_eq!(hits.len(), 1);
    assert_eq!(hits[0].display_name, "winter schedule");

    let all = db.fetch_many_config(None).unwrap();
    assert_eq!(all.len(), 2);

    // another tenant sees nothing
    let other = DomainDatabase::new(db.into_pool(), 2);
    assert_eq!(other.fetch_many_config(None).unwrap().len(), 0);
}

#[test]
fn test_fetch_all_profiles_aggregates() {
    let mut db = DomainDatabase::new(Database::new(), 1);
    let f = db.insert_feature(FeatureModel::new(0, 0, "light".into(), FeatureType::Light)).unwrap();
    db.insert_profile(ProfileModel::new(0, 0, "p one".into(), vec![light_fp(f.id(), "fp one")]))
        .unwrap();
    db.insert_profile(ProfileModel::new(0, 0, "p two".into(), Vec::new())).unwrap();

    let mut all = db.fetch_all_profiles().unwrap();
    assert_eq!(all.len(), 2);
    all.sort_by_key(|p| p.id());
    assert_eq!(all[0].feature_profiles().len(), 1);
    assert_eq!(all[1].feature_profiles().len(), 0);
}

#[test]
fn test_update_feature_profile() {
    let mut db = DomainDatabase::new(Database::new(), 1);
    let f = db.insert_feature(FeatureModel::new(0, 0, "light".into(), FeatureType::Light)).unwrap();
    let p = db
        .insert_profile(ProfileModel::new(0, 0, "p".into(), vec![light_fp(f.id(), "fp")]))
        .unwrap();
    let fps = p.feature_profiles();
    let stored = &fps[0];

    let renamed = FeatureProfileModel::try_new(
        stored.id(),
        0,
        "fp renamed".to_string(),
        stored.profile_id(),
        stored.feature_id(),
        FeatureType::Light,
        wire::FeatureProfileConfig::LightProfile(wire::LightProfile { control_points: Vec::new() }),
    )
    .unwrap();
    let updated = db.update_feature_profile(renamed).unwrap();
    assert_eq!(updated.display_name(), "fp renamed");

    let fetched = db.fetch_one_feature_profile(stored.profile_id(), stored.id()).unwrap();
    assert_eq!(fetched.display_name(), "fp renamed");

    db.delete_feature_profile(stored.profile_id(), stored.id()).unwrap();
    assert!(db.fetch_one_feature_profile(stored.profile_id(), stored.id()).is_err());
}

#[test]
fn test_service_device_lifecycle() {
    let mut service = DeviceService::new(Database::new());
    let created = service
        .create_device_internal(7, wire_device("00:00:00:00:00:00", "America/Montreal"))
        .unwrap();

    let fetched = service.get_device_internal(7, created.name.as_str()).unwrap();
    assert_eq!(fetched, created);

    let mut renamed = fetched.clone();
    renamed.display_name = "renamed".to_string();
    let updated = service.update_device_internal(7, renamed).unwrap();
    assert_eq!(updated.display_name, "renamed");

    let listed = service.list_device_internal(7, "".to_string()).unwrap();
    assert_eq!(listed.len(), 1);
    assert_eq!(listed[0].display_name, "renamed");

    service.delete_device_internal(7, created.name.as_str()).unwrap();
    assert_eq!(
        service.get_device_internal(7, created.name.as_str()).unwrap_err(),
        DeviceError::NoSuchDevice
    );
    assert_eq!(
        service.get_device_internal(7, "nonsense").unwrap_err(),
        DeviceError::InvalidDeviceId
    );
}

#[test]
fn test_service_update_feature_and_profile() {
    let mut service = DeviceService::new(Database::new());
    let feature = service
        .create_feature_inner(
            3,
            wire::Feature { name: "".to_string(), display_name: "f".to_string(), feature_type: 1 },
        )
        .unwrap();

    let mut renamed = feature.clone();
    renamed.display_name = "f renamed".to_string();
    let updated = service.update_feature_inner(3, renamed).unwrap();
    assert_eq!(updated.display_name, "f renamed");

    let profile = service
        .create_profile_inner(
            3,
            wire::Profile {
                name: "".to_string(),
                display_name: "p".to_string(),
                feature_profiles: Vec::new(),
            },
        )
        .unwrap();
    let mut renamed = profile.clone();
    renamed.display_name = "p renamed".to_string();
    let updated = service.update_profile_inner(3, renamed).unwrap();
    assert_eq!(updated.display_name, "p renamed");
    assert_eq!(
        service.get_profile_inner(3, profile.name.as_str()).unwrap().display_name,
        "p renamed"
    );
}
