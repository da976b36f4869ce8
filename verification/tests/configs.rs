use ganymede::config::{ConfigError, ConfigModel};
use ganymede::protobuf::ToProtobuf;
use ganymede::wire;

fn uid(s: &str) -> u128 {
    uuid::Uuid::parse_str(s).unwrap().as_u128()
}

fn empty_light_config() -> wire::LightConfig {
    wire::LightConfig { luminaires: Vec::new() }
}

#[test]
pub fn test_to_model() {
    let config = wire::Config {
        uid: "00000000-0000-0000-1234-000000000000".to_string(),
        display_name: "this is a config".to_string(),
        light_config: Some(empty_light_config()),
    };

    let model = ConfigModel::try_from(config).unwrap();
    assert_eq!(model.config_id, uid("00000000-0000-0000-1234-000000000000"));
    assert_eq!(model.domain_id, 0);
    assert_eq!(model.display_name, "this is a config");
    assert_eq!(model.light_config, empty_light_config());
}

#[test]
pub fn test_refuses_invalid_config_uid() {
    let config = wire::Config {
        uid: "not-a-uuid".to_string(),
        display_name: "".to_string(),
        light_config: Some(empty_light_config()),
    };

    let error = ConfigModel::try_from(config).unwrap_err();
    assert_eq!(error, ConfigError::InvalidConfigId);
}

#[test]
pub fn test_refuses_invalid_light_config() {
    let config = wire::Config {
        uid: "00000000-0000-0000-0000-000000000000".to_string(),
        display_name: "".to_string(),
        light_config: None,
    };

    let error = ConfigModel::try_from(config).unwrap_err();
    assert_eq!(error, ConfigError::InvalidLightConfig);
}

#[test]
pub fn test_to_proto() {
    let config = ConfigModel {
        config_id: uid("00000000-0000-0000-0000-000000000001"),
        domain_id: uid("00000000-0000-0000-0000-000000000002"),
        display_name: "This is a config!?".to_string(),
        light_config: wire::LightConfig {
            luminaires: vec![wire::Luminaire {
                port: 1,
                use_pwm: true,
                photo_period: vec![wire::DailySchedule {
                    start: wire::Time { hour: 1, minute: 2, second: 3 },
                    stop: wire::Time { hour: 4, minute: 5, second: 6 },
                    intensity: 255,
                }],
            }],
        },
    };

    let result = config.to_protobuf(false);
    assert_eq!(result.uid, "00000000-0000-0000-0000-000000000001");
    assert_eq!(result.display_name, "This is a config!?");
    assert_eq!(
        result.light_config,
        Some(wire::LightConfig {
            luminaires: vec![wire::Luminaire {
                port: 1,
                use_pwm: true,
                photo_period: vec![wire::DailySchedule {
                    start: wire::Time { hour: 1, minute: 2, second: 3 },
                    stop: wire::Time { hour: 4, minute: 5, second: 6 },
                    intensity: 255,
                }],
            }],
        })
    );
}
