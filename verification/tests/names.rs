use ganymede::error::Error;
use ganymede::name::ResourceName;

fn uid(s: &str) -> u128 {
    uuid::Uuid::parse_str(s).unwrap().as_u128()
}

#[test]
fn test_parse_with_single_uuid() {
    assert_eq!(
        ResourceName::try_from("devices/QasxIsREQqivPuKUwY--OA", "devices/{}"),
        Ok(ResourceName::new(vec![("devices", uid("41ab3122-c444-42a8-af3e-e294c18fbe38"))]))
    );
}

#[test]
fn test_parse_with_many_uuid() {
    assert_eq!(
        ResourceName::try_from(
            "devicetypes/QasxIsREQqivPuKUwY--OA/features/dM9s94plQJKyQAcKAncw5Q",
            "devicetypes/{}/features/{}"
        ),
        Ok(ResourceName::new(vec![
            ("devicetypes", uid("41ab3122-c444-42a8-af3e-e294c18fbe38")),
            ("features", uid("74cf6cf7-8a65-4092-b240-070a027730e5")),
        ]))
    );
}

#[test]
fn test_parse_with_mismatch_resource_name() {
    assert_eq!(
        ResourceName::try_from("devices/QasxIsREQqivPuKUwY--OA", "features/{}"),
        Err(Error::NameError)
    );
}

#[test]
fn test_parse_with_invalid_uuid() {
    assert_eq!(
        ResourceName::try_from("features/not-a-uuid", "features/{}"),
        Err(Error::NameError)
    );
    assert_eq!(
        ResourceName::try_from("features//info", "features/{}/info"),
        Err(Error::NameError)
    );
}

#[test]
fn test_parse_with_shorter_value() {
    assert_eq!(ResourceName::try_from("features/", "features/{}"), Err(Error::NameError));
    assert_eq!(ResourceName::try_from("features", "features/{}"), Err(Error::NameError));
    assert_eq!(ResourceName::try_from("/", "features/{}"), Err(Error::NameError));
}

#[test]
fn test_parse_with_empty_values() {
    assert_eq!(ResourceName::try_from("", ""), Ok(ResourceName::new(Vec::new())));
}

#[test]
fn test_stringify() {
    assert_eq!(
        ResourceName::new(vec![
            ("devicetypes", uid("41ab3122-c444-42a8-af3e-e294c18fbe38")),
            ("features", uid("74cf6cf7-8a65-4092-b240-070a027730e5")),
        ])
        .to_string(),
        String::from("devicetypes/QasxIsREQqivPuKUwY--OA/features/dM9s94plQJKyQAcKAncw5Q"),
    );
}

#[test]
fn test_stringify_with_empty_value() {
    assert_eq!(ResourceName::new(Vec::new()).to_string(), String::new());
}

#[test]
fn test_render_after_parse_restores_name() {
    let one = "devices/QasxIsREQqivPuKUwY--OA";
    assert_eq!(ResourceName::try_from(one, "devices/{}").unwrap().to_string(), one);
    let two = "devicetypes/QasxIsREQqivPuKUwY--OA/features/dM9s94plQJKyQAcKAncw5Q";
    assert_eq!(
        ResourceName::try_from(two, "devicetypes/{}/features/{}").unwrap().to_string(),
        two
    );
}

#[test]
fn test_get_missing_key() {
    let rn = ResourceName::try_from("devices/QasxIsREQqivPuKUwY--OA", "devices/{}").unwrap();
    assert!(rn.get("devices").is_ok());
    assert_eq!(rn.get("features"), Err(Error::NameError));
}
