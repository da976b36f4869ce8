use ganymede::b64uuid::{try_b64_to_uuid, try_parse_uuid, uuid_to_b64, uuid_to_string};

fn uid(s: &str) -> u128 {
    uuid::Uuid::parse_str(s).unwrap().as_u128()
}

#[test]
fn test_encode_known_identifier() {
    let id = uid("41ab3122-c444-42a8-af3e-e294c18fbe38");
    assert_eq!(uuid_to_b64(id), "QasxIsREQqivPuKUwY--OA");
}

#[test]
fn test_decode_known_identifier() {
    let id = uid("74cf6cf7-8a65-4092-b240-070a027730e5");
    assert_eq!(try_b64_to_uuid("dM9s94plQJKyQAcKAncw5Q"), Some(id));
}

#[test]
fn test_decode_refuses_bad_input() {
    assert_eq!(try_b64_to_uuid("not-a-uuid"), None);
    assert_eq!(try_b64_to_uuid(""), None);
    assert_eq!(try_b64_to_uuid("QasxIsREQqivPuKUwY--OA0"), None);
}

#[test]
fn test_hyphenated_form() {
    let id = uid("41ab3122-c444-42a8-af3e-e294c18fbe38");
    assert_eq!(uuid_to_string(id), "41ab3122-c444-42a8-af3e-e294c18fbe38");
    assert_eq!(uuid_to_string(0), "00000000-0000-0000-0000-000000000000");
}

#[test]
fn test_parse_uuid_text() {
    let id = uid("94743ea0-7e27-46eb-8735-795a1b635818");
    assert_eq!(try_parse_uuid("94743ea0-7e27-46eb-8735-795a1b635818"), Some(id));
    assert_eq!(try_parse_uuid("not-a-uuid"), None);
}

#[test]
fn test_b64_round_trip() {
    let id = uid("94743ea0-7e27-46eb-8735-795a1b635818");
    assert_eq!(try_b64_to_uuid(uuid_to_b64(id).as_str()), Some(id));
}
