use ganymede::mac::Mac;

#[test]
fn test_try_into_mac() {
    assert!(Mac::try_parse(&"00:00:00:00:00:00".to_string()).is_ok());
    assert!(Mac::try_parse(&"AA:bb:CC:dd:EE:ff".to_string()).is_ok());

    assert!(Mac::try_parse(&"not-a-mac".to_string()).is_err());
    assert!(Mac::try_parse("aa:aa:aa:aa:aa:GG").is_err());
    assert!(Mac::try_parse("aa:aa:aa:aa:aa:aa:aa").is_err());
    assert!(Mac::try_parse("aaaaaaaaaaaa").is_err());
    assert!(Mac::try_parse("").is_err());
}

#[test]
fn test_mac_is_normalized() {
    let mac = Mac::try_parse("AA:bb:CC:dd:EE:ff").unwrap();
    assert_eq!(mac.to_string(), "aa:bb:cc:dd:ee:ff");
}
