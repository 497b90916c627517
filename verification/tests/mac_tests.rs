use osd_core::mac::Mac;

#[test]
fn mac_colon_form_is_canonical() {
    let mac = Mac::new("AA:BB:CC:DD:EE:FF").unwrap();
    assert_eq!(mac.as_str(), "AA:BB:CC:DD:EE:FF");
}

#[test]
fn mac_bare_form_is_canonicalized() {
    let mac = Mac::new("AABBCCDDEEFF").unwrap();
    assert_eq!(mac.as_str(), "AA:BB:CC:DD:EE:FF");
}

#[test]
fn mac_lowercase_colon_input_is_uppercased() {
    let mac = Mac::new("aa:bb:cc:dd:ee:ff").unwrap();
    assert_eq!(mac.as_str(), "AA:BB:CC:DD:EE:FF");
}

#[test]
fn mac_lowercase_bare_input_is_uppercased() {
    let mac = Mac::new("0a1b2c3d4e5f").unwrap();
    assert_eq!(mac.as_str(), "0A:1B:2C:3D:4E:5F");
}

#[test]
fn mac_rejects_non_hex_digits() {
    assert!(Mac::new("GG:HH:II:JJ:KK:LL").is_none());
}

#[test]
fn mac_rejects_sixteen_characters() {
    assert!(Mac::new("AA:BB:CC:DD:EE:F").is_none());
}

#[test]
fn mac_rejects_thirteen_characters() {
    assert!(Mac::new("AABBCCDDEEFF0").is_none());
}

#[test]
fn mac_rejects_misplaced_colons() {
    assert!(Mac::new("AABB:CC:DD:EE:FF:").is_none());
    assert!(Mac::new(":::::::::::::::::").is_none());
}

#[test]
fn mac_rejects_empty_and_unicode() {
    assert!(Mac::new("").is_none());
    assert!(Mac::new("ä:BB:CC:DD:EE:FF").is_none());
}

#[test]
fn mac_placeholder_is_fixed() {
    assert_eq!(Mac::placeholder().as_str(), "A0:B1:C2:D3:E4:F5");
}
