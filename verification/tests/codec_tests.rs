use osd_core::codec::{DecodeError, decode_client_message, encode_client_message};
use osd_core::mac::Mac;
use osd_core::message::{ClientMessage, DeviceInfo};

fn sample_info() -> DeviceInfo {
    DeviceInfo {
        hostname: Some("PC-D-7890AB".to_string()),
        mac_address: Mac::new("AA:BB:CC:DD:EE:FF").unwrap(),
    }
}

#[test]
fn round_trip_advertise() {
    let message = ClientMessage::Advertise(sample_info());
    let bytes = encode_client_message(&message);
    let decoded = decode_client_message(&bytes).unwrap();
    match decoded {
        ClientMessage::Advertise(info) => assert_eq!(info, sample_info()),
        ClientMessage::ListDevices => panic!("wrong variant decoded"),
    }
}

#[test]
fn round_trip_advertise_without_hostname() {
    let message = ClientMessage::Advertise(DeviceInfo {
        hostname: None,
        mac_address: Mac::new("0A:1B:2C:3D:4E:5F").unwrap(),
    });
    let bytes = encode_client_message(&message);
    assert_eq!(decode_client_message(&bytes).unwrap(), message);
}

#[test]
fn round_trip_list_devices() {
    let bytes = encode_client_message(&ClientMessage::ListDevices);
    assert_eq!(decode_client_message(&bytes).unwrap(), ClientMessage::ListDevices);
}

#[test]
fn round_trip_unicode_hostname() {
    let message = ClientMessage::Advertise(DeviceInfo {
        hostname: Some("Gerät-Ü".to_string()),
        mac_address: Mac::new("AA:BB:CC:DD:EE:FF").unwrap(),
    });
    let bytes = encode_client_message(&message);
    assert_eq!(decode_client_message(&bytes).unwrap(), message);
}

#[test]
fn decode_rejects_malformed_bytes() {
    assert_eq!(decode_client_message(&vec![]).unwrap_err(), DecodeError::Malformed);
    assert_eq!(decode_client_message(&vec![1, 2, 3]).unwrap_err(), DecodeError::Malformed);
    let garbage: Vec<u8> = (0..64).map(|i| (i * 37 % 251) as u8).collect();
    assert_eq!(decode_client_message(&garbage).unwrap_err(), DecodeError::Malformed);
}

#[test]
fn decode_rejects_truncated_frame() {
    let mut bytes = encode_client_message(&ClientMessage::Advertise(sample_info()));
    bytes.pop();
    assert_eq!(decode_client_message(&bytes).unwrap_err(), DecodeError::Malformed);
}

#[test]
fn decode_rejects_trailing_bytes() {
    let mut bytes = encode_client_message(&ClientMessage::ListDevices);
    bytes.push(0);
    assert_eq!(decode_client_message(&bytes).unwrap_err(), DecodeError::Malformed);
}

#[test]
fn decode_failure_leaves_later_frames_unaffected() {
    let bad: Vec<u8> = vec![255; 40];
    assert!(decode_client_message(&bad).is_err());
    let good = encode_client_message(&ClientMessage::Advertise(sample_info()));
    assert!(decode_client_message(&good).is_ok());
}

#[test]
fn encode_matches_bson_document() {
    let mut inner = bson::Document::new();
    inner.insert("hostname", "PC-D-7890AB");
    inner.insert("mac_address", "AA:BB:CC:DD:EE:FF");
    let mut outer = bson::Document::new();
    outer.insert("Advertise", inner);
    let expected = outer.to_vec().unwrap();

    let ours = encode_client_message(&ClientMessage::Advertise(sample_info()));
    assert_eq!(ours, expected);
}

#[test]
fn encode_matches_bson_document_null_hostname() {
    let mut inner = bson::Document::new();
    inner.insert("hostname", bson::Bson::Null);
    inner.insert("mac_address", "AA:BB:CC:DD:EE:FF");
    let mut outer = bson::Document::new();
    outer.insert("Advertise", inner);
    let expected = outer.to_vec().unwrap();

    let message = ClientMessage::Advertise(DeviceInfo {
        hostname: None,
        mac_address: Mac::new("AA:BB:CC:DD:EE:FF").unwrap(),
    });
    assert_eq!(encode_client_message(&message), expected);
}

#[test]
fn bson_reads_our_frame_back() {
    let bytes = encode_client_message(&ClientMessage::Advertise(sample_info()));
    let doc = bson::Document::from_reader(&mut bytes.as_slice()).unwrap();
    let inner = doc.get_document("Advertise").unwrap();
    assert_eq!(inner.get_str("hostname").unwrap(), "PC-D-7890AB");
    assert_eq!(inner.get_str("mac_address").unwrap(), "AA:BB:CC:DD:EE:FF");
}

#[test]
fn decode_rejects_noncanonical_mac_text() {
    let mut inner = bson::Document::new();
    inner.insert("hostname", bson::Bson::Null);
    inner.insert("mac_address", "aa:bb:cc:dd:ee:ff");
    let mut outer = bson::Document::new();
    outer.insert("Advertise", inner);
    let bytes = outer.to_vec().unwrap();
    assert_eq!(decode_client_message(&bytes).unwrap_err(), DecodeError::Malformed);
}
