use osd_core::device::{
    Bios, ComputerSystem, DeviceType, GetMacError, NetworkAdapter, SystemEnclosure,
    generate_asset_id, get_device_type, get_local_mac_address, get_serial_number,
    placeholder_asset_id,
};

fn enclosure(codes: Option<Vec<u16>>, serial: Option<&str>) -> SystemEnclosure {
    SystemEnclosure {
        chassis_types: codes,
        serial_number: serial.map(|s| s.to_string()),
    }
}

fn bios(serial: &str) -> Bios {
    Bios { serial_number: serial.to_string() }
}

fn system(manufacturer: Option<&str>) -> ComputerSystem {
    ComputerSystem { manufacturer: manufacturer.map(|s| s.to_string()) }
}

#[test]
fn chassis_code_4_is_desktop() {
    assert_eq!(DeviceType::from_chassis(&4), DeviceType::Desktop);
}

#[test]
fn chassis_code_10_is_laptop() {
    assert_eq!(DeviceType::from_chassis(&10), DeviceType::Laptop);
}

#[test]
fn chassis_code_1_is_unknown() {
    assert_eq!(DeviceType::from_chassis(&1), DeviceType::Unknown);
}

#[test]
fn chassis_list_first_non_unknown_wins() {
    let e = enclosure(Some(vec![1, 5]), None);
    assert_eq!(get_device_type(&e), DeviceType::Desktop);
}

#[test]
fn chassis_list_all_unknown_is_unknown() {
    let e = enclosure(Some(vec![1, 2, 99]), None);
    assert_eq!(get_device_type(&e), DeviceType::Unknown);
    let none = enclosure(None, None);
    assert_eq!(get_device_type(&none), DeviceType::Unknown);
}

#[test]
fn oem_serial_forces_bios_fallback() {
    let e = enclosure(Some(vec![4]), Some("OEM1234567"));
    let id = generate_asset_id(&e, &vec![system(Some("Dell"))], &vec![bios("1234567890AB")]);
    assert_eq!(id.unwrap(), "PC-D-567890AB");
}

#[test]
fn asset_id_with_manufacturer() {
    let e = enclosure(Some(vec![4]), Some("1234567890AB"));
    let id = generate_asset_id(&e, &vec![system(Some("Dell"))], &vec![]);
    assert_eq!(id.unwrap(), "PC-D-567890AB");
}

#[test]
fn asset_id_without_manufacturer() {
    let e = enclosure(Some(vec![4]), Some("1234567890AB"));
    let id = generate_asset_id(&e, &vec![], &vec![]);
    assert_eq!(id.unwrap(), "PC-567890AB");
}

#[test]
fn asset_id_skips_empty_manufacturer() {
    let e = enclosure(Some(vec![4]), Some("1234567890AB"));
    let systems = vec![system(None), system(Some("")), system(Some("Acme"))];
    let id = generate_asset_id(&e, &systems, &vec![]);
    assert_eq!(id.unwrap(), "PC-A-567890AB");
}

#[test]
fn asset_id_laptop_and_unknown_use_lt_prefix() {
    let laptop = enclosure(Some(vec![10]), Some("1234567890AB"));
    assert_eq!(generate_asset_id(&laptop, &vec![], &vec![]).unwrap(), "LT-567890AB");
    let unknown = enclosure(None, Some("1234567890AB"));
    assert_eq!(generate_asset_id(&unknown, &vec![], &vec![]).unwrap(), "LT-567890AB");
}

#[test]
fn asset_id_short_serial_is_used_whole() {
    let e = enclosure(Some(vec![4]), Some("AB12"));
    assert_eq!(generate_asset_id(&e, &vec![], &vec![]).unwrap(), "PC-AB12");
}

#[test]
fn sentinel_serials_fall_back_to_bios() {
    for sentinel in ["NONE", "00000000", ""] {
        let e = enclosure(Some(vec![4]), Some(sentinel));
        let id = generate_asset_id(&e, &vec![], &vec![bios("XYZ1234567890")]);
        assert_eq!(id.unwrap(), "PC-34567890");
    }
}

#[test]
fn missing_serial_and_bios_yields_nothing() {
    let e = enclosure(Some(vec![4]), None);
    assert!(generate_asset_id(&e, &vec![system(Some("Dell"))], &vec![]).is_none());
    let oem = enclosure(Some(vec![4]), Some("OEM999"));
    assert!(generate_asset_id(&oem, &vec![], &vec![]).is_none());
}

#[test]
fn placeholder_asset_id_is_fixed() {
    assert_eq!(placeholder_asset_id(), "TEST_ASSET");
}

#[test]
fn mac_error_classes_are_distinct() {
    // The first two classes are raised at the process edge, where the
    // inventory session and query run; the library itself reports only
    // `NoResults`.
    assert_ne!(GetMacError::WmiConnectionInit, GetMacError::Query);
    assert_ne!(GetMacError::Query, GetMacError::NoResults);
}

#[test]
fn serial_number_prefers_valid_enclosure_serial() {
    let e = enclosure(None, Some("GOODSERIAL99"));
    let chosen = get_serial_number(&e, &vec![bios("BIOSSERIAL")]);
    assert_eq!(chosen.unwrap(), "GOODSERIAL99");
}

#[test]
fn mac_resolution_selects_first_connected_adapter() {
    let adapters = vec![
        NetworkAdapter { mac_address: "11:22:33:44:55:66".to_string(), net_connection_status: 0 },
        NetworkAdapter { mac_address: "aa:bb:cc:dd:ee:ff".to_string(), net_connection_status: 2 },
        NetworkAdapter { mac_address: "77:88:99:AA:BB:CC".to_string(), net_connection_status: 2 },
    ];
    let mac = get_local_mac_address(&adapters).unwrap();
    assert_eq!(mac.as_str(), "AA:BB:CC:DD:EE:FF");
}

#[test]
fn mac_resolution_without_connected_adapter_fails() {
    let adapters = vec![
        NetworkAdapter { mac_address: "11:22:33:44:55:66".to_string(), net_connection_status: 7 },
    ];
    assert_eq!(get_local_mac_address(&adapters).unwrap_err(), GetMacError::NoResults);
    assert_eq!(get_local_mac_address(&vec![]).unwrap_err(), GetMacError::NoResults);
}

#[test]
fn mac_resolution_with_malformed_first_match_fails() {
    let adapters = vec![
        NetworkAdapter { mac_address: "not-a-mac".to_string(), net_connection_status: 2 },
        NetworkAdapter { mac_address: "AA:BB:CC:DD:EE:FF".to_string(), net_connection_status: 2 },
    ];
    assert_eq!(get_local_mac_address(&adapters).unwrap_err(), GetMacError::NoResults);
}
