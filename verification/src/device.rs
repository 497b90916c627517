//! Device identity derivation from hardware inventory records.
//!
//! The records below are plain images of what the platform's hardware
//! inventory returns; the process edge queries the platform and hands them
//! in.  Everything decided from them — which adapter counts, which serial is
//! trusted, how the asset ID is composed — is verified here.
use vstd::prelude::*;

verus! {

use crate::mac::{Mac, accepted_mac_input, canonical_of};
use vstd::string::{StrSliceExecFns, StringExecFns};

/// One network adapter inventory record.
pub struct NetworkAdapter {
    /// The address text as the inventory reports it.
    pub mac_address: String,
    /// Numeric operational status; `2` denotes a connected adapter.
    pub net_connection_status: u16,
}

/// Why MAC resolution failed.  Opening the inventory session and running the
/// query happen at the process edge; zero usable adapters is decided here.
#[derive(Clone, Copy, Debug, PartialEq, Eq, Structural)]
pub enum GetMacError {
    /// The hardware-management session could not be opened.
    WmiConnectionInit,
    /// The filtered inventory query itself failed.
    Query,
    /// Session and query succeeded but no usable adapter was found.
    NoResults,
}

/// The first adapter reported as connected, in inventory order.
pub open spec fn first_connected(s: Seq<NetworkAdapter>) -> Option<NetworkAdapter>
    decreases s.len(),
{
    if s.len() == 0 {
        None
    } else if s[0].net_connection_status == 2 {
        Some(s[0])
    } else {
        first_connected(s.drop_first())
    }
}

/// Skipping a prefix of adapters that are not connected does not change the
/// selection.
proof fn lemma_first_connected_skip(s: Seq<NetworkAdapter>, i: int)
    requires
        0 <= i <= s.len(),
        forall|j: int| 0 <= j < i ==> s[j].net_connection_status != 2,
    ensures
        first_connected(s) == first_connected(s.skip(i)),
    decreases i,
{
    if i > 0 {
        assert(s.skip(0) =~= s);
        lemma_first_connected_skip(s, i - 1);
        assert(s.skip(i - 1).drop_first() =~= s.skip(i));
        assert(s.skip(i - 1).len() > 0);
        assert(s.skip(i - 1)[0] == s[i - 1]);
    } else {
        assert(s.skip(0) =~= s);
    }
}

/// Resolves the device MAC address from the adapter inventory: the first
/// connected adapter is selected in inventory order, and its address must
/// pass `Mac` validation.  A malformed address on the selected adapter is
/// reported as `NoResults`, not as a distinct error.
pub fn get_local_mac_address(adapters: &Vec<NetworkAdapter>) -> (r: Result<Mac, GetMacError>)
    ensures
        match r {
            Ok(m) => {
                &&& first_connected(adapters@) matches Some(a)
                &&& accepted_mac_input(a.mac_address@)
                &&& m@ == canonical_of(a.mac_address@)
                &&& m.wf()
            },
            Err(e) => {
                &&& e == GetMacError::NoResults
                &&& match first_connected(adapters@) {
                    Some(a) => !accepted_mac_input(a.mac_address@),
                    None => true,
                }
            },
        },
{
    let n = adapters.len();
    let mut i: usize = 0;
    while i < n
        invariant
            n == adapters@.len(),
            i <= n,
            forall|j: int| 0 <= j < i ==> #[trigger] adapters@[j].net_connection_status != 2,
        decreases n - i,
    {
        if adapters[i].net_connection_status == 2 {
            proof {
                lemma_first_connected_skip(adapters@, i as int);
                assert(adapters@.skip(i as int)[0] == adapters@[i as int]);
            }
            return match Mac::new(adapters[i].mac_address.as_str()) {
                Some(m) => Ok(m),
                None => Err(GetMacError::NoResults),
            };
        }
        i += 1;
    }
    proof {
        lemma_first_connected_skip(adapters@, n as int);
        assert(adapters@.skip(n as int) =~= Seq::<NetworkAdapter>::empty());
    }
    Err(GetMacError::NoResults)
}

/// The system enclosure record: vendor chassis-type codes and the enclosure
/// serial number, either of which the platform may leave out.
pub struct SystemEnclosure {
    pub chassis_types: Option<Vec<u16>>,
    pub serial_number: Option<String>,
}

/// A computer-system record: the manufacturer text, if the platform has one.
pub struct ComputerSystem {
    pub manufacturer: Option<String>,
}

/// A BIOS record: its serial number.
pub struct Bios {
    pub serial_number: String,
}

/// Physical form factor classes an asset ID distinguishes.
#[derive(Clone, Copy, Debug, PartialEq, Eq, Structural)]
pub enum DeviceType {
    Desktop,
    Laptop,
    Unknown,
}

/// The fixed range table mapping a vendor chassis-type code to a class.
pub open spec fn classify_chassis(id: u16) -> DeviceType {
    if (3 <= id && id <= 7) || id == 13 || (15 <= id && id <= 24) {
        DeviceType::Desktop
    } else if (8 <= id && id <= 12) || id == 14 || (30 <= id && id <= 32) {
        DeviceType::Laptop
    } else {
        DeviceType::Unknown
    }
}

impl DeviceType {
    /// Classifies one vendor chassis-type code through the fixed range table.
    pub fn from_chassis(id: &u16) -> (r: DeviceType)
        ensures
            r == classify_chassis(*id),
    {
        let v = *id;
        if (3 <= v && v <= 7) || v == 13 || (15 <= v && v <= 24) {
            DeviceType::Desktop
        } else if (8 <= v && v <= 12) || v == 14 || (30 <= v && v <= 32) {
            DeviceType::Laptop
        } else {
            DeviceType::Unknown
        }
    }
}

/// The first code that classifies as something other than `Unknown`, in
/// original list order; `Unknown` when none does.
pub open spec fn first_classified(codes: Seq<u16>) -> DeviceType
    decreases codes.len(),
{
    if codes.len() == 0 {
        DeviceType::Unknown
    } else if classify_chassis(codes[0]) != DeviceType::Unknown {
        classify_chassis(codes[0])
    } else {
        first_classified(codes.drop_first())
    }
}

proof fn lemma_first_classified_skip(s: Seq<u16>, i: int)
    requires
        0 <= i <= s.len(),
        forall|j: int| 0 <= j < i ==> classify_chassis(#[trigger] s[j]) == DeviceType::Unknown,
    ensures
        first_classified(s) == first_classified(s.skip(i)),
    decreases i,
{
    if i > 0 {
        lemma_first_classified_skip(s, i - 1);
        assert(s.skip(i - 1).drop_first() =~= s.skip(i));
        assert(s.skip(i - 1)[0] == s[i - 1]);
    } else {
        assert(s.skip(0) =~= s);
    }
}

/// The device class of an enclosure: the first non-`Unknown` classification
/// of its code list, `Unknown` when the list is absent or yields nothing.
pub open spec fn device_type_of(enclosure: SystemEnclosure) -> DeviceType {
    match enclosure.chassis_types {
        None => DeviceType::Unknown,
        Some(codes) => first_classified(codes@),
    }
}

/// Classifies the enclosure's chassis-type codes.
pub fn get_device_type(enclosure: &SystemEnclosure) -> (r: DeviceType)
    ensures
        r == device_type_of(*enclosure),
{
    match &enclosure.chassis_types {
        None => DeviceType::Unknown,
        Some(codes) => {
            let n = codes.len();
            let mut i: usize = 0;
            while i < n
                invariant
                    enclosure.chassis_types matches Some(cs) && cs@ == codes@,
                    n == codes@.len(),
                    i <= n,
                    forall|j: int|
                        0 <= j < i ==> classify_chassis(#[trigger] codes@[j])
                            == DeviceType::Unknown,
                decreases n - i,
            {
                let t = DeviceType::from_chassis(&codes[i]);
                if !matches!(t, DeviceType::Unknown) {
                    proof {
                        lemma_first_classified_skip(codes@, i as int);
                        assert(codes@.skip(i as int)[0] == codes@[i as int]);
                        assert(first_classified(codes@.skip(i as int)) == classify_chassis(
                            codes@[i as int],
                        ));
                    }
                    return t;
                }
                i += 1;
            }
            proof {
                lemma_first_classified_skip(codes@, n as int);
                assert(codes@.skip(n as int) =~= Seq::<u16>::empty());
            }
            DeviceType::Unknown
        },
    }
}

/// True when the text contains the substring `OEM`.
pub open spec fn spec_contains_oem(s: Seq<char>) -> bool {
    exists|i: int|
        0 <= i && i + 3 <= s.len() && #[trigger] s[i] == 'O' && s[i + 1] == 'E' && s[i + 2] == 'M'
}

/// Substring search for `OEM`.
fn contains_oem(s: &str) -> (r: bool)
    ensures
        r == spec_contains_oem(s@),
{
    let n = s.unicode_len();
    if n < 3 {
        return false;
    }
    let mut i: usize = 0;
    while i <= n - 3
        invariant
            n == s@.len(),
            3 <= n,
            i <= n - 2,
            forall|j: int|
                0 <= j < i ==> !(#[trigger] s@[j] == 'O' && s@[j + 1] == 'E' && s@[j + 2] == 'M'),
        decreases n - i,
    {
        let a = s.get_char(i);
        let b = s.get_char(i + 1);
        let c = s.get_char(i + 2);
        if a == 'O' && b == 'E' && c == 'M' {
            return true;
        }
        i += 1;
    }
    false
}

/// An enclosure serial that must not be used: absent, empty, one of the
/// placeholder sentinels `NONE` and `00000000`, or containing `OEM`.
pub open spec fn serial_invalid(serial: Option<String>) -> bool {
    match serial {
        None => true,
        Some(s) => s@.len() == 0 || s@ == "NONE"@ || s@ == "00000000"@ || spec_contains_oem(s@),
    }
}

/// The serial number an asset ID is built from: the enclosure serial when it
/// is trustworthy, otherwise the first BIOS record's serial, otherwise none.
pub open spec fn chosen_serial(enclosure: SystemEnclosure, bios: Seq<Bios>) -> Option<Seq<char>> {
    if !serial_invalid(enclosure.serial_number) {
        match enclosure.serial_number {
            Some(s) => Some(s@),
            None => None,
        }
    } else if bios.len() > 0 {
        Some(bios[0].serial_number@)
    } else {
        None
    }
}

/// Picks the serial number per `chosen_serial`: enclosure serial unless
/// invalid, BIOS fallback otherwise.
pub fn get_serial_number(enclosure: &SystemEnclosure, bios_records: &Vec<Bios>) -> (r: Option<
    String,
>)
    ensures
        match r {
            Some(s) => chosen_serial(*enclosure, bios_records@) == Some(s@),
            None => chosen_serial(*enclosure, bios_records@) is None,
        },
{
    let invalid = match &enclosure.serial_number {
        Some(serial) => {
            if serial.as_str().is_empty() {
                true
            } else {
                let none_text = String::from_str("NONE");
                let zeros_text = String::from_str("00000000");
                serial.eq(&none_text) || serial.eq(&zeros_text) || contains_oem(serial.as_str())
            }
        },
        None => true,
    };
    if !invalid {
        match &enclosure.serial_number {
            Some(serial) => Some(serial.clone()),
            None => vstd::pervasive::unreached(),
        }
    } else if bios_records.len() > 0 {
        Some(bios_records[0].serial_number.clone())
    } else {
        None
    }
}

/// The tail of the chosen serial that enters the asset ID: its last eight
/// characters, or all of it when it is shorter.
pub open spec fn serial_suffix(s: Seq<char>) -> Seq<char> {
    if s.len() <= 8 {
        s
    } else {
        s.subrange(s.len() - 8, s.len() as int)
    }
}

/// The chassis prefix of an asset ID.
pub open spec fn chassis_prefix(t: DeviceType) -> Seq<char> {
    if t == DeviceType::Desktop {
        "PC"@
    } else {
        "LT"@
    }
}

/// The composed asset ID: prefix, optional manufacturer initial, serial tail.
pub open spec fn composed_asset_id(
    t: DeviceType,
    manufacturer: Option<Seq<char>>,
    serial: Seq<char>,
) -> Seq<char> {
    match manufacturer {
        Some(m) => chassis_prefix(t) + "-"@ + seq![m[0]] + "-"@ + serial_suffix(serial),
        None => chassis_prefix(t) + "-"@ + serial_suffix(serial),
    }
}

/// The first non-empty manufacturer text among the records, in query order.
pub open spec fn first_manufacturer(systems: Seq<ComputerSystem>) -> Option<Seq<char>>
    decreases systems.len(),
{
    if systems.len() == 0 {
        None
    } else {
        match systems[0].manufacturer {
            Some(m) => if m@.len() > 0 {
                Some(m@)
            } else {
                first_manufacturer(systems.drop_first())
            },
            None => first_manufacturer(systems.drop_first()),
        }
    }
}

proof fn lemma_first_manufacturer_skip(s: Seq<ComputerSystem>, i: int)
    requires
        0 <= i <= s.len(),
        forall|j: int|
            0 <= j < i ==> match #[trigger] s[j].manufacturer {
                Some(m) => m@.len() == 0,
                None => true,
            },
    ensures
        first_manufacturer(s) == first_manufacturer(s.skip(i)),
    decreases i,
{
    if i > 0 {
        lemma_first_manufacturer_skip(s, i - 1);
        assert(s.skip(i - 1).drop_first() =~= s.skip(i));
        assert(s.skip(i - 1)[0] == s[i - 1]);
    } else {
        assert(s.skip(0) =~= s);
    }
}

/// The fixed asset ID used where no hardware inventory is available; a
/// compatibility stub beside the placeholder address, not a derived ID.
pub fn placeholder_asset_id() -> (r: String)
    ensures
        r@ == "TEST_ASSET"@,
{
    String::from_str("TEST_ASSET")
}

/// Index of the record `first_manufacturer` selects.
fn first_manufacturer_index(systems: &Vec<ComputerSystem>) -> (r: Option<usize>)
    ensures
        match r {
            Some(i) => {
                &&& i < systems@.len()
                &&& systems@[i as int].manufacturer matches Some(m) && m@.len() > 0
                &&& first_manufacturer(systems@) == match systems@[i as int].manufacturer {
                    Some(m) => Some(m@),
                    None => None::<Seq<char>>,
                }
                &&& first_manufacturer(systems@) is Some
            },
            None => first_manufacturer(systems@) is None,
        },
{
    let n = systems.len();
    let mut i: usize = 0;
    while i < n
        invariant
            n == systems@.len(),
            i <= n,
            forall|j: int|
                0 <= j < i ==> match #[trigger] systems@[j].manufacturer {
                    Some(m) => m@.len() == 0,
                    None => true,
                },
        decreases n - i,
    {
        match &systems[i].manufacturer {
            Some(m) => {
                if !m.as_str().is_empty() {
                    proof {
                        lemma_first_manufacturer_skip(systems@, i as int);
                        assert(systems@.skip(i as int)[0] == systems@[i as int]);
                        assert(first_manufacturer(systems@.skip(i as int)) == Some(m@));
                    }
                    return Some(i);
                }
            },
            None => {},
        }
        i += 1;
    }
    proof {
        lemma_first_manufacturer_skip(systems@, n as int);
        assert(systems@.skip(n as int) =~= Seq::<ComputerSystem>::empty());
    }
    None
}

/// The asset ID the whole inventory yields, when a serial can be chosen.
pub open spec fn asset_id_of(
    enclosure: SystemEnclosure,
    systems: Seq<ComputerSystem>,
    bios: Seq<Bios>,
) -> Option<Seq<char>> {
    match chosen_serial(enclosure, bios) {
        None => None,
        Some(serial) => Some(
            composed_asset_id(device_type_of(enclosure), first_manufacturer(systems), serial),
        ),
    }
}

/// Derives the synthetic asset identifier from the enclosure, the
/// computer-system records and the BIOS records: chassis prefix, optional
/// manufacturer initial, and the tail of the chosen serial.  Yields nothing
/// exactly when no serial can be chosen.
pub fn generate_asset_id(
    enclosure: &SystemEnclosure,
    systems: &Vec<ComputerSystem>,
    bios_records: &Vec<Bios>,
) -> (r: Option<String>)
    ensures
        match r {
            Some(s) => asset_id_of(*enclosure, systems@, bios_records@) == Some(s@),
            None => asset_id_of(*enclosure, systems@, bios_records@) is None,
        },
{
    let serial = match get_serial_number(enclosure, bios_records) {
        Some(s) => s,
        None => {
            return None;
        },
    };

    let manufacturer: Option<&String> = match first_manufacturer_index(systems) {
        Some(i) => match &systems[i].manufacturer {
            Some(m) => Some(m),
            None => vstd::pervasive::unreached(),
        },
        None => None,
    };

    let device_type = get_device_type(enclosure);

    let mut out = String::new();
    match device_type {
        DeviceType::Desktop => out.append("PC"),
        _ => out.append("LT"),
    }
    out.append("-");
    match manufacturer {
        Some(m) => {
            let initial = m.as_str().substring_char(0, 1);
            out.append(initial);
            out.append("-");
            proof {
                assert(initial@ =~= seq![m@[0]]);
            }
        },
        None => {},
    }
    let sl = serial.as_str();
    let sn = sl.unicode_len();
    let suffix = if sn <= 8 {
        sl
    } else {
        sl.substring_char(sn - 8, sn)
    };
    out.append(suffix);
    proof {
        let t = device_type_of(*enclosure);
        let manu = first_manufacturer(systems@);
        let ser = match chosen_serial(*enclosure, bios_records@) {
            Some(s) => s,
            None => seq![],
        };
        assert(out@ =~= composed_asset_id(t, manu, ser));
    }
    Some(out)
}

} // verus!
