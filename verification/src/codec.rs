//! The framed wire format shared by client and server.
//!
//! A message travels as one self-describing binary document: a
//! little-endian length over the whole document, one tagged element naming
//! the variant, and a terminating zero — the document form also produced by
//! the common BSON serializers for this vocabulary.  An advertisement
//! carries an embedded document with the `hostname` and `mac_address`
//! fields; the list request carries a null element.  `encode_client_message`
//! yields exactly these bytes; `decode_client_message` accepts a byte string
//! exactly when it is the encoding of a well-formed message, and returns
//! that message.
use vstd::prelude::*;

verus! {

use crate::mac::{Mac, is_canonical_mac, lemma_canonical_mac_ascii};
use crate::message::{ClientMessage, DeviceInfo, DeviceInfoModel, MessageModel};
use crate::text::{utf8_to_string, push_bytes};
use vstd::bytes::{spec_u32_to_le_bytes, spec_u32_from_le_bytes, lemma_auto_spec_u32_to_from_le_bytes,
    u32_to_le_bytes, u32_from_le_bytes};
use vstd::slice::{slice_subrange, slice_to_vec};
use vstd::utf8::{valid_utf8, decode_utf8, encode_utf8, encode_utf8_valid_utf8,
    encode_utf8_decode_utf8, decode_utf8_encode_utf8};

/// Largest hostname, in encoded bytes, the frame accepts: the document
/// length field must stay within its four little-endian bytes.
pub const MAX_HOSTNAME_BYTES: usize = 1000000000;

/// Wire tag of a string element.
pub const TAG_STRING: u8 = 2;

/// Wire tag of an embedded document element.
pub const TAG_DOCUMENT: u8 = 3;

/// Wire tag of a null element.
pub const TAG_NULL: u8 = 10;

/// A length field: four little-endian bytes.
pub open spec fn le32(n: int) -> Seq<u8> {
    spec_u32_to_le_bytes(n as u32)
}

/// The element name `hostname`, with its terminating zero.
pub open spec fn hostname_label() -> Seq<u8> {
    seq![104u8, 111u8, 115u8, 116u8, 110u8, 97u8, 109u8, 101u8, 0u8]
}

/// The element name `mac_address`, with its terminating zero.
pub open spec fn mac_label() -> Seq<u8> {
    seq![109u8, 97u8, 99u8, 95u8, 97u8, 100u8, 100u8, 114u8, 101u8, 115u8, 115u8, 0u8]
}

/// The element name `Advertise`, with its terminating zero.
pub open spec fn advertise_label() -> Seq<u8> {
    seq![65u8, 100u8, 118u8, 101u8, 114u8, 116u8, 105u8, 115u8, 101u8, 0u8]
}

/// The element name `ListDevices`, with its terminating zero.
pub open spec fn list_devices_label() -> Seq<u8> {
    seq![76u8, 105u8, 115u8, 116u8, 68u8, 101u8, 118u8, 105u8, 99u8, 101u8, 115u8, 0u8]
}

/// A string value: its byte count plus one, the bytes, a terminating zero.
pub open spec fn enc_string(s: Seq<char>) -> Seq<u8> {
    le32(encode_utf8(s).len() as int + 1) + encode_utf8(s) + seq![0u8]
}

/// The `hostname` element: a string when present, a null element when absent.
pub open spec fn enc_hostname_element(h: Option<Seq<char>>) -> Seq<u8> {
    match h {
        Some(s) => seq![TAG_STRING] + hostname_label() + enc_string(s),
        None => seq![TAG_NULL] + hostname_label(),
    }
}

/// The `mac_address` element: always a string.
pub open spec fn enc_mac_element(mac: Seq<char>) -> Seq<u8> {
    seq![TAG_STRING] + mac_label() + enc_string(mac)
}

/// The embedded identity document.
pub open spec fn enc_device_info(d: DeviceInfoModel) -> Seq<u8> {
    let elements = enc_hostname_element(d.hostname) + enc_mac_element(d.mac);
    le32(elements.len() as int + 5) + elements + seq![0u8]
}

/// The whole frame of one client message.
pub open spec fn enc_message(m: MessageModel) -> Seq<u8> {
    match m {
        MessageModel::Advertise(d) => {
            let element = seq![TAG_DOCUMENT] + advertise_label() + enc_device_info(d);
            le32(element.len() as int + 5) + element + seq![0u8]
        },
        MessageModel::ListDevices => {
            let element = seq![TAG_NULL] + list_devices_label();
            le32(element.len() as int + 5) + element + seq![0u8]
        },
    }
}

/// A message the frame can carry: well-formed, and the hostname within the
/// length bound the four-byte length field forces.
pub open spec fn encodable(m: MessageModel) -> bool {
    &&& m.wf()
    &&& match m {
        MessageModel::Advertise(d) => match d.hostname {
            Some(h) => encode_utf8(h).len() <= MAX_HOSTNAME_BYTES as int,
            None => true,
        },
        MessageModel::ListDevices => true,
    }
}

/// Why a byte string was rejected: it is not the encoding of any
/// well-formed client message.
#[derive(Clone, Copy, Debug, PartialEq, Eq, Structural)]
pub enum DecodeError {
    Malformed,
}

/// A canonical MAC address text encodes to exactly seventeen ASCII bytes.
proof fn lemma_canonical_mac_utf8(s: Seq<char>)
    requires
        is_canonical_mac(s),
    ensures
        encode_utf8(s).len() == 17,
{
    lemma_canonical_mac_ascii(s);
    crate::text::lemma_small_chars_encode_len(s);
}

/// Byte length of one encoded message, case by case.
proof fn lemma_enc_message_len(m: MessageModel)
    requires
        encodable(m),
    ensures
        match m {
            MessageModel::Advertise(d) => match d.hostname {
                Some(h) => enc_message(m).len() == 71 + encode_utf8(h).len(),
                None => enc_message(m).len() == 66,
            },
            MessageModel::ListDevices => enc_message(m).len() == 18,
        },
{
    lemma_auto_spec_u32_to_from_le_bytes();
    match m {
        MessageModel::Advertise(d) => {
            lemma_canonical_mac_utf8(d.mac);
        },
        MessageModel::ListDevices => {},
    }
}

// ------------------------------------------------------------------
// Encoding
// ------------------------------------------------------------------

/// Emits the `hostname` element name.
fn push_hostname_label(out: &mut Vec<u8>)
    ensures
        final(out)@ == old(out)@ + hostname_label(),
{
    let ghost orig = out@;
    out.push(104);
    out.push(111);
    out.push(115);
    out.push(116);
    out.push(110);
    out.push(97);
    out.push(109);
    out.push(101);
    out.push(0);
    proof {
        assert(out@ =~= orig + hostname_label());
    }
}

/// Emits the `mac_address` element name.
fn push_mac_label(out: &mut Vec<u8>)
    ensures
        final(out)@ == old(out)@ + mac_label(),
{
    let ghost orig = out@;
    out.push(109);
    out.push(97);
    out.push(99);
    out.push(95);
    out.push(97);
    out.push(100);
    out.push(100);
    out.push(114);
    out.push(101);
    out.push(115);
    out.push(115);
    out.push(0);
    proof {
        assert(out@ =~= orig + mac_label());
    }
}

/// Emits the `Advertise` element name.
fn push_advertise_label(out: &mut Vec<u8>)
    ensures
        final(out)@ == old(out)@ + advertise_label(),
{
    let ghost orig = out@;
    out.push(65);
    out.push(100);
    out.push(118);
    out.push(101);
    out.push(114);
    out.push(116);
    out.push(105);
    out.push(115);
    out.push(101);
    out.push(0);
    proof {
        assert(out@ =~= orig + advertise_label());
    }
}

/// Emits the `ListDevices` element name.
fn push_list_devices_label(out: &mut Vec<u8>)
    ensures
        final(out)@ == old(out)@ + list_devices_label(),
{
    let ghost orig = out@;
    out.push(76);
    out.push(105);
    out.push(115);
    out.push(116);
    out.push(68);
    out.push(101);
    out.push(118);
    out.push(105);
    out.push(99);
    out.push(101);
    out.push(115);
    out.push(0);
    proof {
        assert(out@ =~= orig + list_devices_label());
    }
}

/// Emits one string value: length field, bytes, terminating zero.
fn push_string(out: &mut Vec<u8>, s: &str)
    requires
        encode_utf8(s@).len() + 1 <= u32::MAX,
    ensures
        final(out)@ == old(out)@ + enc_string(s@),
{
    proof {
        lemma_auto_spec_u32_to_from_le_bytes();
    }
    let bytes = s.as_bytes();
    let n = bytes.len();
    let len_field = (n + 1) as u32;
    let mut length_bytes = u32_to_le_bytes(len_field);
    out.append(&mut length_bytes);
    push_bytes(out, bytes);
    out.push(0);
    proof {
        assert(out@ =~= old(out)@ + enc_string(s@));
    }
}

/// Encodes one advertisement frame for this identity.
pub fn encode_advertise(info: &DeviceInfo) -> (r: Vec<u8>)
    requires
        encodable(MessageModel::Advertise(info@)),
    ensures
        r@ == enc_message(MessageModel::Advertise(info@)),
{
    proof {
        lemma_auto_spec_u32_to_from_le_bytes();
        lemma_canonical_mac_utf8(info.mac_address@);
    }
    let mut elements: Vec<u8> = Vec::new();
    match &info.hostname {
        Some(h) => {
            elements.push(TAG_STRING);
            push_hostname_label(&mut elements);
            push_string(&mut elements, h.as_str());
        },
        None => {
            elements.push(TAG_NULL);
            push_hostname_label(&mut elements);
        },
    }
    proof {
        assert(elements@ =~= enc_hostname_element(info@.hostname));
    }
    elements.push(TAG_STRING);
    push_mac_label(&mut elements);
    push_string(&mut elements, info.mac_address.as_str());
    proof {
        assert(elements@ =~= enc_hostname_element(info@.hostname) + enc_mac_element(info@.mac));
    }

    let mut inner: Vec<u8> = Vec::new();
    let mut inner_len_bytes = u32_to_le_bytes((elements.len() + 5) as u32);
    inner.append(&mut inner_len_bytes);
    inner.append(&mut elements);
    inner.push(0);
    proof {
        assert(inner@ =~= enc_device_info(info@));
    }

    let mut element: Vec<u8> = Vec::new();
    element.push(TAG_DOCUMENT);
    push_advertise_label(&mut element);
    element.append(&mut inner);

    let mut out: Vec<u8> = Vec::new();
    let mut outer_len_bytes = u32_to_le_bytes((element.len() + 5) as u32);
    out.append(&mut outer_len_bytes);
    out.append(&mut element);
    out.push(0);
    proof {
        assert(out@ =~= enc_message(MessageModel::Advertise(info@)));
    }
    out
}

/// Encodes one client message into its frame.
pub fn encode_client_message(m: &ClientMessage) -> (r: Vec<u8>)
    requires
        encodable(m@),
    ensures
        r@ == enc_message(m@),
{
    proof {
        lemma_auto_spec_u32_to_from_le_bytes();
    }
    match m {
        ClientMessage::Advertise(info) => encode_advertise(info),
        ClientMessage::ListDevices => {
            let mut element: Vec<u8> = Vec::new();
            element.push(TAG_NULL);
            push_list_devices_label(&mut element);

            let mut out: Vec<u8> = Vec::new();
            let mut outer_len_bytes = u32_to_le_bytes((element.len() + 5) as u32);
            out.append(&mut outer_len_bytes);
            out.append(&mut element);
            out.push(0);
            proof {
                assert(out@ =~= enc_message(m@));
            }
            out
        },
    }
}

// ------------------------------------------------------------------
// Parsing
// ------------------------------------------------------------------

/// Reads the `mac_address` element expected at position `p`: its length
/// field and its string bytes.  Reads only as much structure as the
/// round-trip needs; `decode_client_message` re-encodes to accept.
pub open spec fn parse_mac_at(b: Seq<u8>, p: int) -> Option<Seq<char>> {
    if p + 17 > b.len() {
        None
    } else {
        let ml = spec_u32_from_le_bytes(b.subrange(p + 13, p + 17)) as int;
        if ml < 1 || p + 17 + (ml - 1) > b.len() {
            None
        } else {
            let mb = b.subrange(p + 17, p + 17 + (ml - 1));
            if valid_utf8(mb) {
                Some(decode_utf8(mb))
            } else {
                None
            }
        }
    }
}

/// Reads an advertisement frame: the `hostname` element (string or null) at
/// its fixed position, then the `mac_address` element after it.
pub open spec fn parse_advertise(b: Seq<u8>) -> Option<MessageModel> {
    if b.len() < 20 {
        None
    } else if b[19] == TAG_NULL {
        match parse_mac_at(b, 29) {
            Some(mac) => Some(
                MessageModel::Advertise(DeviceInfoModel { hostname: None, mac }),
            ),
            None => None,
        }
    } else if b[19] == TAG_STRING {
        if b.len() < 33 {
            None
        } else {
            let hl = spec_u32_from_le_bytes(b.subrange(29, 33)) as int;
            if hl < 1 || 33 + (hl - 1) > b.len() {
                None
            } else {
                let hb = b.subrange(33, 33 + (hl - 1));
                if valid_utf8(hb) {
                    match parse_mac_at(b, 33 + hl) {
                        Some(mac) => Some(
                            MessageModel::Advertise(
                                DeviceInfoModel { hostname: Some(decode_utf8(hb)), mac },
                            ),
                        ),
                        None => None,
                    }
                } else {
                    None
                }
            }
        }
    } else {
        None
    }
}

/// Reads one frame by its variant tag.
pub open spec fn parse_message(b: Seq<u8>) -> Option<MessageModel> {
    if b.len() < 5 {
        None
    } else if b[4] == TAG_NULL {
        Some(MessageModel::ListDevices)
    } else if b[4] == TAG_DOCUMENT {
        parse_advertise(b)
    } else {
        None
    }
}

/// Round trip: parsing the encoding of any encodable message yields that
/// message back.  This is the law the decoder's completeness rests on.
pub proof fn lemma_parse_encoded(m: MessageModel)
    requires
        encodable(m),
    ensures
        parse_message(enc_message(m)) == Some(m),
{
    lemma_auto_spec_u32_to_from_le_bytes();
    lemma_enc_message_len(m);
    let b = enc_message(m);
    match m {
        MessageModel::ListDevices => {
            assert(b[4] == TAG_NULL);
        },
        MessageModel::Advertise(d) => {
            lemma_canonical_mac_utf8(d.mac);
            encode_utf8_valid_utf8(d.mac);
            encode_utf8_decode_utf8(d.mac);
            let melem = enc_mac_element(d.mac);
            assert(b[4] == TAG_DOCUMENT);
            match d.hostname {
                None => {
                    assert(b.len() == 66);
                    assert(b[19] == TAG_NULL);
                    assert(b.subrange(42int, 46int) =~= le32(18));
                    assert(spec_u32_from_le_bytes(le32(18)) == 18);
                    assert(b.subrange(46int, 63int) =~= encode_utf8(d.mac));
                    assert(parse_mac_at(b, 29) == Some(d.mac));
                },
                Some(h) => {
                    let hb = encode_utf8(h).len() as int;
                    encode_utf8_valid_utf8(h);
                    encode_utf8_decode_utf8(h);
                    assert(b.len() == 71 + hb);
                    assert(b[19] == TAG_STRING);
                    assert(b.subrange(29, 33) =~= le32(hb + 1));
                    assert(spec_u32_from_le_bytes(le32(hb + 1)) == hb + 1);
                    assert(b.subrange(33, 33 + hb) =~= encode_utf8(h));
                    let p = 34 + hb;
                    assert(b.subrange(p + 13, p + 17) =~= le32(18));
                    assert(b.subrange(p + 17, p + 17 + 17) =~= encode_utf8(d.mac));
                    assert(parse_mac_at(b, p) == Some(d.mac));
                    assert(parse_message(b) == Some(m));
                },
            }
        },
    }
}

/// Framing is unambiguous: two encodable messages with the same frame are
/// the same message.
pub proof fn lemma_encoding_injective(m1: MessageModel, m2: MessageModel)
    requires
        encodable(m1),
        encodable(m2),
        enc_message(m1) == enc_message(m2),
    ensures
        m1 == m2,
{
    lemma_parse_encoded(m1);
    lemma_parse_encoded(m2);
}

/// What the structural pass of the decoder found, before validation.
enum Parsed {
    Advertise(Option<String>, String),
    ListDevices,
}

/// Reads the `mac_address` element at position `p`, as `parse_mac_at` does.
fn parse_mac_exec(b: &Vec<u8>, p: u64) -> (r: Option<String>)
    requires
        p <= 0x2_0000_0000,
    ensures
        match r {
            Some(s) => parse_mac_at(b@, p as int) == Some(s@),
            None => parse_mac_at(b@, p as int) is None,
        },
{
    let n = b.len() as u64;
    if p + 17 > n {
        return None;
    }
    let ml = read_u32(b, (p + 13) as usize) as u64;
    if ml < 1 {
        return None;
    }
    let end = p + 17 + (ml - 1);
    if end > n {
        return None;
    }
    let mb = copy_range(b, (p + 17) as usize, end as usize);
    utf8_to_string(mb)
}

/// The structural pass: mirrors `parse_message` over the byte vector.
fn parse_exec(b: &Vec<u8>) -> (r: Option<Parsed>)
    ensures
        match r {
            Some(Parsed::ListDevices) => parse_message(b@) == Some(MessageModel::ListDevices),
            Some(Parsed::Advertise(h, mc)) => parse_message(b@) == Some(
                MessageModel::Advertise(
                    DeviceInfoModel {
                        hostname: match h {
                            Some(hs) => Some(hs@),
                            None => None,
                        },
                        mac: mc@,
                    },
                ),
            ),
            None => parse_message(b@) is None,
        },
{
    let n = b.len();
    if n < 5 {
        return None;
    }
    let tag = b[4];
    if tag == TAG_NULL {
        return Some(Parsed::ListDevices);
    }
    if tag != TAG_DOCUMENT {
        return None;
    }
    if n < 20 {
        return None;
    }
    let ht = b[19];
    if ht == TAG_NULL {
        match parse_mac_exec(b, 29) {
            Some(mc) => Some(Parsed::Advertise(None, mc)),
            None => None,
        }
    } else if ht == TAG_STRING {
        if n < 33 {
            return None;
        }
        let hl = read_u32(b, 29) as u64;
        if hl < 1 {
            return None;
        }
        let hend = 33 + (hl - 1);
        if hend > n as u64 {
            return None;
        }
        let hbytes = copy_range(b, 33, hend as usize);
        match utf8_to_string(hbytes) {
            None => None,
            Some(h) => match parse_mac_exec(b, 33 + hl) {
                Some(mc) => Some(Parsed::Advertise(Some(h), mc)),
                None => None,
            },
        }
    } else {
        None
    }
}

/// Reads a four-byte little-endian length field at `at`.
fn read_u32(b: &Vec<u8>, at: usize) -> (r: u32)
    requires
        at + 4 <= b@.len(),
    ensures
        r == spec_u32_from_le_bytes(b@.subrange(at as int, at as int + 4)),
{
    let total = b.len();
    proof {
        assert(at + 4 <= total);
    }
    u32_from_le_bytes(slice_subrange(b.as_slice(), at, at + 4))
}

/// Copies the byte range `[from, to)` out of the buffer.
fn copy_range(b: &Vec<u8>, from: usize, to: usize) -> (r: Vec<u8>)
    requires
        from <= to <= b@.len(),
    ensures
        r@ == b@.subrange(from as int, to as int),
{
    slice_to_vec(slice_subrange(b.as_slice(), from, to))
}

/// Byte-for-byte comparison of two buffers.
fn bytes_equal(a: &Vec<u8>, b: &Vec<u8>) -> (r: bool)
    ensures
        r == (a@ == b@),
{
    if a.len() != b.len() {
        return false;
    }
    let n = a.len();
    let mut i: usize = 0;
    while i < n
        invariant
            n == a@.len(),
            n == b@.len(),
            i <= n,
            forall|j: int| 0 <= j < i ==> a@[j] == b@[j],
        decreases n - i,
    {
        if a[i] != b[i] {
            return false;
        }
        i += 1;
    }
    proof {
        assert(a@ =~= b@);
    }
    true
}

/// Decodes one received frame.  Succeeds exactly on the encodings of
/// well-formed messages: `Ok(m)` says the input is `enc_message(m@)`;
/// `Err` says no encodable message has this encoding.  A failure is
/// confined to the one frame — the decoder never panics.
pub fn decode_client_message(b: &Vec<u8>) -> (r: Result<ClientMessage, DecodeError>)
    ensures
        match r {
            Ok(m) => encodable(m@) && enc_message(m@) == b@,
            Err(e) => {
                &&& e == DecodeError::Malformed
                &&& forall|m: MessageModel| encodable(m) ==> #[trigger] enc_message(m) != b@
            },
        },
{
    let parsed = parse_exec(b);
    match parsed {
        None => {
            proof {
                assert forall|m: MessageModel| encodable(m) implies #[trigger] enc_message(m)
                    != b@ by {
                    if enc_message(m) == b@ {
                        lemma_parse_encoded(m);
                    }
                }
            }
            Err(DecodeError::Malformed)
        },
        Some(Parsed::ListDevices) => {
            let candidate = ClientMessage::ListDevices;
            let expected = encode_client_message(&candidate);
            if bytes_equal(b, &expected) {
                Ok(candidate)
            } else {
                proof {
                    assert forall|m: MessageModel| encodable(m) implies #[trigger] enc_message(m)
                        != b@ by {
                        if enc_message(m) == b@ {
                            lemma_parse_encoded(m);
                        }
                    }
                }
                Err(DecodeError::Malformed)
            }
        },
        Some(Parsed::Advertise(hostname, mac_text)) => {
            match Mac::new(mac_text.as_str()) {
                None => {
                    proof {
                        assert forall|m: MessageModel| encodable(m) implies #[trigger] enc_message(
                            m,
                        ) != b@ by {
                            if enc_message(m) == b@ {
                                lemma_parse_encoded(m);
                                crate::mac::lemma_canonical_fixed_point(m->Advertise_0.mac);
                            }
                        }
                    }
                    Err(DecodeError::Malformed)
                },
                Some(mac) => {
                    let hostname_fits = match &hostname {
                        Some(h) => h.as_str().as_bytes().len() <= MAX_HOSTNAME_BYTES,
                        None => true,
                    };
                    if !hostname_fits {
                        proof {
                            assert forall|m: MessageModel| encodable(m) implies
                                #[trigger] enc_message(m) != b@ by {
                                if enc_message(m) == b@ {
                                    lemma_parse_encoded(m);
                                    match m->Advertise_0.hostname {
                                        Some(hm) => {
                                            encode_utf8_valid_utf8(hm);
                                            decode_utf8_encode_utf8(encode_utf8(hm));
                                        },
                                        None => {},
                                    }
                                }
                            }
                        }
                        return Err(DecodeError::Malformed);
                    }
                    let candidate = ClientMessage::Advertise(
                        DeviceInfo { hostname, mac_address: mac },
                    );
                    proof {
                        assert(encodable(candidate@));
                    }
                    let expected = encode_client_message(&candidate);
                    if bytes_equal(b, &expected) {
                        Ok(candidate)
                    } else {
                        proof {
                            assert forall|m: MessageModel| encodable(m) implies
                                #[trigger] enc_message(m) != b@ by {
                                if enc_message(m) == b@ {
                                    lemma_parse_encoded(m);
                                    crate::mac::lemma_canonical_fixed_point(m->Advertise_0.mac);
                                }
                            }
                        }
                        Err(DecodeError::Malformed)
                    }
                },
            }
        },
    }
}

} // verus!
