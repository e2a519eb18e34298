use hmac::{Hmac, Mac};
use rust_radius::codec::{MalformedKind, PacketProcessor, PolicyKind, ProtocolError};
use rust_radius::config::{Config, SecurityConfig};
use rust_radius::protocol::{Attribute, Packet, PacketCode, SocketAddress};

fn security(require_message_authenticator: bool) -> SecurityConfig {
    let mut s = Config::default().security;
    s.require_message_authenticator = require_message_authenticator;
    s
}

fn source() -> SocketAddress {
    SocketAddress::V4([192, 0, 2, 1], 40000)
}

fn header(code: u8, id: u8, len: u16) -> Vec<u8> {
    let mut v = vec![code, id, (len >> 8) as u8, (len & 0xff) as u8];
    v.extend_from_slice(&[9u8; 16]);
    v
}

#[test]
fn it_works() {
    assert_eq!(2 + 2, 4);
}

#[test]
fn packet_code_from_u8_maps_wire_values() {
    assert_eq!(PacketCode::from_u8(1), Some(PacketCode::AccessRequest));
    assert_eq!(PacketCode::from_u8(11), Some(PacketCode::AccessChallenge));
    assert_eq!(PacketCode::from_u8(45), Some(PacketCode::CoaNak));
    assert_eq!(PacketCode::from_u8(6), None);
    assert_eq!(PacketCode::CoaRequest.to_u8(), 43);
}

#[test]
fn round_trip_reproduces_packet() {
    let p = PacketProcessor::new(&security(true));
    let mut packet = Packet::new(PacketCode::AccessRequest, 42, [7u8; 16]);
    packet.add_attribute(Attribute::String("User-Name".to_string(), "alice".to_string()));
    packet.add_attribute(Attribute::String("User-Password".to_string(), "s\u{e9}cret".to_string()));
    packet.add_attribute(Attribute::Binary("Message-Authenticator".to_string(), vec![1u8; 16]));
    packet.add_attribute(Attribute::Binary("State".to_string(), vec![0xde, 0xad]));
    packet.add_attribute(Attribute::VendorSpecific(14122, vec![]));
    let bytes = p.encode(&packet).unwrap();
    let decoded = p.parse(&bytes, source()).unwrap();
    assert_eq!(decoded.code(), PacketCode::AccessRequest);
    assert_eq!(decoded.identifier(), 42);
    assert_eq!(decoded.authenticator(), &[7u8; 16]);
    assert_eq!(decoded.attributes(), packet.attributes());
    assert_eq!(decoded.source(), Some(source()));
}

#[test]
fn encode_writes_exact_bytes() {
    let p = PacketProcessor::new(&security(false));
    let mut packet = Packet::new(PacketCode::AccessAccept, 7, [0u8; 16]);
    packet.add_attribute(Attribute::String("Reply-Message".to_string(), "hi".to_string()));
    packet.add_attribute(Attribute::Integer("NAS-Port".to_string(), -2));
    packet.add_attribute(Attribute::IpAddr("Framed-IP-Address".to_string(), [10, 0, 0, 1]));
    let bytes = p.encode(&packet).unwrap();
    let mut expected = vec![2u8, 7, 0, 36];
    expected.extend_from_slice(&[0u8; 16]);
    expected.extend_from_slice(&[18, 4, b'h', b'i']);
    expected.extend_from_slice(&[5, 6, 0xff, 0xff, 0xff, 0xfe]);
    expected.extend_from_slice(&[8, 6, 10, 0, 0, 1]);
    assert_eq!(bytes, expected);
}

#[test]
fn encode_vendor_specific_with_nested_attributes() {
    let p = PacketProcessor::new(&security(false));
    let mut packet = Packet::new(PacketCode::AccessAccept, 1, [0u8; 16]);
    let nested = vec![Attribute::Binary("Class".to_string(), vec![1, 2])];
    packet.add_attribute(Attribute::VendorSpecific(0x01020304, nested));
    let bytes = p.encode(&packet).unwrap();
    assert_eq!(&bytes[2..4], &[0u8, 30]);
    assert_eq!(&bytes[20..], &[26u8, 10, 1, 2, 3, 4, 25, 4, 1, 2]);
}

#[test]
fn add_attribute_replaces_same_name() {
    let mut packet = Packet::new(PacketCode::AccessRequest, 1, [0u8; 16]);
    packet.add_attribute(Attribute::String("User-Name".to_string(), "a".to_string()));
    packet.add_attribute(Attribute::String("User-Name".to_string(), "b".to_string()));
    assert_eq!(packet.attributes().len(), 1);
    assert_eq!(
        packet.get_attribute("User-Name"),
        Some(&Attribute::String("User-Name".to_string(), "b".to_string()))
    );
    assert_eq!(packet.get_attribute("State"), None);
}

#[test]
fn create_response_copies_identifier_and_authenticator() {
    let mut request = Packet::new(PacketCode::AccessRequest, 99, [3u8; 16]);
    request.set_source(source());
    request.add_attribute(Attribute::String("User-Name".to_string(), "a".to_string()));
    let response = request.create_response(PacketCode::AccessReject);
    assert_eq!(response.code(), PacketCode::AccessReject);
    assert_eq!(response.identifier(), 99);
    assert_eq!(response.authenticator(), &[3u8; 16]);
    assert_eq!(response.source(), Some(source()));
    assert!(response.attributes().is_empty());
}

#[test]
fn decode_rejects_short_buffer() {
    let p = PacketProcessor::new(&security(false));
    assert_eq!(
        p.parse(&[1u8; 19], source()).unwrap_err(),
        ProtocolError::Malformed(MalformedKind::TooShort)
    );
    assert_eq!(p.parse(&[], source()).unwrap_err(), ProtocolError::Malformed(MalformedKind::TooShort));
}

#[test]
fn decode_rejects_declared_length_beyond_buffer() {
    let p = PacketProcessor::new(&security(false));
    let data = header(1, 1, 21);
    assert_eq!(
        p.parse(&data, source()).unwrap_err(),
        ProtocolError::Malformed(MalformedKind::LengthExceedsBuffer)
    );
}

#[test]
fn decode_rejects_declared_length_below_header() {
    let p = PacketProcessor::new(&security(false));
    let data = header(1, 1, 19);
    assert_eq!(p.parse(&data, source()).unwrap_err(), ProtocolError::Malformed(MalformedKind::LengthTooShort));
}

#[test]
fn decode_rejects_unknown_code() {
    let p = PacketProcessor::new(&security(false));
    let data = header(6, 1, 20);
    assert_eq!(p.parse(&data, source()).unwrap_err(), ProtocolError::Malformed(MalformedKind::UnknownCode));
}

#[test]
fn decode_rejects_bad_attribute_records() {
    let p = PacketProcessor::new(&security(false));
    let mut incomplete = header(2, 1, 21);
    incomplete.push(1);
    assert_eq!(
        p.parse(&incomplete, source()).unwrap_err(),
        ProtocolError::Malformed(MalformedKind::IncompleteAttribute)
    );
    let mut invalid = header(2, 1, 22);
    invalid.extend_from_slice(&[1, 1]);
    assert_eq!(
        p.parse(&invalid, source()).unwrap_err(),
        ProtocolError::Malformed(MalformedKind::InvalidAttributeLength)
    );
    let mut overflow = header(2, 1, 23);
    overflow.extend_from_slice(&[1, 5, b'a']);
    assert_eq!(
        p.parse(&overflow, source()).unwrap_err(),
        ProtocolError::Malformed(MalformedKind::AttributeOverflow)
    );
    let mut vendor = header(2, 1, 25);
    vendor.extend_from_slice(&[26, 5, 0, 0, 1]);
    assert_eq!(
        p.parse(&vendor, source()).unwrap_err(),
        ProtocolError::Malformed(MalformedKind::VendorTooShort)
    );
}

#[test]
fn decode_ignores_bytes_past_declared_length() {
    let p = PacketProcessor::new(&security(false));
    let mut data = header(2, 5, 20);
    data.extend_from_slice(&[0xff, 0xff, 0xff]);
    let packet = p.parse(&data, source()).unwrap();
    assert!(packet.attributes().is_empty());
    assert_eq!(packet.identifier(), 5);
}

#[test]
fn decode_names_unknown_types_and_keeps_last_duplicate() {
    let p = PacketProcessor::new(&security(false));
    let mut data = header(2, 1, 34);
    data.extend_from_slice(&[200, 3, 7, 1, 3, b'a', 1, 3, b'b', 24, 3, 9, 61, 2]);
    let packet = p.parse(&data, source()).unwrap();
    assert_eq!(
        packet.get_attribute("Unknown-200"),
        Some(&Attribute::Binary("Unknown-200".to_string(), vec![7]))
    );
    assert_eq!(
        packet.get_attribute("User-Name"),
        Some(&Attribute::String("User-Name".to_string(), "b".to_string()))
    );
    assert_eq!(packet.get_attribute("State"), Some(&Attribute::Binary("State".to_string(), vec![9])));
    assert_eq!(packet.get_attribute("NAS-Port-Type"), Some(&Attribute::Binary("NAS-Port-Type".to_string(), vec![])));
    assert_eq!(packet.attributes().len(), 4);
}

#[test]
fn decode_replaces_invalid_utf8() {
    let p = PacketProcessor::new(&security(false));
    let mut data = header(2, 1, 24);
    data.extend_from_slice(&[18, 4, b'o', 0xff]);
    let packet = p.parse(&data, source()).unwrap();
    assert_eq!(
        packet.get_attribute("Reply-Message"),
        Some(&Attribute::String("Reply-Message".to_string(), "o\u{fffd}".to_string()))
    );
}

#[test]
fn decode_reads_vendor_id() {
    let p = PacketProcessor::new(&security(false));
    let mut data = header(2, 1, 27);
    data.extend_from_slice(&[26, 7, 0, 0, 0x37, 0x2a, 0xee]);
    let packet = p.parse(&data, source()).unwrap();
    assert_eq!(packet.get_attribute("Vendor-Specific"), Some(&Attribute::VendorSpecific(14122, vec![])));
}

#[test]
fn decode_enforces_message_authenticator_policy() {
    let strict = PacketProcessor::new(&security(true));
    let lax = PacketProcessor::new(&security(false));
    let mut data = header(1, 1, 27);
    data.extend_from_slice(&[1, 7, b'a', b'l', b'i', b'c', b'e']);
    assert_eq!(
        strict.parse(&data, source()).unwrap_err(),
        ProtocolError::PolicyViolation(PolicyKind::MissingMessageAuthenticator)
    );
    assert!(lax.parse(&data, source()).is_ok());
    let mut accounting = header(4, 1, 20);
    accounting.truncate(20);
    assert!(strict.parse(&accounting, source()).is_ok());
}

#[test]
fn encode_rejects_unknown_attribute_name() {
    let p = PacketProcessor::new(&security(false));
    let mut packet = Packet::new(PacketCode::AccessAccept, 1, [0u8; 16]);
    packet.add_attribute(Attribute::String("Bogus-Name".to_string(), "x".to_string()));
    assert_eq!(p.encode(&packet).unwrap_err(), ProtocolError::UnknownAttribute);
}

#[test]
fn encode_rejects_overlong_attribute() {
    let p = PacketProcessor::new(&security(false));
    let mut ok = Packet::new(PacketCode::AccessAccept, 1, [0u8; 16]);
    ok.add_attribute(Attribute::String("Reply-Message".to_string(), "x".repeat(253)));
    assert_eq!(p.encode(&ok).unwrap().len(), 20 + 255);
    let mut long = Packet::new(PacketCode::AccessAccept, 1, [0u8; 16]);
    long.add_attribute(Attribute::String("Reply-Message".to_string(), "x".repeat(254)));
    assert_eq!(p.encode(&long).unwrap_err(), ProtocolError::AttributeTooLong);
}

#[test]
fn encode_rejects_oversized_packet() {
    let p = PacketProcessor::new(&security(false));
    let mut packet = Packet::new(PacketCode::AccessAccept, 1, [0u8; 16]);
    packet.add_attribute(Attribute::Binary("Class".to_string(), vec![0u8; 5000]));
    assert_eq!(p.encode(&packet).unwrap_err(), ProtocolError::SizeExceeded);
    let mut many = Packet::new(PacketCode::AccessAccept, 1, [0u8; 16]);
    let names = ["Class", "State", "Filter-Id", "Callback-Id", "Proxy-State", "Connect-Info", "Login-LAT-Node", "Called-Station-Id", "Calling-Station-Id", "NAS-Identifier", "Callback-Number", "Framed-Route", "Login-LAT-Group", "Login-LAT-Service", "Framed-AppleTalk-Zone", "Login-LAT-Port", "CHAP-Challenge"];
    for n in names.iter() {
        many.add_attribute(Attribute::Binary(n.to_string(), vec![0u8; 250]));
    }
    assert_eq!(p.encode(&many).unwrap_err(), ProtocolError::SizeExceeded);
}

#[test]
fn encode_sizes_nested_vendor_specific_at_every_level() {
    let p = PacketProcessor::new(&security(false));
    let mut packet = Packet::new(PacketCode::AccessAccept, 1, [0u8; 16]);
    let inner = Attribute::VendorSpecific(2, vec![Attribute::String("User-Name".to_string(), "a".to_string())]);
    packet.add_attribute(Attribute::VendorSpecific(1, vec![inner]));
    let bytes = p.encode(&packet).unwrap();
    assert_eq!(&bytes[2..4], &[0u8, 35]);
    assert_eq!(&bytes[20..], &[26u8, 15, 0, 0, 0, 1, 26, 9, 0, 0, 0, 2, 1, 3, b'a']);
    let mut unknown = Packet::new(PacketCode::AccessAccept, 1, [0u8; 16]);
    let nested = Attribute::VendorSpecific(2, vec![Attribute::Binary("Bogus".to_string(), vec![1])]);
    unknown.add_attribute(Attribute::VendorSpecific(1, vec![nested]));
    assert_eq!(p.encode(&unknown).unwrap_err(), ProtocolError::UnknownAttribute);
    let mut long = Packet::new(PacketCode::AccessAccept, 1, [0u8; 16]);
    let nested = Attribute::VendorSpecific(2, vec![Attribute::Binary("Class".to_string(), vec![0u8; 250])]);
    long.add_attribute(Attribute::VendorSpecific(1, vec![nested]));
    assert_eq!(p.encode(&long).unwrap_err(), ProtocolError::AttributeTooLong);
}

#[test]
fn decode_gives_typed_variants() {
    let p = PacketProcessor::new(&security(false));
    let mut data = header(2, 1, 43);
    data.extend_from_slice(&[5, 6, 0xff, 0xff, 0xff, 0xfe, 8, 6, 10, 0, 0, 1, 11, 4, b'f', b'w', 27, 3, 9, 80, 4, 1, 2]);
    let packet = p.parse(&data, source()).unwrap();
    assert_eq!(packet.get_attribute("NAS-Port"), Some(&Attribute::Integer("NAS-Port".to_string(), -2)));
    assert_eq!(
        packet.get_attribute("Framed-IP-Address"),
        Some(&Attribute::IpAddr("Framed-IP-Address".to_string(), [10, 0, 0, 1]))
    );
    assert_eq!(packet.get_attribute("Filter-Id"), Some(&Attribute::String("Filter-Id".to_string(), "fw".to_string())));
    assert_eq!(packet.get_attribute("Session-Timeout"), Some(&Attribute::Binary("Session-Timeout".to_string(), vec![9])));
    assert_eq!(
        packet.get_attribute("Message-Authenticator"),
        Some(&Attribute::Binary("Message-Authenticator".to_string(), vec![1, 2]))
    );
}

#[test]
fn round_trip_keeps_typed_attributes() {
    let p = PacketProcessor::new(&security(false));
    let mut packet = Packet::new(PacketCode::AccessAccept, 3, [1u8; 16]);
    packet.add_attribute(Attribute::Integer("Session-Timeout".to_string(), 3600));
    packet.add_attribute(Attribute::Integer("NAS-Port".to_string(), i32::MIN));
    packet.add_attribute(Attribute::IpAddr("Framed-IP-Address".to_string(), [192, 168, 1, 20]));
    packet.add_attribute(Attribute::String("Filter-Id".to_string(), "guests".to_string()));
    packet.add_attribute(Attribute::Binary("Class".to_string(), vec![7, 7]));
    let decoded = p.parse(&p.encode(&packet).unwrap(), source()).unwrap();
    assert_eq!(decoded.attributes(), packet.attributes());
    assert_eq!(decoded.code(), PacketCode::AccessAccept);
}

#[test]
fn message_authenticator_is_checked_against_computed_value() {
    let p = PacketProcessor::new(&security(false));
    let mut packet = Packet::new(PacketCode::AccessRequest, 1, [4u8; 16]);
    packet.add_attribute(Attribute::String("User-Name".to_string(), "alice".to_string()));
    assert!(!p.verify_message_authenticator(&packet, "secret"));
    let mut zeroed = packet.clone();
    zeroed.add_attribute(Attribute::Binary("Message-Authenticator".to_string(), vec![0u8; 16]));
    let mut mac = Hmac::<md5::Md5>::new_from_slice(b"secret").unwrap();
    mac.update(&p.encode(&zeroed).unwrap());
    let expected = mac.finalize().into_bytes().to_vec();
    let computed = p.calculate_message_authenticator(&packet, "secret").unwrap();
    assert_eq!(computed, expected);
    assert_ne!(computed, vec![0u8; 16]);
    assert_ne!(p.calculate_message_authenticator(&packet, "other").unwrap(), computed);
    packet.add_attribute(Attribute::Binary("Message-Authenticator".to_string(), computed.clone()));
    assert_eq!(p.calculate_message_authenticator(&packet, "secret").unwrap(), computed);
    assert!(p.verify_message_authenticator(&packet, "secret"));
    assert!(!p.verify_message_authenticator(&packet, "other"));
    packet.add_attribute(Attribute::Binary("Message-Authenticator".to_string(), vec![1u8; 16]));
    assert!(!p.verify_message_authenticator(&packet, "secret"));
}
