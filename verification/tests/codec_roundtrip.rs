//! Round trips and failure cases of the frame and payload codecs.

use up2p::codec::BinCodec;
use up2p::frame::BaseUp2pProtocol;
use up2p::pkg::{
    BasePkg, ClientHelloPkg, ClientRequestAckPkg, ClientRequestPkg, PeerExchangePkg,
};
use up2p::ProtocolError;

fn base(class: &str, instance: &str, identity: &str) -> BasePkg {
    BasePkg {
        client_class: class.to_string(),
        client_instance: instance.to_string(),
        identity: identity.to_string(),
    }
}

/// One length-prefixed string item, as the wire format lays it out.
fn enc_str(s: &str) -> Vec<u8> {
    let b = s.as_bytes();
    let mut out = vec![(b.len() / 256) as u8, (b.len() % 256) as u8];
    out.extend_from_slice(b);
    out
}

#[test]
fn test_bin_codec() {
    let base_protocol_pkg = BaseUp2pProtocol::client_hello_with_payload(ClientHelloPkg::new(
        "client_class",
        "client_instance",
        "identity",
        0x00,
    ))
    .unwrap();
    let data = base_protocol_pkg.encode_to_vec().unwrap();
    let base_protocol_pkg2 = BaseUp2pProtocol::decode_from(&data).unwrap();
    assert_eq!(base_protocol_pkg.get_pkg_type(), base_protocol_pkg2.get_pkg_type());
    assert_eq!(base_protocol_pkg.get_payload(), base_protocol_pkg2.get_payload());
}

#[test]
fn flat_encoding_matches_nested() {
    // The nested hello payload encodes exactly as the same fields laid out
    // flat, one item after the other.
    let mut encoded: Vec<u8> = Vec::new();
    encoded.extend_from_slice(&enc_str("test"));
    encoded.extend_from_slice(&enc_str("test"));
    encoded.extend_from_slice(&enc_str("test"));
    encoded.push(0x01);
    let client_hello_pkg = ClientHelloPkg::new("test", "test", "test", 0x01);
    let encoded2: Vec<u8> = client_hello_pkg.encode_to_vec().unwrap();
    assert!(encoded == encoded2);
}

#[test]
fn test_base_info_eq() {
    let base_info1 = base("test", "test", "test");
    let base_info2 = base("test", "test", "test");
    assert_eq!(base_info1, base_info2);
    let base_info3 = base("test", "test", "test_a");
    assert_eq!(base_info1, base_info3);
    let base_info4 = base("test_a", "test", "test");
    assert_ne!(base_info1, base_info4);
    let base_info5 = base("test", "test_a", "test");
    assert_ne!(base_info1, base_info5);
}

#[test]
fn hello_roundtrip_plain() {
    let p = ClientHelloPkg::new("cli", "peer1", "tok", ClientHelloPkg::MSG_HEARTBEAT);
    let bytes = p.encode_to_vec().unwrap();
    let q = ClientHelloPkg::decode_from(&bytes).unwrap();
    assert_eq!(q.get_msg(), ClientHelloPkg::MSG_HEARTBEAT);
    assert_eq!(q.get_identity(), "tok");
    assert_eq!(q.encode_to_vec().unwrap(), bytes);
}

#[test]
fn hello_roundtrip_empty_strings() {
    let p = ClientHelloPkg::new("", "", "", 0x00);
    let bytes = p.encode_to_vec().unwrap();
    let q = ClientHelloPkg::decode_from(&bytes).unwrap();
    assert_eq!(q.get_msg(), 0x00);
    assert_eq!(q.get_identity(), "");
    assert_eq!(q.encode_to_vec().unwrap(), bytes);
}

#[test]
fn hello_roundtrip_unicode() {
    let p = ClientHelloPkg::new("классworld", "端点", "tøken", ClientHelloPkg::MSG_HELLO);
    let bytes = p.encode_to_vec().unwrap();
    let q = ClientHelloPkg::decode_from(&bytes).unwrap();
    assert_eq!(q.get_identity(), "tøken");
    assert_eq!(q.encode_to_vec().unwrap(), bytes);
}

#[test]
fn request_roundtrip() {
    let p = ClientRequestPkg::create_endpoint_request("cli", "a", "tok", "cli-b");
    let bytes = p.encode_to_vec().unwrap();
    let q = ClientRequestPkg::decode_from(&bytes).unwrap();
    assert_eq!(q.get_request_type(), ClientRequestPkg::REQUEST_ENDPOINT);
    assert_eq!(q.get_payload_as_global_id().unwrap(), "cli-b");
    assert_eq!(q.get_identity(), "tok");
    assert_eq!(q.encode_to_vec().unwrap(), bytes);
}

#[test]
fn request_ack_roundtrip() {
    let p = ClientRequestAckPkg::new("10.0.0.1:4000".to_string());
    let bytes = p.encode_to_vec().unwrap();
    let q = ClientRequestAckPkg::decode_from(&bytes).unwrap();
    assert_eq!(q.get_endpoint_address(), "10.0.0.1:4000");
}

#[test]
fn exchange_roundtrip_with_target() {
    let p = PeerExchangePkg::new(
        base("cli", "a", "tok"),
        vec![0, 1, 2, 254, 255],
        Some(base("cli", "b", "tok")),
    );
    let bytes = p.encode_to_vec().unwrap();
    let q = PeerExchangePkg::decode_from(&bytes).unwrap();
    assert_eq!(q.get_payload(), vec![0, 1, 2, 254, 255]);
    let t = q.get_target().unwrap();
    assert_eq!(t, base("cli", "b", "ignored-by-equality"));
    assert_eq!(q.encode_to_vec().unwrap(), bytes);
}

#[test]
fn exchange_roundtrip_without_target() {
    let p = PeerExchangePkg::new(base("cli", "a", "tok"), Vec::new(), None);
    let bytes = p.encode_to_vec().unwrap();
    let q = PeerExchangePkg::decode_from(&bytes).unwrap();
    assert_eq!(q.get_payload(), Vec::<u8>::new());
    assert!(q.get_target().is_none());
    assert_eq!(q.encode_to_vec().unwrap(), bytes);
}

#[test]
fn frame_roundtrip_max_content() {
    // 253 address bytes encode to a 255-byte ack payload: the largest frame.
    let addr = "a".repeat(253);
    let frame =
        BaseUp2pProtocol::response_with_payload(ClientRequestAckPkg::new(addr.clone())).unwrap();
    let bytes = frame.encode_to_vec().unwrap();
    assert_eq!(bytes.len(), 257);
    assert_eq!(bytes[0], 255);
    let back = BaseUp2pProtocol::decode_from(&bytes).unwrap();
    assert_eq!(back.get_pkg_type(), BaseUp2pProtocol::TYPE_REQUEST_ACK);
    let ack = ClientRequestAckPkg::decode_from(back.get_payload()).unwrap();
    assert_eq!(ack.get_endpoint_address(), addr);
}

#[test]
fn oversized_request_payload_is_refused() {
    let target = "x".repeat(300);
    let pkg = ClientRequestPkg::create_endpoint_request("cli", "peer1", "tok", &target);
    let r = BaseUp2pProtocol::request_with_payload(pkg);
    assert_eq!(r.err().unwrap(), ProtocolError::PayloadTooLarge);
}

#[test]
fn oversized_request_ack_is_refused() {
    let addr = "a".repeat(254);
    let r = BaseUp2pProtocol::response_with_payload(ClientRequestAckPkg::new(addr));
    assert_eq!(r.err().unwrap(), ProtocolError::PayloadTooLarge);
}

#[test]
fn overlong_field_is_refused() {
    let huge = "y".repeat(70000);
    let p = ClientHelloPkg::new(&huge, "i", "tok", 0x01);
    assert_eq!(p.encode_to_vec().err().unwrap(), ProtocolError::FieldTooLong);
    // At the framing level every oversize reads as a too-large payload.
    let p = ClientHelloPkg::new(&huge, "i", "tok", 0x01);
    assert_eq!(
        BaseUp2pProtocol::client_hello_with_payload(p).err().unwrap(),
        ProtocolError::PayloadTooLarge
    );
}

#[test]
fn frame_decode_rejects_malformed() {
    // Too short.
    assert!(BaseUp2pProtocol::decode_from(&[]).is_err());
    assert!(BaseUp2pProtocol::decode_from(&[0]).is_err());
    // Length byte disagreeing with the datagram size.
    assert!(BaseUp2pProtocol::decode_from(&[1, 2]).is_err());
    assert!(BaseUp2pProtocol::decode_from(&[0, 2, 9]).is_err());
    // Unknown type discriminants.
    assert!(BaseUp2pProtocol::decode_from(&[0, 0]).is_err());
    assert!(BaseUp2pProtocol::decode_from(&[0, 8]).is_err());
    // The smallest well-formed frame.
    assert!(BaseUp2pProtocol::decode_from(&[0, 2]).is_ok());
}

#[test]
fn payload_decode_rejects_trailing_bytes() {
    let p = ClientRequestAckPkg::new("addr".to_string());
    let mut bytes = p.encode_to_vec().unwrap();
    bytes.push(0);
    assert_eq!(
        ClientRequestAckPkg::decode_from(&bytes).err().unwrap(),
        ProtocolError::Decode
    );
}

#[test]
fn request_payload_must_be_utf8() {
    // A request whose body is not UTF-8 decodes as a payload but yields no
    // global id.
    let mut bytes = Vec::new();
    bytes.extend_from_slice(&enc_str("cli"));
    bytes.extend_from_slice(&enc_str("a"));
    bytes.extend_from_slice(&enc_str("tok"));
    bytes.push(ClientRequestPkg::REQUEST_ENDPOINT);
    bytes.push(0);
    bytes.extend_from_slice(&[0, 2, 0xFF, 0xFE]);
    let q = ClientRequestPkg::decode_from(&bytes).unwrap();
    assert_eq!(q.get_payload_as_global_id().err().unwrap(), ProtocolError::Decode);
}

#[test]
fn string_item_rejects_invalid_utf8() {
    // A hello whose class field holds invalid UTF-8 cannot decode.
    let mut full = Vec::new();
    full.extend_from_slice(&[0, 2, 0xFF, 0xFE]);
    full.extend_from_slice(&enc_str("a"));
    full.extend_from_slice(&enc_str("tok"));
    full.push(0x01);
    assert!(ClientHelloPkg::decode_from(&full).is_err());
}

#[test]
fn default_frame_is_an_empty_hello() {
    let frame = BaseUp2pProtocol::default();
    assert_eq!(frame.get_pkg_type(), BaseUp2pProtocol::TYPE_HELLO);
    assert!(frame.get_payload().is_empty());
    assert_eq!(frame.encode_to_vec().unwrap(), vec![0u8, BaseUp2pProtocol::TYPE_HELLO]);
}
