//! The device registry and the server-side router, scenario by scenario.

use up2p::codec::BinCodec;
use up2p::facade::{build_exchange_datagram, build_hello_datagram, build_request_datagram};
use up2p::frame::BaseUp2pProtocol;
use up2p::pkg::{BasePkg, ClientRequestAckPkg, GetBaseInfo, PeerExchangePkg, RequestInfo};
use up2p::registry::DeviceRegistry;
use up2p::router::route;

fn base(class: &str, instance: &str, identity: &str) -> BasePkg {
    BasePkg {
        client_class: class.to_string(),
        client_instance: instance.to_string(),
        identity: identity.to_string(),
    }
}

#[test]
fn registry_upsert_then_lookup() {
    let mut reg = DeviceRegistry::new();
    reg.upsert("cli-peer1".to_string(), "10.0.0.1:4000".to_string());
    assert_eq!(reg.lookup(&"cli-peer1".to_string()).unwrap(), "10.0.0.1:4000");
}

#[test]
fn registry_last_write_wins() {
    let mut reg = DeviceRegistry::new();
    reg.upsert("cli-peer1".to_string(), "10.0.0.1:4000".to_string());
    reg.upsert("cli-peer2".to_string(), "10.0.0.2:4000".to_string());
    reg.upsert("cli-peer1".to_string(), "77.1.2.3:9999".to_string());
    assert_eq!(reg.lookup(&"cli-peer1".to_string()).unwrap(), "77.1.2.3:9999");
    assert_eq!(reg.lookup(&"cli-peer2".to_string()).unwrap(), "10.0.0.2:4000");
}

#[test]
fn registry_lookup_miss() {
    let mut reg = DeviceRegistry::new();
    assert!(reg.lookup(&"cli-ghost".to_string()).is_none());
    reg.upsert("cli-peer1".to_string(), "10.0.0.1:4000".to_string());
    assert!(reg.lookup(&"cli-ghost".to_string()).is_none());
}

#[test]
fn route_hello_registers_and_acks() {
    let mut reg = DeviceRegistry::new();
    let datagram = build_hello_datagram(&base("cli", "peer1", "tok")).unwrap();
    let out = route(&mut reg, "tok", &datagram, "10.0.0.1:4000");
    assert_eq!(out.len(), 1);
    assert_eq!(out[0].dest, "10.0.0.1:4000");
    assert_eq!(out[0].data, vec![0u8, BaseUp2pProtocol::TYPE_HELLO_ACK]);
    assert_eq!(reg.lookup(&"cli-peer1".to_string()).unwrap(), "10.0.0.1:4000");
}

#[test]
fn route_hello_roaming_overwrites() {
    let mut reg = DeviceRegistry::new();
    let datagram = build_hello_datagram(&base("cli", "peer1", "tok")).unwrap();
    route(&mut reg, "tok", &datagram, "10.0.0.1:4000");
    route(&mut reg, "tok", &datagram, "8.8.8.8:1234");
    assert_eq!(reg.lookup(&"cli-peer1".to_string()).unwrap(), "8.8.8.8:1234");
}

#[test]
fn route_hello_bad_token_is_dropped_silently() {
    let mut reg = DeviceRegistry::new();
    let datagram = build_hello_datagram(&base("cli", "peer1", "wrong")).unwrap();
    let out = route(&mut reg, "tok", &datagram, "10.0.0.1:4000");
    assert!(out.is_empty());
    assert!(reg.lookup(&"cli-peer1".to_string()).is_none());
}

#[test]
fn route_request_hit_sends_ack() {
    let mut reg = DeviceRegistry::new();
    reg.upsert("cli-peer1".to_string(), "10.0.0.1:4000".to_string());
    let req = RequestInfo {
        client_class: "cli".to_string(),
        client_instance: "peer1".to_string(),
    };
    let datagram = build_request_datagram(&base("cli", "asker", "tok"), &req).unwrap();
    let out = route(&mut reg, "tok", &datagram, "9.9.9.9:9");
    assert_eq!(out.len(), 1);
    assert_eq!(out[0].dest, "9.9.9.9:9");
    let frame = BaseUp2pProtocol::decode_from(&out[0].data).unwrap();
    assert_eq!(frame.get_pkg_type(), BaseUp2pProtocol::TYPE_REQUEST_ACK);
    let ack = ClientRequestAckPkg::decode_from(frame.get_payload()).unwrap();
    assert_eq!(ack.get_endpoint_address(), "10.0.0.1:4000");
}

#[test]
fn route_request_miss_sends_nothing() {
    let mut reg = DeviceRegistry::new();
    let req = RequestInfo {
        client_class: "cli".to_string(),
        client_instance: "ghost".to_string(),
    };
    let datagram = build_request_datagram(&base("cli", "asker", "tok"), &req).unwrap();
    let out = route(&mut reg, "tok", &datagram, "9.9.9.9:9");
    assert!(out.is_empty());
}

#[test]
fn route_exchange_relays_verbatim() {
    let mut reg = DeviceRegistry::new();
    let hello = build_hello_datagram(&base("cli", "peer1", "tok")).unwrap();
    route(&mut reg, "tok", &hello, "10.0.0.1:4000");
    let datagram = build_exchange_datagram(
        &base("cli", "sender", "tok"),
        vec![9, 8, 7],
        Some(base("cli", "peer1", "tok")),
    )
    .unwrap();
    let out = route(&mut reg, "tok", &datagram, "5.5.5.5:5");
    assert_eq!(out.len(), 1);
    assert_eq!(out[0].dest, "10.0.0.1:4000");
    // The relay forwards the original datagram untouched.
    assert_eq!(out[0].data, datagram);
    let frame = BaseUp2pProtocol::decode_from(&out[0].data).unwrap();
    let pkg = PeerExchangePkg::decode_from(frame.get_payload()).unwrap();
    assert_eq!(pkg.get_payload(), vec![9, 8, 7]);
    let src = pkg.get_baseinfo();
    assert_eq!(src.client_class, "cli");
    assert_eq!(src.client_instance, "sender");
}

#[test]
fn route_exchange_without_target_is_dropped() {
    let mut reg = DeviceRegistry::new();
    let hello = build_hello_datagram(&base("cli", "peer1", "tok")).unwrap();
    route(&mut reg, "tok", &hello, "10.0.0.1:4000");
    let datagram =
        build_exchange_datagram(&base("cli", "sender", "tok"), vec![1], None).unwrap();
    let out = route(&mut reg, "tok", &datagram, "5.5.5.5:5");
    assert!(out.is_empty());
}

#[test]
fn route_exchange_unregistered_target_is_dropped() {
    let mut reg = DeviceRegistry::new();
    let datagram = build_exchange_datagram(
        &base("cli", "sender", "tok"),
        vec![1],
        Some(base("cli", "ghost", "tok")),
    )
    .unwrap();
    let out = route(&mut reg, "tok", &datagram, "5.5.5.5:5");
    assert!(out.is_empty());
}

#[test]
fn route_drops_junk_and_unhandled_types() {
    let mut reg = DeviceRegistry::new();
    assert!(route(&mut reg, "tok", &[], "1.1.1.1:1").is_empty());
    assert!(route(&mut reg, "tok", &[9, 9, 9], "1.1.1.1:1").is_empty());
    // A well-formed frame of a type the server does not handle.
    let data_frame = vec![0u8, BaseUp2pProtocol::TYPE_DATA];
    assert!(route(&mut reg, "tok", &data_frame, "1.1.1.1:1").is_empty());
    // A hello whose payload bytes are garbage.
    let bad_hello = vec![1u8, BaseUp2pProtocol::TYPE_HELLO, 0xFF];
    assert!(route(&mut reg, "tok", &bad_hello, "1.1.1.1:1").is_empty());
}
