//! The correlation engine's table, the event decoding, and the facade's
//! reply handling.

use up2p::correlation::{dispatch_event, PendingTable};
use up2p::event::{event_of_datagram, ClientEvent, EventType};
use up2p::facade::{build_hello_datagram, request_ack_endpoint};
use up2p::frame::BaseUp2pProtocol;
use up2p::pkg::{BasePkg, ClientRequestAckPkg, GetBaseInfo};
use up2p::codec::BinCodec;

fn base(class: &str, instance: &str, identity: &str) -> BasePkg {
    BasePkg {
        client_class: class.to_string(),
        client_instance: instance.to_string(),
        identity: identity.to_string(),
    }
}

fn request_ack_datagram(addr: &str) -> Vec<u8> {
    BaseUp2pProtocol::response_with_payload(ClientRequestAckPkg::new(addr.to_string()))
        .unwrap()
        .encode_to_vec()
        .unwrap()
}

#[test]
fn match_wakes_earliest_of_type() {
    let mut table = PendingTable::new();
    table.subscribe(EventType::REQUEST_ACK, 11);
    table.subscribe(EventType::HELLO_ACK, 22);
    table.subscribe(EventType::REQUEST_ACK, 33);
    assert_eq!(table.match_event(EventType::REQUEST_ACK), Some(11));
    assert_eq!(table.match_event(EventType::REQUEST_ACK), Some(33));
    assert_eq!(table.match_event(EventType::REQUEST_ACK), None);
    assert_eq!(table.match_event(EventType::HELLO_ACK), Some(22));
    assert_eq!(table.len(), 0);
}

#[test]
fn timeout_cleanup_releases_the_slot() {
    let mut table = PendingTable::new();
    // A wait registers, times out, and removes its own entry.
    table.subscribe(EventType::HELLO_ACK, 1);
    table.remove(1);
    assert!(!table.contains_id(1));
    assert_eq!(table.len(), 0);
    // A second wait of the same type is the one a later event wakes.
    table.subscribe(EventType::HELLO_ACK, 2);
    assert_eq!(table.match_event(EventType::HELLO_ACK), Some(2));
}

#[test]
fn same_type_race_delivers_each_ack_once() {
    let mut table = PendingTable::new();
    table.subscribe(EventType::REQUEST_ACK, 100);
    table.subscribe(EventType::REQUEST_ACK, 200);
    let first = table.match_event(EventType::REQUEST_ACK);
    let second = table.match_event(EventType::REQUEST_ACK);
    let third = table.match_event(EventType::REQUEST_ACK);
    // Each ack goes to exactly one of the two waiters, in registration
    // order; none is delivered twice or to no one.
    assert_eq!(first, Some(100));
    assert_eq!(second, Some(200));
    assert_eq!(third, None);
}

#[test]
fn subscribe_fresh_entry_is_removable() {
    let mut table = PendingTable::new();
    let id = table.subscribe_fresh(EventType::P2P_PKG_EXCHANGE);
    assert!(table.contains_id(id));
    table.remove(id);
    assert!(!table.contains_id(id));
}

#[test]
fn event_of_hello_ack_datagram() {
    let bytes = vec![0u8, BaseUp2pProtocol::TYPE_HELLO_ACK];
    let event = event_of_datagram(&bytes).unwrap();
    assert_eq!(event.get_event_type(), EventType::HELLO_ACK);
    assert!(matches!(event, ClientEvent::HelloAck(_)));
}

#[test]
fn event_of_request_ack_datagram() {
    let event = event_of_datagram(&request_ack_datagram("10.0.0.1:4000")).unwrap();
    assert_eq!(event.get_event_type(), EventType::REQUEST_ACK);
    assert_eq!(request_ack_endpoint(&event).unwrap(), "10.0.0.1:4000");
}

#[test]
fn event_of_exchange_datagram() {
    let datagram = up2p::facade::build_exchange_datagram(
        &base("cli", "sender", "tok"),
        vec![42],
        Some(base("cli", "me", "tok")),
    )
    .unwrap();
    let event = event_of_datagram(&datagram).unwrap();
    assert_eq!(event.get_event_type(), EventType::P2P_PKG_EXCHANGE);
    match event {
        ClientEvent::PkgExchange(e) => {
            assert_eq!(e.get_payload(), vec![42]);
            assert_eq!(e.get_src().client_instance, "sender");
            assert_eq!(e.get_dst().unwrap().client_instance, "me");
        }
        _ => panic!("expected an exchange event"),
    }
}

#[test]
fn event_of_unhandled_type_is_catch_all() {
    let bytes = vec![0u8, BaseUp2pProtocol::TYPE_DATA];
    let event = event_of_datagram(&bytes).unwrap();
    assert_eq!(event.get_event_type(), BaseUp2pProtocol::TYPE_DATA);
    assert!(matches!(event, ClientEvent::Other { .. }));
}

#[test]
fn event_of_malformed_datagram_is_nothing() {
    assert!(event_of_datagram(&[]).is_none());
    assert!(event_of_datagram(&[7, 7]).is_none());
    // A request-ack frame whose payload is garbage.
    assert!(event_of_datagram(&[1, BaseUp2pProtocol::TYPE_REQUEST_ACK, 0xFF]).is_none());
}

#[test]
fn dispatch_wakes_matching_waiter_and_drops_catch_all() {
    let mut table = PendingTable::new();
    table.subscribe(EventType::HELLO_ACK, 5);
    let hello_ack = event_of_datagram(&[0, BaseUp2pProtocol::TYPE_HELLO_ACK]).unwrap();
    assert_eq!(dispatch_event(&mut table, &hello_ack), Some(5));
    // The entry is consumed: the same event again wakes nobody.
    assert_eq!(dispatch_event(&mut table, &hello_ack), None);
    // An event of an unhandled type never wakes anyone.
    table.subscribe(BaseUp2pProtocol::TYPE_DATA, 6);
    let data = event_of_datagram(&[0, BaseUp2pProtocol::TYPE_DATA]).unwrap();
    assert_eq!(dispatch_event(&mut table, &data), None);
    assert!(table.contains_id(6));
}

#[test]
fn hello_roundtrip_through_client_decode() {
    // What the facade sends, the server-side codec reads back.
    let datagram = build_hello_datagram(&base("cli", "peer1", "tok")).unwrap();
    let frame = BaseUp2pProtocol::decode_from(&datagram).unwrap();
    assert_eq!(frame.get_pkg_type(), BaseUp2pProtocol::TYPE_HELLO);
    let pkg = up2p::pkg::ClientHelloPkg::decode_from(frame.get_payload()).unwrap();
    assert_eq!(pkg.get_baseinfo().client_instance, "peer1");
}
