//! The encoded frames, decoded back with the protocol library.

use std::io::Cursor;

use mqtt::packet::{ConnectPacket, PublishPacket, SubscribePacket};
use mqtt::{Decodable, QualityOfService};
use rusty_mqtt::credentials::get;
use rusty_mqtt::frames::{
    connect_frame, pingreq_frame, publish_frame, subscribe_frame, PACKET_IDENTIFIER,
};

#[test]
fn connect_frame_round_trips() {
    let creds = get();
    let buf = connect_frame("client-1", Some(creds.appid), Some(creds.appaccesskey), false)
        .unwrap();
    let pk = ConnectPacket::decode(&mut Cursor::new(buf)).unwrap();
    assert_eq!(pk.client_identifier(), "client-1");
    assert_eq!(pk.user_name(), Some("app_name"));
    assert_eq!(pk.password(), Some("app_access_key"));
    assert!(!pk.clean_session());
}

#[test]
fn connect_frame_carries_clean_session() {
    let buf = connect_frame("gw", Some("ACCESS_TOKEN"), None, true).unwrap();
    let pk = ConnectPacket::decode(&mut Cursor::new(buf)).unwrap();
    assert_eq!(pk.user_name(), Some("ACCESS_TOKEN"));
    assert_eq!(pk.password(), None);
    assert!(pk.clean_session());
}

#[test]
fn connect_frame_refuses_oversized_fields() {
    let long = "x".repeat(65536);
    assert!(connect_frame(&long, None, None, true).is_none());
    assert!(connect_frame("c", Some(&long), None, true).is_none());
    assert!(connect_frame("c", None, Some(&long), true).is_none());
}

#[test]
fn subscribe_frame_round_trips() {
    let buf = subscribe_frame(PACKET_IDENTIFIER, "hello/world").unwrap();
    let pk = SubscribePacket::decode(&mut Cursor::new(buf)).unwrap();
    assert_eq!(pk.packet_identifier(), 10);
    let subs = pk.subscribes();
    assert_eq!(subs.len(), 1);
    assert_eq!(&subs[0].0[..], "hello/world");
    assert_eq!(subs[0].1, QualityOfService::Level0);
}

#[test]
fn subscribe_frame_refuses_an_empty_filter() {
    assert!(subscribe_frame(10, "").is_none());
}

#[test]
fn publish_frame_round_trips() {
    let buf = publish_frame(PACKET_IDENTIFIER, "v1/gateway/telemetry", "{\"k\":1}").unwrap();
    let pk = PublishPacket::decode(&mut Cursor::new(buf)).unwrap();
    assert_eq!(pk.topic_name(), "v1/gateway/telemetry");
    assert_eq!(pk.payload(), b"{\"k\":1}");
}

#[test]
fn publish_frame_refuses_wildcard_topics() {
    assert!(publish_frame(10, "a/#", "x").is_none());
    assert!(publish_frame(10, "a/+/b", "x").is_none());
    assert!(publish_frame(10, "", "x").is_none());
}

#[test]
fn pingreq_frame_is_the_fixed_two_bytes() {
    assert_eq!(pingreq_frame(), vec![0xc0, 0x00]);
}
