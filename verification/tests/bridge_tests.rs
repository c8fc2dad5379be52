//! The receive pipeline end to end, with the real JSON parser linked.

use rusty_mqtt::bridge::BridgeCore;
use rusty_mqtt::session::{BridgeFault, Frame, FrameEvent};
use rusty_mqtt::transform::DecodeError;

fn uplink(device_id: &str, result: &str) -> Vec<u8> {
    format!(
        "{{\"end_device_ids\":{{\"device_id\":\"{}\"}},\
         \"uplink_message\":{{\"decoded_payload\":{{\"result\":\"{}\"}}}}}}",
        device_id, result
    )
    .into_bytes()
}

#[test]
fn first_message_announces_then_forwards() {
    let mut core = BridgeCore::new();
    let out = core.handle_publish(&uplink("1", "80 30 213 35 45"), 1234).unwrap();
    assert_eq!(out.len(), 2);
    assert_eq!(out[0].topic, "v1/gateway/connect");
    assert_eq!(out[0].body, "{\"device\":\"station_1\"}");
    assert_eq!(out[1].topic, "v1/gateway/telemetry");
    assert_eq!(
        out[1].body,
        "{\"station_1\":[{\"ts\":1234,\"values\":{\"temperature\":30,\"humidity\":30,\
         \"rain_height\":213,\"wind_direction\":35,\"wind_intensity\":45}}]}"
    );
}

#[test]
fn two_messages_for_one_device_announce_once() {
    // Two consecutive messages for station_1: one connect publish, two
    // telemetry publishes, all keyed under station_1.
    let mut core = BridgeCore::new();
    let first = core.handle_publish(&uplink("1", "80 30 213 35 45"), 1000).unwrap();
    let second = core.handle_publish(&uplink("1", "81 31 214 36 46"), 2000).unwrap();
    assert_eq!(first.len(), 2);
    assert_eq!(first[0].topic, "v1/gateway/connect");
    assert_eq!(second.len(), 1);
    assert_eq!(second[0].topic, "v1/gateway/telemetry");
    let v: serde_json::Value = serde_json::from_str(&second[0].body).unwrap();
    assert_eq!(v["station_1"][0]["ts"], 2000);
    assert_eq!(v["station_1"][0]["values"]["temperature"], 31);
}

#[test]
fn telemetry_accumulates_across_devices() {
    let mut core = BridgeCore::new();
    core.handle_publish(&uplink("1", "80 30 213 35 45"), 1).unwrap();
    let out = core.handle_publish(&uplink("2", "60 1 2 3 4"), 2).unwrap();
    let v: serde_json::Value = serde_json::from_str(&out[1].body).unwrap();
    assert_eq!(v["station_1"][0]["values"]["temperature"], 30);
    assert_eq!(v["station_2"][0]["values"]["temperature"], 10);
}

#[test]
fn malformed_payload_between_well_formed_ones_is_isolated() {
    // A decode error must not prevent the neighbouring messages from being
    // processed.
    let mut core = BridgeCore::new();
    let a = core.handle_publish(&uplink("1", "80 30 213 35 45"), 1).unwrap();
    assert_eq!(core.handle_publish(b"not json at all", 2), Err(DecodeError::MissingField));
    let c = core.handle_publish(&uplink("1", "81 31 214 36 46"), 3).unwrap();
    assert_eq!(a.len(), 2);
    assert_eq!(c.len(), 1);
    let v: serde_json::Value = serde_json::from_str(&c[0].body).unwrap();
    assert_eq!(v["station_1"][0]["values"]["temperature"], 31);
}

#[test]
fn connects_match_newly_seen_devices() {
    // However devices interleave, and whatever malformed traffic arrives,
    // one connect notification goes out per distinct device.
    let mut core = BridgeCore::new();
    let mut connects = 0;
    let payloads: Vec<Vec<u8>> = vec![
        uplink("1", "80 30 213 35 45"),
        uplink("2", "60 1 2 3 4"),
        uplink("1", "81 31 214 36 46"),
        b"garbage".to_vec(),
        uplink("2", "61 2 3 4 5"),
    ];
    for (i, p) in payloads.iter().enumerate() {
        if let Ok(out) = core.handle_publish(p, i as u128) {
            connects += out.iter().filter(|m| m.topic == "v1/gateway/connect").count();
        }
    }
    assert_eq!(connects, 2);
}

#[test]
fn envelope_errors_are_typed() {
    let mut core = BridgeCore::new();
    assert_eq!(core.handle_publish(b"{}", 1), Err(DecodeError::MissingField));
    assert_eq!(
        core.handle_publish(b"{\"end_device_ids\":{\"device_id\":7}}", 1),
        Err(DecodeError::MissingField)
    );
    assert_eq!(
        core.handle_publish(&uplink("1", "80 30 213"), 1),
        Err(DecodeError::WrongTokenCount)
    );
    assert_eq!(
        core.handle_publish(&uplink("1", "80 30 213 35 no"), 1),
        Err(DecodeError::NonNumericToken)
    );
}

#[test]
fn handle_event_classifies_inbound_frames() {
    let mut core = BridgeCore::new();
    let (out, fault) = core.handle_event(&FrameEvent::DecodeFailed, 1);
    assert!(out.is_empty());
    assert_eq!(fault, Some(BridgeFault::FrameDecodeError));

    let (out, fault) = core.handle_event(&FrameEvent::Decoded(Frame::Pingresp), 1);
    assert!(out.is_empty());
    assert_eq!(fault, None);

    let publish = FrameEvent::Decoded(Frame::Publish {
        topic: "anything".to_string(),
        payload: uplink("9", "80 30 213 35 45"),
    });
    let (out, fault) = core.handle_event(&publish, 7);
    assert_eq!(fault, None);
    assert_eq!(out.len(), 2);
    assert_eq!(out[0].body, "{\"device\":\"station_9\"}");

    let bad = FrameEvent::Decoded(Frame::Publish {
        topic: "anything".to_string(),
        payload: b"{}".to_vec(),
    });
    let (out, fault) = core.handle_event(&bad, 8);
    assert!(out.is_empty());
    assert_eq!(fault, Some(BridgeFault::PayloadDecodeError(DecodeError::MissingField)));
}
