//! The downstream JSON payloads on concrete values.

use rusty_mqtt::forward::{connect_message, telemetry_message};
use rusty_mqtt::store::TelemetryStore;
use rusty_mqtt::telemetry::{generate_telemtry_packet, Device, Sensor, Values};

#[test]
fn connect_payload_shape() {
    assert_eq!(connect_message(&Device::new("station_1")), "{\"device\":\"station_1\"}");
    assert_eq!(connect_message(&Device::new("")), "{\"device\":\"\"}");
}

#[test]
fn connect_payload_escapes_special_characters() {
    let msg = connect_message(&Device::new("a\"b\\c\nd"));
    assert_eq!(msg, "{\"device\":\"a\\\"b\\\\c\\u000ad\"}");
    // What serde reads back is the unescaped name.
    let v: serde_json::Value = serde_json::from_str(&msg).unwrap();
    assert_eq!(v["device"], "a\"b\\c\nd");
}

#[test]
fn telemetry_payload_shape() {
    let mut store = TelemetryStore::new();
    store.upsert(
        &"station_1".to_string(),
        Sensor::new(42, Values::new(-20, 7, 180, 3, 0)),
    );
    let msg = telemetry_message(&store);
    assert_eq!(
        msg,
        "{\"station_1\":[{\"ts\":42,\"values\":{\"temperature\":-20,\"humidity\":7,\
         \"rain_height\":0,\"wind_direction\":180,\"wind_intensity\":3}}]}"
    );
}

#[test]
fn telemetry_payload_replaces_and_accumulates() {
    let mut store = TelemetryStore::new();
    store.upsert(&"a".to_string(), Sensor::new(1, Values::new(1, 2, 3, 4, 5)));
    store.upsert(&"b".to_string(), Sensor::new(2, Values::new(6, 7, 8, 9, 10)));
    store.upsert(&"a".to_string(), Sensor::new(3, Values::new(11, 12, 13, 14, 15)));
    let v: serde_json::Value = serde_json::from_str(&telemetry_message(&store)).unwrap();
    assert_eq!(v["a"][0]["ts"], 3);
    assert_eq!(v["a"][0]["values"]["temperature"], 11);
    assert_eq!(v["b"][0]["ts"], 2);
    assert_eq!(v.as_object().unwrap().len(), 2);
}

#[test]
fn empty_store_serializes_to_empty_object() {
    let store = TelemetryStore::new();
    assert_eq!(telemetry_message(&store), "{}");
}

#[test]
fn values_constructor_places_each_reading() {
    // The constructor's parameter order differs from the field order; the
    // fields are what count.
    let v = Values::new(1, 2, 3, 4, 5);
    assert_eq!(v.temperature, 1);
    assert_eq!(v.humidity, 2);
    assert_eq!(v.wind_direction, 3);
    assert_eq!(v.wind_intensity, 4);
    assert_eq!(v.rain_height, 5);
}

#[test]
fn telemetry_packet_keeps_the_values_and_stamps_a_time() {
    let values = Values::new(1, 2, 3, 4, 5);
    let sensor = generate_telemtry_packet(values);
    assert_eq!(sensor.values, values);
    // The wall clock is past the epoch on any running system.
    assert!(sensor.ts > 0);
}
