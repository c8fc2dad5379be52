//! The JSON envelope of an upstream uplink message.
//!
//! The network server wraps each uplink in a JSON object; the bridge reads
//! two nested string fields from it: the device identifier at
//! `end_device_ids.device_id`, and the decoded payload string at
//! `uplink_message.decoded_payload.result`. The JSON parsing itself is done
//! by an external library behind one trusted wrapper; everything after the
//! two strings are in hand is verified.

use vstd::prelude::*;

verus! {

/// The two fields the bridge reads from an uplink envelope.
pub struct Envelope {
    pub device_id: String,
    pub result: String,
}

/// The envelope fields a payload carries: `None` when the payload is not a
/// JSON object with both string fields in place, otherwise the device
/// identifier and the decoded payload string.
pub uninterp spec fn envelope_of(payload: Seq<u8>) -> Option<(Seq<char>, Seq<char>)>;

/// Relies on `serde_json::from_slice::<serde_json::Value>` and on
/// `serde_json::Value::get` and `Value::as_str`: parsing is a function of
/// the payload bytes alone; `from_slice` fails exactly on input that is not
/// well-formed JSON, `get` returns the member of an object by key, and
/// `as_str` returns the string a JSON string value holds.
#[verifier::external_body]
pub(crate) fn parse_envelope(payload: &[u8]) -> (r: Option<Envelope>)
    ensures
        r is Some <==> envelope_of(payload@) is Some,
        r matches Some(e) ==> envelope_of(payload@) == Some((e.device_id@, e.result@)),
{
    let v: serde_json::Value = match serde_json::from_slice(payload) {
        Ok(v) => v,
        Err(_) => return None,
    };
    let device = v.get("end_device_ids")?.get("device_id")?.as_str()?;
    let result = v.get("uplink_message")?.get("decoded_payload")?.get("result")?.as_str()?;
    Some(Envelope { device_id: device.to_string(), result: result.to_string() })
}

} // verus!
