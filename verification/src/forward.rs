//! The forwarder's wire format: the JSON payloads published downstream.
//!
//! The connect topic carries `{"device": <name>}`; the telemetry topic
//! carries the whole mapping of devices to their latest sample,
//! `{<name>: [{"ts": <ms>, "values": {...}}], ...}`, in first-sighting
//! order. Every payload is pinned character by character by the spec
//! functions here.

use vstd::prelude::*;

use crate::store::{EntryModel, TelemetryStore};
use crate::telemetry::{Device, Sensor, SensorModel};

verus! {

/// The character for one decimal digit.
pub open spec fn digit_char(d: int) -> char {
    ((48 + d) as u8) as char
}

/// The decimal digits of `n >= 0`, no sign, no leading zero (except "0").
pub open spec fn dec_digits(n: int) -> Seq<char>
    decreases n,
{
    if n < 10 {
        seq![digit_char(n)]
    } else {
        dec_digits(n / 10).push(digit_char(n % 10))
    }
}

/// The decimal rendering of an integer, with a sign when negative.
pub open spec fn int_str(n: int) -> Seq<char> {
    if n < 0 {
        seq!['-'] + dec_digits(-n)
    } else {
        dec_digits(n)
    }
}

/// The character for one lower-case hexadecimal digit.
pub open spec fn hex_char(d: int) -> char {
    if d < 10 {
        digit_char(d)
    } else {
        ((97 + d - 10) as u8) as char
    }
}

/// How one character appears inside a JSON string literal: quotes and
/// backslashes escaped, control characters as `\u00XX`.
pub open spec fn esc_char(c: char) -> Seq<char> {
    if c == '"' {
        seq!['\\', '"']
    } else if c == '\\' {
        seq!['\\', '\\']
    } else if (c as u32) < 32 {
        seq!['\\', 'u', '0', '0', hex_char(c as int / 16), hex_char(c as int % 16)]
    } else {
        seq![c]
    }
}

/// A whole character sequence, escaped.
pub open spec fn json_escaped(s: Seq<char>) -> Seq<char>
    decreases s.len(),
{
    if s.len() == 0 {
        Seq::empty()
    } else {
        json_escaped(s.drop_last()) + esc_char(s.last())
    }
}

/// A JSON string literal: the escaped characters between quotes.
pub open spec fn json_string(s: Seq<char>) -> Seq<char> {
    seq!['"'] + json_escaped(s) + seq!['"']
}

/// The connect-notification payload for one device.
pub open spec fn connect_json(device: Seq<char>) -> Seq<char> {
    "{\"device\":"@ + json_string(device) + "}"@
}

/// One sample as JSON: timestamp and the five readings, in declaration
/// order.
pub open spec fn sensor_json(s: SensorModel) -> Seq<char> {
    "{\"ts\":"@ + dec_digits(s.ts) + ",\"values\":{\"temperature\":"@ + int_str(
        s.values.temperature,
    ) + ",\"humidity\":"@ + int_str(s.values.humidity) + ",\"rain_height\":"@ + int_str(
        s.values.rain_height,
    ) + ",\"wind_direction\":"@ + int_str(s.values.wind_direction) + ",\"wind_intensity\":"@
        + int_str(s.values.wind_intensity) + "}}"@
}

/// One device's entry in the telemetry mapping.
pub open spec fn entry_json(e: EntryModel) -> Seq<char> {
    json_string(e.device) + ":["@ + sensor_json(e.sample) + "]"@
}

/// The entries of the telemetry mapping, comma-separated.
pub open spec fn entries_json(es: Seq<EntryModel>) -> Seq<char>
    decreases es.len(),
{
    if es.len() == 0 {
        Seq::empty()
    } else if es.len() == 1 {
        entry_json(es[0])
    } else {
        entries_json(es.drop_last()) + seq![','] + entry_json(es.last())
    }
}

/// The telemetry payload: the whole mapping as one JSON object.
pub open spec fn telemetry_json(es: Seq<EntryModel>) -> Seq<char> {
    seq!['{'] + entries_json(es) + seq!['}']
}

/// Relies on `String::push`: appends exactly the one character.
#[verifier::external_body]
fn push_char(s: &mut String, c: char)
    ensures
        final(s)@ == old(s)@ + seq![c],
{
    s.push(c);
}

/// Append the decimal digits of `n`.
fn push_dec_u128(out: &mut String, n: u128)
    ensures
        final(out)@ == old(out)@ + dec_digits(n as int),
    decreases n,
{
    if n >= 10 {
        push_dec_u128(out, n / 10);
    }
    let ghost mid = out@;
    let d: u8 = (n % 10) as u8;
    push_char(out, (48 + d) as char);
    proof {
        if n < 10 {
            assert(out@ =~= old(out)@ + dec_digits(n as int));
        } else {
            assert(mid == old(out)@ + dec_digits(n as int / 10));
            assert(out@ =~= old(out)@ + dec_digits(n as int));
        }
    }
}

/// Append the decimal rendering of `n`, signed.
fn push_dec_i16(out: &mut String, n: i16)
    ensures
        final(out)@ == old(out)@ + int_str(n as int),
{
    if n < 0 {
        push_char(out, '-');
        let m: u32 = (-(n as i32)) as u32;
        let ghost mid = out@;
        push_dec_u128(out, m as u128);
        proof {
            assert(out@ =~= old(out)@ + int_str(n as int));
        }
    } else {
        push_dec_u128(out, n as u128);
    }
}

/// The character for one hexadecimal digit, lower case.
fn hex_char_of(d: u32) -> (c: char)
    requires
        d < 16,
    ensures
        c == hex_char(d as int),
{
    if d < 10 {
        ((48 + d) as u8) as char
    } else {
        ((97 + d - 10) as u8) as char
    }
}

/// Append `s` with JSON string escaping applied.
fn push_escaped(out: &mut String, s: &str)
    ensures
        final(out)@ == old(out)@ + json_escaped(s@),
{
    let n = s.unicode_len();
    let mut i: usize = 0;
    proof {
        assert(s@.subrange(0, 0) =~= Seq::<char>::empty());
        assert(out@ =~= out@ + json_escaped(s@.subrange(0, 0)));
    }
    while i < n
        invariant
            0 <= i <= n,
            n == s@.len(),
            out@ == old(out)@ + json_escaped(s@.subrange(0, i as int)),
        decreases n - i,
    {
        let c = s.get_char(i);
        let ghost pre = s@.subrange(0, i as int);
        let ghost pre2 = s@.subrange(0, i + 1);
        proof {
            assert(pre2.drop_last() =~= pre);
            assert(pre2.last() == s@[i as int]);
        }
        let ghost mid = out@;
        if c == '"' {
            push_char(out, '\\');
            push_char(out, '"');
        } else if c == '\\' {
            push_char(out, '\\');
            push_char(out, '\\');
        } else if (c as u32) < 32 {
            let v: u32 = c as u32;
            push_char(out, '\\');
            push_char(out, 'u');
            push_char(out, '0');
            push_char(out, '0');
            push_char(out, hex_char_of(v / 16));
            push_char(out, hex_char_of(v % 16));
        } else {
            push_char(out, c);
        }
        proof {
            assert(out@ =~= mid + esc_char(c));
            assert(out@ =~= old(out)@ + json_escaped(pre2));
        }
        i += 1;
    }
    proof {
        assert(s@.subrange(0, n as int) =~= s@);
    }
}

/// The connect-notification payload announcing `d` downstream.
pub fn connect_message(d: &Device<'_>) -> (r: String)
    ensures
        r@ == connect_json(d.device@),
{
    let mut out = String::new();
    out.append("{\"device\":");
    push_char(&mut out, '"');
    push_escaped(&mut out, d.device);
    push_char(&mut out, '"');
    out.append("}");
    proof {
        assert(out@ =~= connect_json(d.device@));
    }
    out
}

/// Append one sample as JSON.
fn push_sensor(out: &mut String, s: &Sensor)
    ensures
        final(out)@ == old(out)@ + sensor_json(s@),
{
    out.append("{\"ts\":");
    push_dec_u128(out, s.ts);
    out.append(",\"values\":{\"temperature\":");
    push_dec_i16(out, s.values.temperature);
    out.append(",\"humidity\":");
    push_dec_i16(out, s.values.humidity);
    out.append(",\"rain_height\":");
    push_dec_i16(out, s.values.rain_height);
    out.append(",\"wind_direction\":");
    push_dec_i16(out, s.values.wind_direction);
    out.append(",\"wind_intensity\":");
    push_dec_i16(out, s.values.wind_intensity);
    out.append("}}");
    proof {
        assert(out@ =~= old(out)@ + sensor_json(s@));
    }
}

/// The telemetry payload carrying every device's latest sample.
pub fn telemetry_message(store: &TelemetryStore) -> (r: String)
    requires
        store.wf(),
    ensures
        r@ == telemetry_json(store@),
{
    let mut out = String::new();
    push_char(&mut out, '{');
    let n = store.len();
    let mut i: usize = 0;
    proof {
        assert(store@.subrange(0, 0) =~= Seq::<EntryModel>::empty());
        assert(out@ =~= seq!['{'] + entries_json(store@.subrange(0, 0)));
    }
    while i < n
        invariant
            0 <= i <= n,
            store.wf(),
            n == store@.len(),
            out@ == seq!['{'] + entries_json(store@.subrange(0, i as int)),
        decreases n - i,
    {
        let ghost pre = store@.subrange(0, i as int);
        let ghost pre2 = store@.subrange(0, i + 1);
        proof {
            assert(pre2.drop_last() =~= pre);
            assert(pre2.last() == store@[i as int]);
        }
        let ghost mid0 = out@;
        if i > 0 {
            push_char(&mut out, ',');
        }
        let ghost mid = out@;
        let name = store.device_at(i);
        push_char(&mut out, '"');
        push_escaped(&mut out, name.as_str());
        push_char(&mut out, '"');
        out.append(":[");
        let sample = store.sample_at(i);
        push_sensor(&mut out, sample);
        out.append("]");
        proof {
            assert(out@ =~= mid + entry_json(store@[i as int]));
            if i == 0 {
                assert(entries_json(pre2) == entry_json(pre2[0]));
                assert(out@ =~= seq!['{'] + entries_json(pre2));
            } else {
                assert(entries_json(pre2) == entries_json(pre) + seq![','] + entry_json(
                    pre2.last(),
                ));
                assert(out@ =~= seq!['{'] + entries_json(pre2));
            }
        }
        i += 1;
    }
    proof {
        assert(store@.subrange(0, n as int) =~= store@);
    }
    push_char(&mut out, '}');
    proof {
        assert(out@ =~= telemetry_json(store@));
    }
    out
}

} // verus!
