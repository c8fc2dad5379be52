//! The bridge core: what one session does with each inbound event once
//! both links are up.
//!
//! A decoded publish runs the pipeline: envelope → transformer → device
//! registry → forwarder payloads. The core owns the registry and the
//! telemetry store and hands back the publishes to perform; the caller
//! writes them downstream in order. A payload that fails to decode is
//! reported as a recoverable fault and changes nothing.

use vstd::prelude::*;

use vstd::string::StringExecFns;

use crate::envelope::{envelope_of, parse_envelope};
use crate::forward::{connect_json, connect_message, telemetry_json, telemetry_message};
use crate::registry::DeviceRegistry;
use crate::session::{BridgeFault, Frame, FrameEvent};
use crate::store::{spec_upsert, EntryModel, TelemetryStore};
use crate::telemetry::{Device, Sensor, SensorModel};
use crate::transform::{decode_values, spec_decode_values, DecodeError};

verus! {

/// One publish to perform downstream.
#[derive(Clone, Debug, PartialEq, Eq)]
pub struct OutboundMessage {
    pub topic: String,
    pub body: String,
}

/// The mathematical content of an outbound publish.
pub struct MessageModel {
    pub topic: Seq<char>,
    pub body: Seq<char>,
}

impl View for OutboundMessage {
    type V = MessageModel;

    open spec fn view(&self) -> MessageModel {
        MessageModel { topic: self.topic@, body: self.body@ }
    }
}

/// The views of a batch of outbound publishes.
pub open spec fn msgs_view(ms: Seq<OutboundMessage>) -> Seq<MessageModel> {
    ms.map_values(|m: OutboundMessage| m@)
}

/// The downstream topic announcing newly connected devices.
pub fn connect_topic() -> (r: &'static str)
    ensures
        r@ == "v1/gateway/connect"@,
{
    "v1/gateway/connect"
}

/// The downstream topic carrying telemetry.
pub fn telemetry_topic() -> (r: &'static str)
    ensures
        r@ == "v1/gateway/telemetry"@,
{
    "v1/gateway/telemetry"
}

/// The bridge names each device after the upstream identifier, prefixed.
pub open spec fn station_name(dev: Seq<char>) -> Seq<char> {
    "station_"@ + dev
}

/// Build the bridge's device name for an upstream identifier.
fn make_station_name(dev: &str) -> (r: String)
    ensures
        r@ == station_name(dev@),
{
    let mut s = String::from_str("station_");
    s.append(dev);
    s
}

/// The session state the receive pipeline reads and writes: which devices
/// are announced, and every device's latest sample.
pub struct CoreModel {
    pub devices: Seq<Seq<char>>,
    pub entries: Seq<EntryModel>,
}

/// The receive pipeline's state: the device registry and the telemetry
/// store.
pub struct BridgeCore {
    registry: DeviceRegistry,
    store: TelemetryStore,
}

impl View for BridgeCore {
    type V = CoreModel;

    closed spec fn view(&self) -> CoreModel {
        CoreModel { devices: self.registry@, entries: self.store@ }
    }
}

/// How the core's state moves when a well-formed sample for `name`
/// arrives.
pub open spec fn spec_next(c: CoreModel, name: Seq<char>, sample: SensorModel) -> CoreModel {
    CoreModel {
        devices: if c.devices.contains(name) {
            c.devices
        } else {
            c.devices.push(name)
        },
        entries: spec_upsert(c.entries, name, sample),
    }
}

/// The publishes a well-formed sample for `name` produces: the connect
/// notification first, if and only if the device is new, then the whole
/// telemetry mapping.
pub open spec fn spec_output(c: CoreModel, name: Seq<char>, sample: SensorModel) -> Seq<
    MessageModel,
> {
    let tmsg = MessageModel {
        topic: "v1/gateway/telemetry"@,
        body: telemetry_json(spec_upsert(c.entries, name, sample)),
    };
    if c.devices.contains(name) {
        seq![tmsg]
    } else {
        seq![MessageModel { topic: "v1/gateway/connect"@, body: connect_json(name) }, tmsg]
    }
}

/// Everything one inbound publish payload does to the core: the next
/// state, the publishes to perform, and whether the payload decoded.
pub open spec fn spec_handle_publish(c: CoreModel, payload: Seq<u8>, now: int) -> (
    CoreModel,
    Seq<MessageModel>,
    Result<(), DecodeError>,
) {
    match envelope_of(payload) {
        None => (c, Seq::<MessageModel>::empty(), Err(DecodeError::MissingField)),
        Some((dev, result)) => match spec_decode_values(result) {
            Err(e) => (c, Seq::<MessageModel>::empty(), Err(e)),
            Ok(vals) => {
                let name = station_name(dev);
                let sample = SensorModel { ts: now, values: vals };
                (spec_next(c, name, sample), spec_output(c, name, sample), Ok(()))
            },
        },
    }
}

impl BridgeCore {
    /// The store's internal invariant, maintained across the session.
    pub closed spec fn wf(&self) -> bool {
        self.store.wf()
    }

    /// A fresh core: no device announced, no sample stored.
    pub fn new() -> (r: Self)
        ensures
            r.wf(),
            r@.devices == Seq::<Seq<char>>::empty(),
            r@.entries == Seq::<EntryModel>::empty(),
    {
        BridgeCore { registry: DeviceRegistry::new(), store: TelemetryStore::new() }
    }

    /// Run one inbound publish payload through the pipeline. On success the
    /// returned publishes are performed downstream in order; on a decode
    /// error nothing changes and the message is skipped.
    pub fn handle_publish(&mut self, payload: &[u8], now_ms: u128) -> (r: Result<
        Vec<OutboundMessage>,
        DecodeError,
    >)
        requires
            old(self).wf(),
        ensures
            final(self).wf(),
            final(self)@ == spec_handle_publish(old(self)@, payload@, now_ms as int).0,
            match r {
                Ok(out) => spec_handle_publish(old(self)@, payload@, now_ms as int).2 == Ok::<
                    (),
                    DecodeError,
                >(()) && msgs_view(out@) == spec_handle_publish(
                    old(self)@,
                    payload@,
                    now_ms as int,
                ).1,
                Err(e) => spec_handle_publish(old(self)@, payload@, now_ms as int).2 == Err::<
                    (),
                    DecodeError,
                >(e),
            },
    {
        let env = match parse_envelope(payload) {
            Some(e) => e,
            None => {
                return Err(DecodeError::MissingField);
            },
        };
        let values = match decode_values(env.result.as_str()) {
            Ok(v) => v,
            Err(e) => {
                return Err(e);
            },
        };
        let name = make_station_name(env.device_id.as_str());
        let sample = Sensor::new(now_ms, values);
        let ghost spec_name = station_name(envelope_of(payload@)->Some_0.0);
        let ghost spec_sample = SensorModel { ts: now_ms as int, values: values@ };
        proof {
            assert(name@ == spec_name);
            assert(sample@ == spec_sample);
        }
        let mut out: Vec<OutboundMessage> = Vec::new();
        let newly = self.registry.announce_if_new(&name);
        if newly {
            let d = Device::new(name.as_str());
            let body = connect_message(&d);
            out.push(OutboundMessage { topic: String::from_str(connect_topic()), body });
        }
        self.store.upsert(&name, sample);
        let tbody = telemetry_message(&self.store);
        out.push(OutboundMessage { topic: String::from_str(telemetry_topic()), body: tbody });
        proof {
            assert(msgs_view(out@) =~= spec_output(old(self)@, spec_name, spec_sample));
        }
        Ok(out)
    }

    /// React to one inbound event in the running state: a publish runs the
    /// pipeline, a keepalive answer or unexpected frame does nothing, and a
    /// decode failure is a recoverable fault.
    pub fn handle_event(&mut self, e: &FrameEvent, now_ms: u128) -> (r: (
        Vec<OutboundMessage>,
        Option<BridgeFault>,
    ))
        requires
            old(self).wf(),
        ensures
            final(self).wf(),
            ({
                let (c2, msgs, fault) = spec_handle_event(old(self)@, *e, now_ms as int);
                final(self)@ == c2 && msgs_view(r.0@) == msgs && r.1 == fault
            }),
    {
        match e {
            FrameEvent::DecodeFailed => {
                let out: Vec<OutboundMessage> = Vec::new();
                proof {
                    assert(msgs_view(out@) =~= Seq::<MessageModel>::empty());
                }
                (out, Some(BridgeFault::FrameDecodeError))
            },
            FrameEvent::Decoded(Frame::Publish { topic: _, payload }) => {
                match self.handle_publish(payload.as_slice(), now_ms) {
                    Ok(out) => (out, None),
                    Err(err) => {
                        let out: Vec<OutboundMessage> = Vec::new();
                        proof {
                            assert(msgs_view(out@) =~= Seq::<MessageModel>::empty());
                        }
                        (out, Some(BridgeFault::PayloadDecodeError(err)))
                    },
                }
            },
            _ => {
                let out: Vec<OutboundMessage> = Vec::new();
                proof {
                    assert(msgs_view(out@) =~= Seq::<MessageModel>::empty());
                }
                (out, None)
            },
        }
    }
}

/// Everything one inbound event does to the core.
pub open spec fn spec_handle_event(c: CoreModel, e: FrameEvent, now: int) -> (
    CoreModel,
    Seq<MessageModel>,
    Option<BridgeFault>,
) {
    match e {
        FrameEvent::DecodeFailed => (
            c,
            Seq::<MessageModel>::empty(),
            Some(BridgeFault::FrameDecodeError),
        ),
        FrameEvent::Decoded(Frame::Publish { topic: _, payload }) => {
            let (c2, msgs, status) = spec_handle_publish(c, payload@, now);
            match status {
                Ok(_) => (c2, msgs, None),
                Err(e2) => (
                    c,
                    Seq::<MessageModel>::empty(),
                    Some(BridgeFault::PayloadDecodeError(e2)),
                ),
            }
        },
        _ => (c, Seq::<MessageModel>::empty(), None),
    }
}

/// The core's state and accumulated output after a whole inbound sequence,
/// each event paired with its arrival time.
pub open spec fn spec_run_events(c: CoreModel, evs: Seq<(FrameEvent, int)>) -> (
    CoreModel,
    Seq<MessageModel>,
)
    decreases evs.len(),
{
    if evs.len() == 0 {
        (c, Seq::<MessageModel>::empty())
    } else {
        let first = spec_handle_event(c, evs[0].0, evs[0].1);
        let rest = spec_run_events(first.0, evs.drop_first());
        (rest.0, first.1 + rest.1)
    }
}

/// Running a concatenated sequence is running its parts in order.
pub proof fn lemma_run_events_append(c: CoreModel, a: Seq<(FrameEvent, int)>, b: Seq<
    (FrameEvent, int),
>)
    ensures
        spec_run_events(c, a + b).0 == spec_run_events(spec_run_events(c, a).0, b).0,
        spec_run_events(c, a + b).1 == spec_run_events(c, a).1 + spec_run_events(
            spec_run_events(c, a).0,
            b,
        ).1,
    decreases a.len(),
{
    if a.len() == 0 {
        assert(a + b =~= b);
        assert(spec_run_events(c, a).1 + spec_run_events(c, b).1 =~= spec_run_events(c, b).1);
    } else {
        assert((a + b)[0] == a[0]);
        assert((a + b).drop_first() =~= a.drop_first() + b);
        let c1 = spec_handle_event(c, a[0].0, a[0].1).0;
        let out0 = spec_handle_event(c, a[0].0, a[0].1).1;
        lemma_run_events_append(c1, a.drop_first(), b);
        assert(out0 + (spec_run_events(c1, a.drop_first()).1 + spec_run_events(
            spec_run_events(c1, a.drop_first()).0,
            b,
        ).1) =~= (out0 + spec_run_events(c1, a.drop_first()).1) + spec_run_events(
            spec_run_events(c1, a.drop_first()).0,
            b,
        ).1);
    }
}

/// Whether a payload decodes end to end: the envelope is in place and the
/// decoded string parses into readings.
pub open spec fn well_formed_payload(p: Seq<u8>) -> bool {
    &&& envelope_of(p) is Some
    &&& spec_decode_values(envelope_of(p)->Some_0.1) is Ok
}

/// An inbound event the running core skips without touching its state: a
/// frame that failed to decode, a publish whose payload does not decode,
/// or a frame the pipeline has no use for.
pub open spec fn skipped_event(e: FrameEvent) -> bool {
    match e {
        FrameEvent::DecodeFailed => true,
        FrameEvent::Decoded(Frame::Publish { topic: _, payload }) => !well_formed_payload(
            payload@,
        ),
        _ => true,
    }
}

/// A skipped event leaves the state as it was and produces no publish.
pub proof fn lemma_skipped_identity(c: CoreModel, e: FrameEvent, now: int)
    requires
        skipped_event(e),
    ensures
        spec_handle_event(c, e, now).0 == c,
        spec_handle_event(c, e, now).1 == Seq::<MessageModel>::empty(),
{
}

/// A malformed message between well-formed ones must not disturb them: the
/// run with the skipped event dropped reaches the same state and produces
/// the same publishes.
pub proof fn lemma_decode_error_isolated(
    c: CoreModel,
    before: Seq<(FrameEvent, int)>,
    bad: (FrameEvent, int),
    after: Seq<(FrameEvent, int)>,
)
    requires
        skipped_event(bad.0),
    ensures
        spec_run_events(c, before + seq![bad] + after).0 == spec_run_events(c, before + after).0,
        spec_run_events(c, before + seq![bad] + after).1 == spec_run_events(c, before + after).1,
{
    let mid = seq![bad] + after;
    assert(before + seq![bad] + after =~= before + mid);
    let c1 = spec_run_events(c, before).0;
    let out1 = spec_run_events(c, before).1;
    lemma_run_events_append(c, before, mid);
    // One step on the skipped event, then the tail.
    assert(mid[0] == bad);
    assert(mid.drop_first() =~= after);
    lemma_skipped_identity(c1, bad.0, bad.1);
    assert(spec_run_events(c1, mid).0 == spec_run_events(c1, after).0);
    assert(spec_run_events(c1, mid).1 =~= spec_run_events(c1, after).1) by {
        assert(spec_run_events(c1, mid).1 == spec_handle_event(c1, bad.0, bad.1).1
            + spec_run_events(c1, after).1);
        assert(Seq::<MessageModel>::empty() + spec_run_events(c1, after).1 =~= spec_run_events(
            c1,
            after,
        ).1);
    }
    lemma_run_events_append(c, before, after);
}

/// The number of connect notifications in a batch of publishes.
pub open spec fn connect_count(ms: Seq<MessageModel>) -> int
    decreases ms.len(),
{
    if ms.len() == 0 {
        0
    } else {
        (if ms[0].topic == "v1/gateway/connect"@ {
            1int
        } else {
            0int
        }) + connect_count(ms.drop_first())
    }
}

proof fn lemma_connect_count_append(a: Seq<MessageModel>, b: Seq<MessageModel>)
    ensures
        connect_count(a + b) == connect_count(a) + connect_count(b),
    decreases a.len(),
{
    if a.len() == 0 {
        assert(a + b =~= b);
    } else {
        assert((a + b)[0] == a[0]);
        assert((a + b).drop_first() =~= a.drop_first() + b);
        lemma_connect_count_append(a.drop_first(), b);
    }
}

/// No device name repeats in the announced set.
pub open spec fn distinct_devices(ds: Seq<Seq<char>>) -> bool {
    forall|i: int, j: int| 0 <= i < j < ds.len() ==> (#[trigger] ds[i]) != (#[trigger] ds[j])
}

/// One event emits exactly as many connect notifications as it announces
/// new devices — one or none — and never forgets or repeats a device.
proof fn lemma_step_connect_count(c: CoreModel, e: FrameEvent, now: int)
    ensures
        spec_handle_event(c, e, now).0.devices.len() >= c.devices.len(),
        connect_count(spec_handle_event(c, e, now).1) == spec_handle_event(
            c,
            e,
            now,
        ).0.devices.len() - c.devices.len(),
        distinct_devices(c.devices) ==> distinct_devices(spec_handle_event(c, e, now).0.devices),
{
    reveal_with_fuel(connect_count, 4);
    reveal_strlit("v1/gateway/connect");
    reveal_strlit("v1/gateway/telemetry");
    assert(("v1/gateway/connect"@).len() == 18);
    assert(("v1/gateway/telemetry"@).len() == 20);
    let stepped = spec_handle_event(c, e, now);
    match e {
        FrameEvent::Decoded(Frame::Publish { topic: _, payload }) => {
            if well_formed_payload(payload@) {
                let dev = envelope_of(payload@)->Some_0.0;
                let name = station_name(dev);
                let out = stepped.1;
                if c.devices.contains(name) {
                    assert(out.len() == 1);
                    assert(out[0].topic != "v1/gateway/connect"@);
                    assert(out.drop_first() =~= Seq::<MessageModel>::empty());
                    assert(connect_count(out) == 0);
                    assert(stepped.0.devices == c.devices);
                } else {
                    assert(out.len() == 2);
                    assert(out[0].topic == "v1/gateway/connect"@);
                    assert(out.drop_first()[0].topic == "v1/gateway/telemetry"@);
                    assert(out.drop_first().drop_first() =~= Seq::<MessageModel>::empty());
                    assert(connect_count(out) == 1);
                    assert(stepped.0.devices == c.devices.push(name));
                    if distinct_devices(c.devices) {
                        assert(distinct_devices(stepped.0.devices)) by {
                            assert(forall|i: int|
                                0 <= i < c.devices.len() ==> (#[trigger] stepped.0.devices[i])
                                    == c.devices[i]);
                            assert(stepped.0.devices[c.devices.len() as int] == name);
                            assert(forall|i: int|
                                0 <= i < c.devices.len() ==> (#[trigger] c.devices[i]) != name);
                        }
                    }
                }
            } else {
                assert(connect_count(stepped.1) == 0);
            }
        },
        _ => {
            assert(connect_count(stepped.1) == 0);
        },
    }
}

/// Over any inbound trace, however devices interleave, the bridge forwards
/// exactly one connect notification per newly announced device — the
/// growth of the announced set — and the announced set never holds a
/// device twice.
pub proof fn lemma_connects_match_new_devices(c: CoreModel, evs: Seq<(FrameEvent, int)>)
    ensures
        spec_run_events(c, evs).0.devices.len() >= c.devices.len(),
        connect_count(spec_run_events(c, evs).1) == spec_run_events(c, evs).0.devices.len()
            - c.devices.len(),
        distinct_devices(c.devices) ==> distinct_devices(spec_run_events(c, evs).0.devices),
    decreases evs.len(),
{
    if evs.len() == 0 {
        assert(connect_count(Seq::<MessageModel>::empty()) == 0);
    } else {
        let stepped = spec_handle_event(c, evs[0].0, evs[0].1);
        lemma_step_connect_count(c, evs[0].0, evs[0].1);
        lemma_connects_match_new_devices(stepped.0, evs.drop_first());
        lemma_connect_count_append(stepped.1, spec_run_events(stepped.0, evs.drop_first()).1);
    }
}

/// An inbound event that is a well-formed publish whose envelope names the
/// upstream device `dev`.
pub open spec fn event_for_device(e: FrameEvent, dev: Seq<char>) -> bool {
    match e {
        FrameEvent::Decoded(Frame::Publish { topic: _, payload }) => well_formed_payload(payload@)
            && envelope_of(payload@)->Some_0.0 == dev,
        _ => false,
    }
}

/// Once a device is announced, further messages for it produce exactly one
/// telemetry publish each, never another connect, and the announced set
/// keeps the device.
proof fn lemma_known_device_run(c: CoreModel, evs: Seq<(FrameEvent, int)>, dev: Seq<char>)
    requires
        c.devices.contains(station_name(dev)),
        forall|i: int| 0 <= i < evs.len() ==> event_for_device((#[trigger] evs[i]).0, dev),
    ensures
        spec_run_events(c, evs).0.devices == c.devices,
        spec_run_events(c, evs).1.len() == evs.len(),
        forall|j: int|
            0 <= j < evs.len() ==> (#[trigger] spec_run_events(c, evs).1[j]).topic
                == "v1/gateway/telemetry"@,
    decreases evs.len(),
{
    if evs.len() > 0 {
        assert(event_for_device(evs[0].0, dev));
        let first = spec_handle_event(c, evs[0].0, evs[0].1);
        assert(first.0.devices == c.devices);
        assert(first.1.len() == 1);
        assert(first.1[0].topic == "v1/gateway/telemetry"@);
        let rest = evs.drop_first();
        assert(forall|i: int| 0 <= i < rest.len() ==> rest[i] == #[trigger] evs[i + 1]);
        lemma_known_device_run(first.0, rest, dev);
    }
}

/// For any run of messages all naming the same fresh device, exactly one
/// connect notification goes downstream — the very first publish — and
/// every other publish is telemetry: the announcement happens at most once
/// and strictly before the device's telemetry.
pub proof fn lemma_at_most_once_connect(c: CoreModel, evs: Seq<(FrameEvent, int)>, dev: Seq<char>)
    requires
        evs.len() >= 1,
        forall|i: int| 0 <= i < evs.len() ==> event_for_device((#[trigger] evs[i]).0, dev),
        !c.devices.contains(station_name(dev)),
    ensures
        spec_run_events(c, evs).1.len() == evs.len() + 1,
        spec_run_events(c, evs).1[0].topic == "v1/gateway/connect"@,
        spec_run_events(c, evs).1[0].body == connect_json(station_name(dev)),
        forall|j: int|
            1 <= j < evs.len() + 1 ==> (#[trigger] spec_run_events(c, evs).1[j]).topic
                == "v1/gateway/telemetry"@,
{
    assert(event_for_device(evs[0].0, dev));
    let name = station_name(dev);
    let first = spec_handle_event(c, evs[0].0, evs[0].1);
    assert(first.1.len() == 2);
    assert(first.1[0].topic == "v1/gateway/connect"@);
    assert(first.1[0].body == connect_json(name));
    assert(first.1[1].topic == "v1/gateway/telemetry"@);
    assert(first.0.devices == c.devices.push(name));
    assert(first.0.devices.contains(name)) by {
        assert(first.0.devices[c.devices.len() as int] == name);
    }
    let rest = evs.drop_first();
    assert(forall|i: int| 0 <= i < rest.len() ==> rest[i] == #[trigger] evs[i + 1]);
    lemma_known_device_run(first.0, rest, dev);
    let out = spec_run_events(c, evs).1;
    assert(out == first.1 + spec_run_events(first.0, rest).1);
    assert(forall|j: int|
        1 <= j < evs.len() + 1 ==> (#[trigger] out[j]).topic == "v1/gateway/telemetry"@) by {
        assert(out[1] == first.1[1]);
        assert(forall|j: int|
            2 <= j < evs.len() + 1 ==> (#[trigger] out[j]) == spec_run_events(first.0, rest).1[j
                - 2]);
    }
}

} // verus!
