//! Outbound protocol frames: the encoded bytes the session writes to a
//! broker link.
//!
//! The wire-level codec is an external collaborator; each encoder here is a
//! thin trusted wrapper around it, and the byte strings it produces are
//! named by uninterpreted spec functions so that callers' contracts can be
//! exact. The caller-facing functions check the preconditions the codec
//! needs and refuse input it would reject.

use vstd::prelude::*;

use mqtt::Encodable;
use vstd::string::StringSliceAdditionalSpecFns;
use vstd::utf8::encode_utf8;

verus! {

/// The byte limit the wire format puts on any single encoded string.
pub const MAX_WIRE_STRING: usize = 65535;

/// The packet identifier every subscribe and publish of this bridge
/// carries.
pub const PACKET_IDENTIFIER: u16 = 10;

/// The view of an optional string.
pub open spec fn opt_view(o: Option<&str>) -> Option<Seq<char>> {
    match o {
        Some(s) => Some(s@),
        None => None,
    }
}

/// Whether an optional string fits the wire format's string length limit.
pub open spec fn opt_fits(o: Option<&str>) -> bool {
    match o {
        Some(s) => s.spec_bytes().len() <= 65535,
        None => true,
    }
}

/// What a topic name must look like: nonempty, within the wire string
/// limit, and free of the wildcard characters.
pub open spec fn valid_topic_name(t: Seq<char>) -> bool {
    &&& t.len() > 0
    &&& encode_utf8(t).len() <= 65535
    &&& forall|i: int| 0 <= i < t.len() ==> (#[trigger] t[i]) != '#' && t[i] != '+'
}

/// The CONNECT frame for a client identifier, optional credentials and the
/// clean-session flag.
pub uninterp spec fn connect_frame_of(
    client_id: Seq<char>,
    user_name: Option<Seq<char>>,
    password: Option<Seq<char>>,
    clean_session: bool,
) -> Seq<u8>;

/// The SUBSCRIBE frame for one topic filter at the lowest delivery level,
/// correlated by a packet identifier.
pub uninterp spec fn subscribe_frame_of(pkid: u16, topic: Seq<char>) -> Seq<u8>;

/// The PUBLISH frame carrying a message on a topic, correlated by a
/// packet identifier.
pub uninterp spec fn publish_frame_of(pkid: u16, topic: Seq<char>, message: Seq<char>) -> Seq<u8>;

/// Relies on `mqtt::packet::ConnectPacket` (`new`, `set_user_name`,
/// `set_password`, `set_clean_session`) and `Encodable::encode`: encoding
/// into a byte vector is a function of the fields alone and cannot fail;
/// the length bounds keep the codec's string encoder from asserting.
#[verifier::external_body]
fn encode_connect_raw(
    client_id: &str,
    user_name: Option<&str>,
    password: Option<&str>,
    clean_session: bool,
) -> (r: Vec<u8>)
    requires
        client_id.spec_bytes().len() <= 65535,
        opt_fits(user_name),
        opt_fits(password),
    ensures
        r@ == connect_frame_of(client_id@, opt_view(user_name), opt_view(password), clean_session),
{
    let mut pk = mqtt::packet::ConnectPacket::new(client_id);
    pk.set_user_name(user_name.map(|s| s.to_string()));
    pk.set_password(password.map(|s| s.to_string()));
    pk.set_clean_session(clean_session);
    let mut buf = Vec::new();
    pk.encode(&mut buf).unwrap();
    buf
}

/// The CONNECT frame, or `None` when a field exceeds the wire string
/// limit.
pub fn connect_frame(
    client_id: &str,
    user_name: Option<&str>,
    password: Option<&str>,
    clean_session: bool,
) -> (r: Option<Vec<u8>>)
    ensures
        r is Some <==> client_id.spec_bytes().len() <= 65535 && opt_fits(user_name) && opt_fits(
            password,
        ),
        r matches Some(b) ==> b@ == connect_frame_of(
            client_id@,
            opt_view(user_name),
            opt_view(password),
            clean_session,
        ),
{
    if client_id.as_bytes().len() > MAX_WIRE_STRING {
        return None;
    }
    if let Some(u) = user_name {
        if u.as_bytes().len() > MAX_WIRE_STRING {
            return None;
        }
    }
    if let Some(p) = password {
        if p.as_bytes().len() > MAX_WIRE_STRING {
            return None;
        }
    }
    Some(encode_connect_raw(client_id, user_name, password, clean_session))
}

/// Relies on `mqtt::TopicFilter::new`, `mqtt::packet::SubscribePacket::new`
/// and `Encodable::encode`: `TopicFilter::new` rejects an empty filter, one
/// over the wire string limit, and misplaced wildcards, and accepts at
/// least every nonempty in-limit filter without wildcard characters;
/// encoding a validated filter is a function of the fields alone and cannot
/// fail.
#[verifier::external_body]
fn encode_subscribe_raw(pkid: u16, topic: &str) -> (r: Option<Vec<u8>>)
    ensures
        r matches Some(b) ==> b@ == subscribe_frame_of(pkid, topic@),
        valid_topic_name(topic@) ==> r is Some,
{
    let filter = match mqtt::TopicFilter::new(topic) {
        Ok(f) => f,
        Err(_) => return None,
    };
    let subs = vec![(filter, mqtt::QualityOfService::Level0)];
    let pk = mqtt::packet::SubscribePacket::new(pkid, subs);
    let mut buf = Vec::new();
    pk.encode(&mut buf).unwrap();
    Some(buf)
}

/// The SUBSCRIBE frame for one topic filter, or `None` when the codec
/// rejects the filter.
pub fn subscribe_frame(pkid: u16, topic: &str) -> (r: Option<Vec<u8>>)
    ensures
        r matches Some(b) ==> b@ == subscribe_frame_of(pkid, topic@),
        valid_topic_name(topic@) ==> r is Some,
{
    encode_subscribe_raw(pkid, topic)
}

/// Relies on `mqtt::TopicName::new`, `mqtt::packet::PublishPacket::new` and
/// `Encodable::encode`: `TopicName::new` accepts exactly the nonempty
/// in-limit names without wildcard characters; encoding a validated packet
/// is a function of the fields alone and cannot fail. The message length
/// bound keeps the encoded length within the wire format's frame limit.
#[verifier::external_body]
fn encode_publish_raw(pkid: u16, topic: &str, message: &str) -> (r: Option<Vec<u8>>)
    requires
        message.spec_bytes().len() < 268435455,
    ensures
        r is Some <==> valid_topic_name(topic@),
        r matches Some(b) ==> b@ == publish_frame_of(pkid, topic@, message@),
{
    let name = match mqtt::TopicName::new(topic) {
        Ok(n) => n,
        Err(_) => return None,
    };
    let pk = mqtt::packet::PublishPacket::new(
        name,
        mqtt::packet::QoSWithPacketIdentifier::Level1(pkid),
        message.to_string(),
    );
    let mut buf = Vec::new();
    pk.encode(&mut buf).unwrap();
    Some(buf)
}

/// The PUBLISH frame carrying `message` on `topic`, or `None` when the
/// topic is invalid or the message exceeds the frame limit.
pub fn publish_frame(pkid: u16, topic: &str, message: &str) -> (r: Option<Vec<u8>>)
    ensures
        r is Some <==> valid_topic_name(topic@) && message.spec_bytes().len() < 268435455,
        r matches Some(b) ==> b@ == publish_frame_of(pkid, topic@, message@),
{
    if message.as_bytes().len() >= 268435455 {
        return None;
    }
    encode_publish_raw(pkid, topic, message)
}

/// Relies on `mqtt::packet::PingreqPacket::new` and `Encodable::encode`:
/// the PINGREQ frame is the fixed header byte for a ping request followed
/// by a zero remaining length.
#[verifier::external_body]
fn encode_pingreq_raw() -> (r: Vec<u8>)
    ensures
        r@ == seq![0xc0u8, 0x00u8],
{
    let pk = mqtt::packet::PingreqPacket::new();
    let mut buf = Vec::new();
    pk.encode(&mut buf).unwrap();
    buf
}

/// The PINGREQ frame the keepalive task emits on every tick.
pub fn pingreq_frame() -> (r: Vec<u8>)
    ensures
        r@ == seq![0xc0u8, 0x00u8],
{
    encode_pingreq_raw()
}

} // verus!
