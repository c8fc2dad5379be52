//! The bridge session's protocol state: connection lifecycle, the
//! subscribe-acknowledgment wait, and the error taxonomy.
//!
//! The I/O loops live outside the crate; they feed decoded frames and link
//! outcomes into the step functions here and perform whatever action the
//! next state calls for. Every transition is pinned by a spec function, so
//! the lifecycle claims — a rejected handshake never reaches `Running`, a
//! mismatched acknowledgment identifier is a protocol violation — are
//! proved, not asserted.

use vstd::prelude::*;

use crate::transform::DecodeError;

verus! {

/// How long, in seconds, between keepalive pings. The policy is one ping
/// per full advertised keepalive interval.
pub const KEEPALIVE_SECS: u64 = 120;

/// Relies on `uuid::Uuid::new_v4` and its `Display` impl: a freshly
/// generated identifier in the hyphenated form, 36 characters. Nothing is
/// assumed about which identifier comes back.
#[verifier::external_body]
pub fn generate_client_id() -> (r: String)
    ensures
        r@.len() == 36,
{
    format!("{}", uuid::Uuid::new_v4())
}

/// A broker's CONNACK answer: accepted, or refused with the broker's
/// return code.
#[derive(Clone, Copy, PartialEq, Eq, Structural, Debug)]
pub enum ConnackCode {
    Accepted,
    Refused(u8),
}

/// Everything that can go wrong in a session, fatal or recoverable.
#[derive(Clone, Copy, PartialEq, Eq, Structural, Debug)]
pub enum BridgeFault {
    /// A stream to a broker could not be opened.
    ConnectionError,
    /// A broker answered CONNECT with a non-accept return code.
    HandshakeRejected(u8),
    /// The broker broke the protocol: a SUBACK carried the wrong
    /// correlation identifier, or a frame arrived that the state admits no
    /// answer to.
    ProtocolViolation,
    /// An inbound frame failed to decode during steady-state receive.
    FrameDecodeError,
    /// An inbound publish carried a payload the transformer rejects.
    PayloadDecodeError(DecodeError),
    /// A read or write on an established link failed, or the stream ended.
    IoError,
}

/// Whether a fault ends the session. Decode failures are skip-and-continue;
/// everything else is fatal.
pub fn is_fatal(f: &BridgeFault) -> (r: bool)
    ensures
        r == !(f matches BridgeFault::FrameDecodeError || f
            matches BridgeFault::PayloadDecodeError(_)),
{
    match f {
        BridgeFault::FrameDecodeError => false,
        BridgeFault::PayloadDecodeError(_) => false,
        _ => true,
    }
}

/// Classify a broker's CONNACK: anything but acceptance is a fatal
/// handshake rejection.
pub fn classify_connack(c: &ConnackCode) -> (r: Result<(), BridgeFault>)
    ensures
        match *c {
            ConnackCode::Accepted => r == Ok::<(), BridgeFault>(()),
            ConnackCode::Refused(code) => r == Err::<(), BridgeFault>(
                BridgeFault::HandshakeRejected(code),
            ),
        },
{
    match c {
        ConnackCode::Accepted => Ok(()),
        ConnackCode::Refused(code) => Err(BridgeFault::HandshakeRejected(*code)),
    }
}

/// The lifecycle of one bridge session.
#[derive(Clone, Copy, PartialEq, Eq, Structural, Debug)]
pub enum SessionState {
    Starting,
    UpstreamReady,
    DownstreamReady,
    Subscribed,
    Running,
    Terminated,
}

/// What the outside loops report to the lifecycle.
#[derive(Clone, Copy, PartialEq, Eq, Structural, Debug)]
pub enum SessionEvent {
    /// The upstream broker answered CONNECT.
    UpstreamConnack(ConnackCode),
    /// The downstream broker answered CONNECT.
    DownstreamConnack(ConnackCode),
    /// A SUBACK with the expected correlation identifier arrived.
    SubackMatched,
    /// A SUBACK with a different correlation identifier arrived.
    SubackMismatched,
    /// The keepalive and receive loops have been started.
    LoopsStarted,
    /// A link failed or its stream ended.
    LinkClosed,
}

/// The lifecycle's transition function. The happy path is
/// `Starting → UpstreamReady → DownstreamReady → Subscribed → Running`;
/// every rejection, violation, link failure or out-of-order event is
/// terminal, and `Terminated` absorbs everything.
pub open spec fn spec_session_step(s: SessionState, e: SessionEvent) -> SessionState {
    match (s, e) {
        (SessionState::Starting, SessionEvent::UpstreamConnack(ConnackCode::Accepted)) => SessionState::UpstreamReady,
        (
            SessionState::UpstreamReady,
            SessionEvent::DownstreamConnack(ConnackCode::Accepted),
        ) => SessionState::DownstreamReady,
        (SessionState::DownstreamReady, SessionEvent::SubackMatched) => SessionState::Subscribed,
        (SessionState::Subscribed, SessionEvent::LoopsStarted) => SessionState::Running,
        _ => SessionState::Terminated,
    }
}

/// The fault a transition reports, if any.
pub open spec fn spec_session_fault(s: SessionState, e: SessionEvent) -> Option<BridgeFault> {
    if spec_session_step(s, e) != SessionState::Terminated {
        None
    } else {
        match e {
            SessionEvent::UpstreamConnack(ConnackCode::Refused(code)) => Some(
                BridgeFault::HandshakeRejected(code),
            ),
            SessionEvent::DownstreamConnack(ConnackCode::Refused(code)) => Some(
                BridgeFault::HandshakeRejected(code),
            ),
            SessionEvent::SubackMismatched => Some(BridgeFault::ProtocolViolation),
            SessionEvent::LinkClosed => Some(BridgeFault::IoError),
            _ => Some(BridgeFault::ProtocolViolation),
        }
    }
}

/// Advance the lifecycle by one event; a terminal transition also reports
/// why.
pub fn session_step(s: SessionState, e: SessionEvent) -> (r: (SessionState, Option<BridgeFault>))
    ensures
        r.0 == spec_session_step(s, e),
        r.1 == spec_session_fault(s, e),
{
    let next = match (s, e) {
        (
            SessionState::Starting,
            SessionEvent::UpstreamConnack(ConnackCode::Accepted),
        ) => SessionState::UpstreamReady,
        (
            SessionState::UpstreamReady,
            SessionEvent::DownstreamConnack(ConnackCode::Accepted),
        ) => SessionState::DownstreamReady,
        (SessionState::DownstreamReady, SessionEvent::SubackMatched) => SessionState::Subscribed,
        (SessionState::Subscribed, SessionEvent::LoopsStarted) => SessionState::Running,
        _ => SessionState::Terminated,
    };
    let fault = if !matches!(next, SessionState::Terminated) {
        None
    } else {
        match e {
            SessionEvent::UpstreamConnack(ConnackCode::Refused(code)) => Some(
                BridgeFault::HandshakeRejected(code),
            ),
            SessionEvent::DownstreamConnack(ConnackCode::Refused(code)) => Some(
                BridgeFault::HandshakeRejected(code),
            ),
            SessionEvent::SubackMismatched => Some(BridgeFault::ProtocolViolation),
            SessionEvent::LinkClosed => Some(BridgeFault::IoError),
            _ => Some(BridgeFault::ProtocolViolation),
        }
    };
    (next, fault)
}

/// The state after a whole event trace.
pub open spec fn spec_run_session(s: SessionState, evs: Seq<SessionEvent>) -> SessionState
    decreases evs.len(),
{
    if evs.len() == 0 {
        s
    } else {
        spec_run_session(spec_session_step(s, evs[0]), evs.drop_first())
    }
}

/// Whether a trace ever has the session in `Running`.
pub open spec fn session_visits_running(s: SessionState, evs: Seq<SessionEvent>) -> bool
    decreases evs.len(),
{
    ||| s == SessionState::Running
    ||| (evs.len() > 0 && session_visits_running(spec_session_step(s, evs[0]), evs.drop_first()))
}

/// `Terminated` is absorbing: no further events revive the session, and in
/// particular it never runs.
pub proof fn lemma_terminated_absorbing(evs: Seq<SessionEvent>)
    ensures
        spec_run_session(SessionState::Terminated, evs) == SessionState::Terminated,
        !session_visits_running(SessionState::Terminated, evs),
    decreases evs.len(),
{
    if evs.len() > 0 {
        lemma_terminated_absorbing(evs.drop_first());
    }
}

/// A broker's non-accept CONNACK during the handshake ends the session at
/// once: it reaches `Terminated` and never enters `Running`, whatever
/// events follow.
pub proof fn lemma_handshake_rejection(
    s: SessionState,
    e: SessionEvent,
    code: u8,
    rest: Seq<SessionEvent>,
)
    requires
        s == SessionState::Starting || s == SessionState::UpstreamReady,
        e == SessionEvent::UpstreamConnack(ConnackCode::Refused(code)) || e
            == SessionEvent::DownstreamConnack(ConnackCode::Refused(code)),
    ensures
        spec_session_step(s, e) == SessionState::Terminated,
        spec_session_fault(s, e) == Some(BridgeFault::HandshakeRejected(code)),
        spec_run_session(spec_session_step(s, e), rest) == SessionState::Terminated,
        !session_visits_running(spec_session_step(s, e), rest),
{
    lemma_terminated_absorbing(rest);
}

/// A decoded inbound frame, as the session reads it.
pub enum Frame {
    /// A connect acknowledgment.
    Connack(ConnackCode),
    /// A subscribe acknowledgment carrying its correlation identifier.
    Suback(u16),
    /// An application message: topic and payload.
    Publish { topic: String, payload: Vec<u8> },
    /// A keepalive answer; logged only.
    Pingresp,
    /// Any other frame the bridge has no use for.
    Other,
}

/// What the receive side saw: a decoded frame, or a frame that failed to
/// decode.
pub enum FrameEvent {
    Decoded(Frame),
    DecodeFailed,
}

/// What one inbound event does to the subscribe wait.
#[derive(Clone, Copy, PartialEq, Eq, Structural, Debug)]
pub enum WaitStep {
    /// Not a SUBACK (or not decodable): keep waiting.
    Continue,
    /// The SUBACK matched the identifier we sent.
    Subscribed,
    /// A SUBACK with a different identifier: fatal protocol violation.
    Violation,
}

/// The wait loop's decision on one inbound event: only a SUBACK decides,
/// and it decides by its correlation identifier; frames that fail to
/// decode are skipped, not fatal.
pub open spec fn spec_wait_step(expected: u16, e: FrameEvent) -> WaitStep {
    match e {
        FrameEvent::Decoded(Frame::Suback(id)) => if id == expected {
            WaitStep::Subscribed
        } else {
            WaitStep::Violation
        },
        _ => WaitStep::Continue,
    }
}

/// Decide one step of the subscribe wait.
pub fn subscribe_wait_step(expected: u16, e: &FrameEvent) -> (r: WaitStep)
    ensures
        r == spec_wait_step(expected, *e),
{
    match e {
        FrameEvent::Decoded(Frame::Suback(id)) => {
            if *id == expected {
                WaitStep::Subscribed
            } else {
                WaitStep::Violation
            }
        },
        _ => WaitStep::Continue,
    }
}

/// The wait's outcome over a whole inbound sequence: `Some(true)` once a
/// matching SUBACK arrives, `Some(false)` on a mismatched one, `None` if
/// none arrived.
pub open spec fn spec_wait_outcome(expected: u16, evs: Seq<FrameEvent>) -> Option<bool>
    decreases evs.len(),
{
    if evs.len() == 0 {
        None
    } else {
        match spec_wait_step(expected, evs[0]) {
            WaitStep::Subscribed => Some(true),
            WaitStep::Violation => Some(false),
            WaitStep::Continue => spec_wait_outcome(expected, evs.drop_first()),
        }
    }
}

/// Run the subscribe wait over a recorded inbound sequence.
pub fn run_subscribe_wait(expected: u16, evs: &Vec<FrameEvent>) -> (r: Option<bool>)
    ensures
        r == spec_wait_outcome(expected, evs@),
{
    let mut i: usize = 0;
    proof {
        assert(evs@.skip(0) =~= evs@);
    }
    while i < evs.len()
        invariant
            0 <= i <= evs@.len(),
            spec_wait_outcome(expected, evs@) == spec_wait_outcome(expected, evs@.skip(i as int)),
        decreases evs@.len() - i,
    {
        let ghost rest = evs@.skip(i as int);
        proof {
            assert(rest[0] == evs@[i as int]);
            assert(rest.drop_first() =~= evs@.skip(i + 1));
        }
        match subscribe_wait_step(expected, &evs[i]) {
            WaitStep::Subscribed => {
                return Some(true);
            },
            WaitStep::Violation => {
                return Some(false);
            },
            WaitStep::Continue => {},
        }
        i += 1;
    }
    proof {
        assert(evs@.skip(evs@.len() as int) =~= Seq::<FrameEvent>::empty());
    }
    None
}

/// Whether an inbound event is a subscribe acknowledgment.
pub open spec fn is_suback(e: FrameEvent) -> bool {
    e matches FrameEvent::Decoded(Frame::Suback(_))
}

/// The identifier a SUBACK event carries.
pub open spec fn suback_id(e: FrameEvent) -> u16
    recommends
        is_suback(e),
{
    match e {
        FrameEvent::Decoded(Frame::Suback(id)) => id,
        _ => 0,
    }
}

/// The first SUBACK alone decides the wait, by its correlation identifier;
/// every inbound event before it — other frames, or frames that failed to
/// decode — is ignored.
pub proof fn lemma_suback_identifier_check(expected: u16, evs: Seq<FrameEvent>, k: int)
    requires
        0 <= k < evs.len(),
        is_suback(evs[k]),
        forall|i: int| 0 <= i < k ==> !is_suback(#[trigger] evs[i]),
    ensures
        spec_wait_outcome(expected, evs) == Some(suback_id(evs[k]) == expected),
    decreases k,
{
    if k == 0 {
    } else {
        assert(!is_suback(evs[0]));
        let rest = evs.drop_first();
        assert(rest[k - 1] == evs[k]);
        assert(forall|i: int| 0 <= i < k - 1 ==> rest[i] == #[trigger] evs[i + 1]);
        lemma_suback_identifier_check(expected, rest, k - 1);
    }
}

} // verus!
