//! The session lifecycle and the subscribe wait on concrete traces.

use rusty_mqtt::session::{
    classify_connack, generate_client_id, is_fatal, run_subscribe_wait, session_step,
    subscribe_wait_step, BridgeFault, ConnackCode, Frame, FrameEvent, SessionEvent, SessionState,
    WaitStep, KEEPALIVE_SECS,
};
use rusty_mqtt::transform::DecodeError;

#[test]
fn happy_path_reaches_running() {
    let (s, f) = session_step(
        SessionState::Starting,
        SessionEvent::UpstreamConnack(ConnackCode::Accepted),
    );
    assert_eq!((s, f), (SessionState::UpstreamReady, None));
    let (s, f) = session_step(s, SessionEvent::DownstreamConnack(ConnackCode::Accepted));
    assert_eq!((s, f), (SessionState::DownstreamReady, None));
    let (s, f) = session_step(s, SessionEvent::SubackMatched);
    assert_eq!((s, f), (SessionState::Subscribed, None));
    let (s, f) = session_step(s, SessionEvent::LoopsStarted);
    assert_eq!((s, f), (SessionState::Running, None));
    let (s, f) = session_step(s, SessionEvent::LinkClosed);
    assert_eq!((s, f), (SessionState::Terminated, Some(BridgeFault::IoError)));
}

#[test]
fn upstream_rejection_terminates_before_running() {
    let (s, f) = session_step(
        SessionState::Starting,
        SessionEvent::UpstreamConnack(ConnackCode::Refused(5)),
    );
    assert_eq!(s, SessionState::Terminated);
    assert_eq!(f, Some(BridgeFault::HandshakeRejected(5)));
    // Terminated absorbs whatever comes later; the session never runs.
    let (s, _) = session_step(s, SessionEvent::SubackMatched);
    assert_eq!(s, SessionState::Terminated);
    let (s, _) = session_step(s, SessionEvent::LoopsStarted);
    assert_eq!(s, SessionState::Terminated);
}

#[test]
fn downstream_rejection_terminates_before_running() {
    let (s, f) = session_step(
        SessionState::UpstreamReady,
        SessionEvent::DownstreamConnack(ConnackCode::Refused(4)),
    );
    assert_eq!(s, SessionState::Terminated);
    assert_eq!(f, Some(BridgeFault::HandshakeRejected(4)));
}

#[test]
fn mismatched_suback_is_a_protocol_violation() {
    let (s, f) = session_step(SessionState::DownstreamReady, SessionEvent::SubackMismatched);
    assert_eq!(s, SessionState::Terminated);
    assert_eq!(f, Some(BridgeFault::ProtocolViolation));
}

#[test]
fn subscribe_wait_skips_unrelated_frames() {
    // Frames other than SUBACK, and frames that fail to decode, are
    // ignored while waiting; only the SUBACK decides, by its identifier.
    let evs = vec![
        FrameEvent::Decoded(Frame::Pingresp),
        FrameEvent::DecodeFailed,
        FrameEvent::Decoded(Frame::Other),
        FrameEvent::Decoded(Frame::Suback(10)),
        FrameEvent::Decoded(Frame::Suback(99)),
    ];
    assert_eq!(run_subscribe_wait(10, &evs), Some(true));
}

#[test]
fn subscribe_wait_flags_wrong_identifier() {
    let evs = vec![
        FrameEvent::DecodeFailed,
        FrameEvent::Decoded(Frame::Suback(11)),
        FrameEvent::Decoded(Frame::Suback(10)),
    ];
    assert_eq!(run_subscribe_wait(10, &evs), Some(false));
}

#[test]
fn subscribe_wait_without_suback_keeps_waiting() {
    let evs = vec![FrameEvent::Decoded(Frame::Pingresp), FrameEvent::DecodeFailed];
    assert_eq!(run_subscribe_wait(10, &evs), None);
    assert_eq!(run_subscribe_wait(10, &Vec::new()), None);
}

#[test]
fn wait_step_classifies_each_event() {
    assert_eq!(subscribe_wait_step(10, &FrameEvent::Decoded(Frame::Suback(10))), WaitStep::Subscribed);
    assert_eq!(subscribe_wait_step(10, &FrameEvent::Decoded(Frame::Suback(3))), WaitStep::Violation);
    assert_eq!(subscribe_wait_step(10, &FrameEvent::DecodeFailed), WaitStep::Continue);
    assert_eq!(
        subscribe_wait_step(
            10,
            &FrameEvent::Decoded(Frame::Publish { topic: "t".to_string(), payload: vec![1] })
        ),
        WaitStep::Continue
    );
}

#[test]
fn connack_classification() {
    assert_eq!(classify_connack(&ConnackCode::Accepted), Ok(()));
    assert_eq!(
        classify_connack(&ConnackCode::Refused(2)),
        Err(BridgeFault::HandshakeRejected(2))
    );
}

#[test]
fn fatality_follows_the_taxonomy() {
    assert!(is_fatal(&BridgeFault::ConnectionError));
    assert!(is_fatal(&BridgeFault::HandshakeRejected(1)));
    assert!(is_fatal(&BridgeFault::ProtocolViolation));
    assert!(is_fatal(&BridgeFault::IoError));
    assert!(!is_fatal(&BridgeFault::FrameDecodeError));
    assert!(!is_fatal(&BridgeFault::PayloadDecodeError(DecodeError::MissingField)));
}

#[test]
fn client_ids_are_fresh_and_hyphenated() {
    let a = generate_client_id();
    let b = generate_client_id();
    assert_eq!(a.chars().count(), 36);
    assert_eq!(a.chars().filter(|c| *c == '-').count(), 4);
    assert_ne!(a, b);
}

#[test]
fn keepalive_policy_is_the_full_interval() {
    assert_eq!(KEEPALIVE_SECS, 120);
}
