use pulsenet::ping::{
    after_probe, after_resolution, lookup_target, ping_identifier, PingFailure, PingStep,
    ProbeOutcome, Resolution, PING_PAYLOAD_BYTES, PING_TIMEOUT_SECS,
};

#[test]
fn unresolvable_host_is_reported_not_alive() {
    let text = "failed to lookup address information: Name or service not known";
    for _ in 0..3 {
        match after_resolution(Resolution::Failed(text.to_string())) {
            PingStep::Done(r) => {
                assert!(!r.alive);
                assert_eq!(r.time_nanos, None);
                assert_eq!(r.error.as_deref(), Some(text));
                assert!(matches!(r.failure, Some(PingFailure::ResolutionFailed)));
            }
            PingStep::Probe(_) => panic!("a probe is due for a host that did not resolve"),
        }
    }
}

#[test]
fn host_without_address_is_reported_not_alive() {
    match after_resolution(Resolution::Empty) {
        PingStep::Done(r) => {
            assert!(!r.alive);
            assert_eq!(r.time_nanos, None);
            assert_eq!(r.error.as_deref(), Some("Unable to resolve host"));
            assert!(matches!(r.failure, Some(PingFailure::ResolutionFailed)));
        }
        PingStep::Probe(_) => panic!("a probe is due for a host without an address"),
    }
}

#[test]
fn resolved_host_gets_one_echo_of_its_family() {
    for ipv6 in [false, true] {
        match after_resolution(Resolution::Address { ipv6 }) {
            PingStep::Probe(plan) => {
                assert_eq!(plan.ipv6, ipv6);
                assert_eq!(plan.payload_bytes, 32);
                assert_eq!(plan.timeout_secs, 2);
                assert_eq!(plan.sequence, 0);
            }
            PingStep::Done(_) => panic!("no probe is due for a resolved host"),
        }
    }
    assert_eq!(PING_PAYLOAD_BYTES, 32);
    assert_eq!(PING_TIMEOUT_SECS, 2);
}

#[test]
fn reply_is_reported_with_its_time() {
    let r = after_probe(ProbeOutcome::Reply { rtt_nanos: 12_345_678 });
    assert!(r.alive);
    assert_eq!(r.time_nanos, Some(12_345_678));
    assert_eq!(r.error, None);
    assert!(r.failure.is_none());
}

#[test]
fn each_failure_is_reported_with_its_kind() {
    let r = after_probe(ProbeOutcome::TimedOut);
    assert_eq!((r.alive, r.time_nanos, r.error.as_deref()), (false, None, Some("timeout")));
    assert!(matches!(r.failure, Some(PingFailure::Timeout)));
    let r = after_probe(ProbeOutcome::NoReply("Request timeout for icmp_seq 0".to_string()));
    assert_eq!(
        (r.alive, r.time_nanos, r.error.as_deref()),
        (false, None, Some("Request timeout for icmp_seq 0"))
    );
    assert!(matches!(r.failure, Some(PingFailure::Timeout)));
    let r = after_probe(ProbeOutcome::SocketUnavailable("Operation not permitted".to_string()));
    assert_eq!((r.alive, r.time_nanos, r.error.as_deref()), (false, None, Some("Operation not permitted")));
    assert!(matches!(r.failure, Some(PingFailure::SocketUnavailable)));
    let r = after_probe(ProbeOutcome::TransportError("io error".to_string()));
    assert_eq!((r.alive, r.time_nanos, r.error.as_deref()), (false, None, Some("io error")));
    assert!(matches!(r.failure, Some(PingFailure::TransportError)));
}

#[test]
fn failure_codes() {
    assert_eq!(PingFailure::ResolutionFailed.code(), "resolution-failed");
    assert_eq!(PingFailure::SocketUnavailable.code(), "socket-unavailable");
    assert_eq!(PingFailure::Timeout.code(), "timeout");
    assert_eq!(PingFailure::TransportError.code(), "transport-error");
}

#[test]
fn lookup_target_has_port_zero() {
    assert_eq!(lookup_target("example.com"), "example.com:0");
    assert_eq!(lookup_target(""), ":0");
}

#[test]
fn identifier_is_the_low_half_of_the_process_number() {
    assert_eq!(ping_identifier(0), 0);
    assert_eq!(ping_identifier(0x1234), 0x1234);
    assert_eq!(ping_identifier(0x0001_0000), 0);
    assert_eq!(ping_identifier(0xABCD_EF01), 0xEF01);
    assert_eq!(ping_identifier(u32::MAX), 0xFFFF);
}
