//! The ping: one echo request to a host, and what is reported of it.
//!
//! The caller resolves the host and sends the echo. The library says what to
//! do after the resolution and what to report after the probe.

use vstd::prelude::*;
use vstd::string::*;

verus! {

/// Size of the payload of the echo request.
pub const PING_PAYLOAD_BYTES: usize = 32;

/// Bound on the wait for the reply, in seconds.
pub const PING_TIMEOUT_SECS: u64 = 2;

/// Why a ping failed.
#[derive(Clone, Copy, Debug)]
pub enum PingFailure {
    ResolutionFailed,
    SocketUnavailable,
    Timeout,
    TransportError,
}

/// What a ping reports: a reply with its round-trip time in nanoseconds, or
/// a failure with its kind and text.
pub struct PingResponse {
    pub alive: bool,
    pub time_nanos: Option<u128>,
    pub error: Option<String>,
    pub failure: Option<PingFailure>,
}

impl PingResponse {
    /// Either the host answered and the time is known, or it did not and
    /// the error says why.
    pub open spec fn wf(self) -> bool {
        if self.alive {
            self.time_nanos is Some && self.error is None && self.failure is None
        } else {
            self.time_nanos is None && self.error is Some && self.failure is Some
        }
    }
}

/// What came of resolving the host.
pub enum Resolution {
    /// The lookup reported an error, with its text.
    Failed(String),
    /// The lookup returned no address.
    Empty,
    /// The first address that the lookup returned, by its family.
    Address { ipv6: bool },
}

/// The echo request to send.
pub struct ProbePlan {
    /// Whether the echo goes out as ICMPv6, to match the address.
    pub ipv6: bool,
    pub payload_bytes: usize,
    pub timeout_secs: u64,
    pub sequence: u16,
}

/// What to do once the host was resolved.
pub enum PingStep {
    Probe(ProbePlan),
    Done(PingResponse),
}

/// What came of the echo request.
pub enum ProbeOutcome {
    /// The reply came, after this many nanoseconds.
    Reply { rtt_nanos: u128 },
    /// No socket for the echo could be opened, with the error's text.
    SocketUnavailable(String),
    /// Sending or receiving failed, with the error's text.
    TransportError(String),
    /// The probe gave up waiting for the reply, with the error's text.
    NoReply(String),
    /// The bound on the whole probe ran out first.
    TimedOut,
}

/// `r` reports a failure of kind `failure` with the text `text`.
pub open spec fn reports_failure(r: PingResponse, failure: PingFailure, text: Seq<char>) -> bool {
    &&& !r.alive
    &&& r.time_nanos is None
    &&& r.error matches Some(e) && e@ == text
    &&& r.failure == Some(failure)
}

/// The code of a kind of failure.
pub open spec fn failure_code(failure: PingFailure) -> Seq<char> {
    match failure {
        PingFailure::ResolutionFailed => "resolution-failed"@,
        PingFailure::SocketUnavailable => "socket-unavailable"@,
        PingFailure::Timeout => "timeout"@,
        PingFailure::TransportError => "transport-error"@,
    }
}

impl PingFailure {
    /// The code under which this kind of failure is known.
    pub fn code(&self) -> (r: String)
        ensures
            r@ == failure_code(*self),
    {
        match self {
            PingFailure::ResolutionFailed => String::from_str("resolution-failed"),
            PingFailure::SocketUnavailable => String::from_str("socket-unavailable"),
            PingFailure::Timeout => String::from_str("timeout"),
            PingFailure::TransportError => String::from_str("transport-error"),
        }
    }
}

fn failed(failure: PingFailure, text: String) -> (r: PingResponse)
    ensures
        reports_failure(r, failure, text@),
        r.wf(),
{
    PingResponse { alive: false, time_nanos: None, error: Some(text), failure: Some(failure) }
}

/// What is handed to the lookup: the host with the port `0`.
pub fn lookup_target(host: &str) -> (r: String)
    ensures
        r@ == host@ + ":0"@,
{
    String::from_str(host).concat(":0")
}

/// The identifier of the echo request: the low sixteen bits of the number
/// of the process.
pub fn ping_identifier(process_id: u32) -> (r: u16)
    ensures
        r == process_id % 0x1_0000,
{
    assert(process_id & 0xffff == process_id % 0x1_0000) by (bit_vector);
    (process_id & 0xffff) as u16
}

/// Decides what follows the resolution of the host. A host that did not
/// resolve is reported as not alive, with an error and without a time, and
/// nothing is sent. For an address, one echo request of the address's family
/// is due.
pub fn after_resolution(resolution: Resolution) -> (r: PingStep)
    ensures
        match resolution {
            Resolution::Failed(text) => r matches PingStep::Done(response) && reports_failure(
                response,
                PingFailure::ResolutionFailed,
                text@,
            ),
            Resolution::Empty => r matches PingStep::Done(response) && reports_failure(
                response,
                PingFailure::ResolutionFailed,
                "Unable to resolve host"@,
            ),
            Resolution::Address { ipv6 } => r matches PingStep::Probe(plan) && plan.ipv6 == ipv6
                && plan.payload_bytes == PING_PAYLOAD_BYTES && plan.timeout_secs
                == PING_TIMEOUT_SECS && plan.sequence == 0,
        },
        r matches PingStep::Done(response) ==> response.wf(),
{
    match resolution {
        Resolution::Failed(text) => PingStep::Done(failed(PingFailure::ResolutionFailed, text)),
        Resolution::Empty => PingStep::Done(
            failed(PingFailure::ResolutionFailed, String::from_str("Unable to resolve host")),
        ),
        Resolution::Address { ipv6 } => PingStep::Probe(
            ProbePlan {
                ipv6,
                payload_bytes: PING_PAYLOAD_BYTES,
                timeout_secs: PING_TIMEOUT_SECS,
                sequence: 0,
            },
        ),
    }
}

/// What is reported after the echo request: the round-trip time of a reply,
/// or the failure.
pub fn after_probe(outcome: ProbeOutcome) -> (r: PingResponse)
    ensures
        r.wf(),
        match outcome {
            ProbeOutcome::Reply { rtt_nanos } => r.alive && r.time_nanos == Some(rtt_nanos),
            ProbeOutcome::SocketUnavailable(text) => reports_failure(
                r,
                PingFailure::SocketUnavailable,
                text@,
            ),
            ProbeOutcome::TransportError(text) => reports_failure(
                r,
                PingFailure::TransportError,
                text@,
            ),
            ProbeOutcome::NoReply(text) => reports_failure(r, PingFailure::Timeout, text@),
            ProbeOutcome::TimedOut => reports_failure(r, PingFailure::Timeout, "timeout"@),
        },
{
    match outcome {
        ProbeOutcome::Reply { rtt_nanos } => PingResponse {
            alive: true,
            time_nanos: Some(rtt_nanos),
            error: None,
            failure: None,
        },
        ProbeOutcome::SocketUnavailable(text) => failed(PingFailure::SocketUnavailable, text),
        ProbeOutcome::TransportError(text) => failed(PingFailure::TransportError, text),
        ProbeOutcome::NoReply(text) => failed(PingFailure::Timeout, text),
        ProbeOutcome::TimedOut => failed(PingFailure::Timeout, String::from_str("timeout")),
    }
}

} // verus!
