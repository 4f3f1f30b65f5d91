//! The speed test: what is measured where, and the figures of the report.
//!
//! Times are taken in whole nanoseconds. Figures are held in hundredths, the
//! precision of the report: a latency of 7.5 ms is the figure 750.

use vstd::prelude::*;
use vstd::string::*;
use crate::geo::{
    document_country, document_ip, extract_ip_country_from_ipwhois, extract_ip_country_from_trace,
    not_available, trace_value,
};
use crate::json::json_document;

verus! {

/// Number of round trips of one latency measurement.
pub const PING_SAMPLES: usize = 5;

/// Size of the payload that the first provider is asked to send.
pub const DOWNLOAD_BYTES: u64 = 10 * 1024 * 1024;

/// Size of the zero-filled payload that is sent upstream.
pub const UPLOAD_BYTES: u64 = 5 * 1024 * 1024;

/// Nanoseconds in a hundredth of a millisecond.
pub const NANOS_PER_CENTI_MS: u64 = 10_000;

/// `a / d`, rounded to the nearest whole number, a half upwards.
pub open spec fn rounded_div(a: nat, d: nat) -> nat
    recommends
        d > 0,
{
    a / d + if 2 * (a % d) >= d {
        1nat
    } else {
        0nat
    }
}

/// Sum of the samples.
pub open spec fn total(samples: Seq<u64>) -> nat
    decreases samples.len(),
{
    if samples.len() == 0 {
        0
    } else {
        total(samples.drop_last()) + samples.last() as nat
    }
}

/// How far two samples are apart.
pub open spec fn distance(a: u64, b: u64) -> nat {
    if a >= b {
        (a - b) as nat
    } else {
        (b - a) as nat
    }
}

/// Sum of the distances between each sample and the one before it.
pub open spec fn spread(samples: Seq<u64>) -> nat
    decreases samples.len(),
{
    if samples.len() <= 1 {
        0
    } else {
        spread(samples.drop_last()) + distance(samples.last(), samples[samples.len() - 2])
    }
}

/// Mean of the samples, which are in nanoseconds, in hundredths of a
/// millisecond. Zero where there is no sample.
pub open spec fn average_centi_ms(samples: Seq<u64>) -> nat {
    if samples.len() == 0 {
        0
    } else {
        rounded_div(total(samples), samples.len() * 10_000)
    }
}

/// Mean distance between consecutive samples, which are in nanoseconds, in
/// hundredths of a millisecond. Zero where there are fewer than two samples.
pub open spec fn jitter_centi_ms(samples: Seq<u64>) -> nat {
    if samples.len() <= 1 {
        0
    } else {
        rounded_div(spread(samples), (samples.len() - 1) as nat * 10_000)
    }
}

/// Megabits per second, in hundredths, of `bytes` bytes in `elapsed_nanos`
/// nanoseconds. Zero where no time passed.
pub open spec fn rate_centi_mbps(bytes: nat, elapsed_nanos: nat) -> nat {
    if elapsed_nanos == 0 {
        0
    } else {
        rounded_div(bytes * 800_000, elapsed_nanos)
    }
}

/// Divides and rounds to the nearest whole number, a half upwards.
pub fn divide_rounded(a: u128, d: u128) -> (r: u128)
    requires
        d > 0,
    ensures
        r == rounded_div(a as nat, d as nat),
{
    if d == 1 {
        return a;
    }
    let q: u128 = a / d;
    let rem: u128 = a % d;
    assert(q <= a / 2) by (nonlinear_arith)
        requires
            q == a / d,
            d >= 2,
    ;
    if rem >= d - rem {
        q + 1
    } else {
        q
    }
}

proof fn lemma_sums_bounded(samples: Seq<u64>)
    ensures
        total(samples) <= samples.len() * u64::MAX,
        spread(samples) <= samples.len() * u64::MAX,
    decreases samples.len(),
{
    if samples.len() > 0 {
        lemma_sums_bounded(samples.drop_last());
        assert((samples.len() - 1) * u64::MAX + u64::MAX == samples.len() * u64::MAX)
            by (nonlinear_arith);
    }
}

/// Average and jitter of a latency measurement.
pub struct LatencyStats {
    pub average_centi_ms: u128,
    pub jitter_centi_ms: u128,
}

/// Average and jitter of the samples of one latency measurement, which are
/// in nanoseconds and in the order in which they were taken.
pub fn latency_stats(samples: &Vec<u64>) -> (r: LatencyStats)
    ensures
        r.average_centi_ms == average_centi_ms(samples@),
        r.jitter_centi_ms == jitter_centi_ms(samples@),
        samples@.len() <= 1 ==> r.jitter_centi_ms == 0,
{
    let n: usize = samples.len();
    if n == 0 {
        return LatencyStats { average_centi_ms: 0, jitter_centi_ms: 0 };
    }
    let mut sum: u128 = 0;
    let mut gaps: u128 = 0;
    let mut i: usize = 0;
    while i < n
        invariant
            i <= n,
            n == samples@.len(),
            sum == total(samples@.take(i as int)),
            gaps == spread(samples@.take(i as int)),
        decreases n - i,
    {
        proof {
            let next = samples@.take(i + 1);
            assert(next.drop_last() =~= samples@.take(i as int));
            lemma_sums_bounded(next);
            assert(next.len() * u64::MAX <= usize::MAX * u64::MAX) by (nonlinear_arith)
                requires
                    next.len() <= usize::MAX,
            ;
        }
        sum = sum + samples[i] as u128;
        if i > 0 {
            let a: u64 = samples[i];
            let b: u64 = samples[i - 1];
            let gap: u64 = if a >= b {
                a - b
            } else {
                b - a
            };
            gaps = gaps + gap as u128;
        }
        i = i + 1;
    }
    assert(samples@.take(n as int) =~= samples@);
    let average = divide_rounded(sum, n as u128 * 10_000);
    let jitter = if n > 1 {
        divide_rounded(gaps, (n - 1) as u128 * 10_000)
    } else {
        0
    };
    LatencyStats { average_centi_ms: average, jitter_centi_ms: jitter }
}

/// What came of one transfer.
pub enum Transfer {
    /// The request failed.
    Failed,
    /// The request was answered: the bytes that arrived with the answer and
    /// the time from the start of the request.
    Completed { bytes: u64, elapsed_nanos: u128 },
}

/// The downstream figure of a transfer: the rate of the bytes that arrived;
/// zero for a transfer that failed.
pub open spec fn download_figure(transfer: Transfer) -> nat {
    match transfer {
        Transfer::Failed => 0,
        Transfer::Completed { bytes, elapsed_nanos } => rate_centi_mbps(
            bytes as nat,
            elapsed_nanos as nat,
        ),
    }
}

/// The upstream figure of a transfer: the rate of the payload that was sent,
/// whatever came back; zero for a transfer that failed.
pub open spec fn upload_figure(transfer: Transfer) -> nat {
    match transfer {
        Transfer::Failed => 0,
        Transfer::Completed { bytes, elapsed_nanos } => rate_centi_mbps(
            UPLOAD_BYTES as nat,
            elapsed_nanos as nat,
        ),
    }
}

/// Megabits per second, in hundredths.
pub fn throughput(bytes: u64, elapsed_nanos: u128) -> (r: u128)
    ensures
        r == rate_centi_mbps(bytes as nat, elapsed_nanos as nat),
{
    if elapsed_nanos == 0 {
        return 0;
    }
    divide_rounded(bytes as u128 * 800_000, elapsed_nanos)
}

/// The downstream figure of a transfer.
pub fn measure_download(transfer: &Transfer) -> (r: u128)
    ensures
        r == download_figure(*transfer),
        transfer is Failed ==> r == 0,
{
    match transfer {
        Transfer::Failed => 0,
        Transfer::Completed { bytes, elapsed_nanos } => throughput(*bytes, *elapsed_nanos),
    }
}

/// The upstream figure of a transfer.
pub fn measure_upload(transfer: &Transfer) -> (r: u128)
    ensures
        r == upload_figure(*transfer),
        transfer is Failed ==> r == 0,
{
    match transfer {
        Transfer::Failed => 0,
        Transfer::Completed { bytes: _, elapsed_nanos } => throughput(UPLOAD_BYTES, *elapsed_nanos),
    }
}

/// The two sets of services that a speed test can run against.
#[derive(Clone, Copy, Debug)]
pub enum Provider {
    /// One edge service for round trips, both transfers and the trace.
    Cloudflare,
    /// A connectivity check for round trips, a file host for the download,
    /// an echo service for the upload and an address service that answers
    /// with a JSON object.
    Hetzner,
}

/// The addresses that one provider is measured at.
pub struct Endpoints {
    pub latency_url: String,
    pub download_url: String,
    pub upload_url: String,
    pub locate_url: String,
}

/// The addresses of a provider.
pub fn endpoints(provider: Provider) -> (r: Endpoints)
    ensures
        match provider {
            Provider::Cloudflare => {
                &&& r.latency_url@ == "https://speed.cloudflare.com/__ping"@
                &&& r.download_url@ == "https://speed.cloudflare.com/__down?bytes=10485760"@
                &&& r.upload_url@ == "https://speed.cloudflare.com/__up"@
                &&& r.locate_url@ == "https://speed.cloudflare.com/cdn-cgi/trace"@
            },
            Provider::Hetzner => {
                &&& r.latency_url@ == "https://www.gstatic.com/generate_204"@
                &&& r.download_url@ == "https://speed.hetzner.de/10MB.bin"@
                &&& r.upload_url@ == "https://httpbin.org/post"@
                &&& r.locate_url@ == "https://ipwho.is/"@
            },
        },
{
    match provider {
        Provider::Cloudflare => Endpoints {
            latency_url: String::from_str("https://speed.cloudflare.com/__ping"),
            download_url: String::from_str("https://speed.cloudflare.com/__down?bytes=10485760"),
            upload_url: String::from_str("https://speed.cloudflare.com/__up"),
            locate_url: String::from_str("https://speed.cloudflare.com/cdn-cgi/trace"),
        },
        Provider::Hetzner => Endpoints {
            latency_url: String::from_str("https://www.gstatic.com/generate_204"),
            download_url: String::from_str("https://speed.hetzner.de/10MB.bin"),
            upload_url: String::from_str("https://httpbin.org/post"),
            locate_url: String::from_str("https://ipwho.is/"),
        },
    }
}

/// The client's address in the answer of a provider's identification
/// service; the placeholder where the request failed.
pub open spec fn located_ip(provider: Provider, answer: Option<String>) -> Seq<char> {
    match answer {
        None => not_available(),
        Some(body) => match provider {
            Provider::Cloudflare => match trace_value(body@, "ip="@) {
                Some(value) => value,
                None => not_available(),
            },
            Provider::Hetzner => document_ip(json_document(body@)),
        },
    }
}

/// The client's country in the answer of a provider's identification
/// service; the placeholder where the request failed.
pub open spec fn located_country(provider: Provider, answer: Option<String>) -> Seq<char> {
    match answer {
        None => not_available(),
        Some(body) => match provider {
            Provider::Cloudflare => match trace_value(body@, "loc="@) {
                Some(value) => value,
                None => not_available(),
            },
            Provider::Hetzner => document_country(json_document(body@)),
        },
    }
}

/// Address and country of the client, from what the provider's
/// identification service answered, if it did.
pub fn locate(provider: Provider, answer: &Option<String>) -> (r: (String, String))
    ensures
        r.0@ == located_ip(provider, *answer),
        r.1@ == located_country(provider, *answer),
{
    match answer {
        None => (String::from_str("N/A"), String::from_str("N/A")),
        Some(body) => match provider {
            Provider::Cloudflare => extract_ip_country_from_trace(body.as_str()),
            Provider::Hetzner => extract_ip_country_from_ipwhois(body.as_str()),
        },
    }
}

/// The report of a speed test. The four figures are in hundredths: of a
/// megabit per second, and of a millisecond.
pub struct SpeedTestReport {
    pub download_centi_mbps: u128,
    pub upload_centi_mbps: u128,
    pub latency_centi_ms: u128,
    pub jitter_centi_ms: u128,
    pub ip: String,
    pub country: String,
    pub error: Option<String>,
}

/// `r` is the report on these measurements: each field holds what its own
/// measurement gave, and none depends on another.
pub open spec fn reports_speed(
    r: SpeedTestReport,
    provider: Provider,
    samples: Seq<u64>,
    download: Transfer,
    upload: Transfer,
    answer: Option<String>,
) -> bool {
    &&& r.download_centi_mbps == download_figure(download)
    &&& r.upload_centi_mbps == upload_figure(upload)
    &&& r.latency_centi_ms == average_centi_ms(samples)
    &&& r.jitter_centi_ms == jitter_centi_ms(samples)
    &&& r.ip@ == located_ip(provider, answer)
    &&& r.country@ == located_country(provider, answer)
    &&& r.error is None
}

/// Puts the report together from the four measurements.
pub fn speed_report(
    provider: Provider,
    samples: &Vec<u64>,
    download: &Transfer,
    upload: &Transfer,
    answer: &Option<String>,
) -> (r: SpeedTestReport)
    ensures
        reports_speed(r, provider, samples@, *download, *upload, *answer),
{
    let latency = latency_stats(samples);
    let (ip, country) = locate(provider, answer);
    SpeedTestReport {
        download_centi_mbps: measure_download(download),
        upload_centi_mbps: measure_upload(upload),
        latency_centi_ms: latency.average_centi_ms,
        jitter_centi_ms: latency.jitter_centi_ms,
        ip,
        country,
        error: None,
    }
}

/// Where every transfer and the identification fail, the report still holds
/// every field: both rates are zero, address and country are the
/// placeholder, and no error is raised.
pub proof fn lemma_report_without_answers(r: SpeedTestReport, provider: Provider, samples: Seq<u64>)
    requires
        reports_speed(r, provider, samples, Transfer::Failed, Transfer::Failed, None),
    ensures
        r.download_centi_mbps == 0,
        r.upload_centi_mbps == 0,
        r.ip@ == "N/A"@,
        r.country@ == "N/A"@,
        r.error is None,
        samples.len() <= 1 ==> r.jitter_centi_ms == 0,
{
}

/// The next thing that a speed test in progress needs done.
#[derive(Clone, Copy, Debug)]
pub enum SpeedAction {
    /// One more timed round trip to the latency address.
    Sample,
    /// The download.
    Download,
    /// The upload of `UPLOAD_BYTES` zero bytes.
    Upload,
    /// The request to the identification service.
    Locate,
    /// Nothing: the report is due.
    Report,
}

/// A speed test in progress. Round trips come first, then the download, the
/// upload and the identification; what has not been measured yet counts as
/// failed.
pub struct SpeedTest {
    pub provider: Provider,
    pub stage: SpeedAction,
    pub samples: Vec<u64>,
    pub download: Transfer,
    pub upload: Transfer,
    pub answer: Option<String>,
}

impl SpeedTest {
    /// Round trips are taken until there are `PING_SAMPLES` of them.
    pub open spec fn wf(self) -> bool {
        if self.stage is Sample {
            self.samples@.len() < PING_SAMPLES
        } else {
            self.samples@.len() == PING_SAMPLES
        }
    }

    /// A test of which nothing was measured yet: the first round trip is due.
    pub fn begin(provider: Provider) -> (r: SpeedTest)
        ensures
            r.wf(),
            r.provider == provider,
            r.stage is Sample,
            r.samples@.len() == 0,
            r.download is Failed,
            r.upload is Failed,
            r.answer is None,
    {
        SpeedTest {
            provider,
            stage: SpeedAction::Sample,
            samples: Vec::new(),
            download: Transfer::Failed,
            upload: Transfer::Failed,
            answer: None,
        }
    }

    /// What is to be done next.
    pub fn next_action(&self) -> (r: SpeedAction)
        ensures
            r == self.stage,
    {
        self.stage
    }

    /// Takes the time of one round trip, whether the request succeeded or
    /// not. After the last one the download is due.
    pub fn record_sample(&mut self, elapsed_nanos: u64)
        requires
            old(self).wf(),
            old(self).stage is Sample,
        ensures
            final(self).wf(),
            final(self).samples@ == old(self).samples@.push(elapsed_nanos),
            final(self).stage is Sample || final(self).stage is Download,
            final(self).stage is Download <==> final(self).samples@.len() == PING_SAMPLES,
            final(self).provider == old(self).provider,
            final(self).download == old(self).download,
            final(self).upload == old(self).upload,
            final(self).answer == old(self).answer,
    {
        self.samples.push(elapsed_nanos);
        if self.samples.len() >= PING_SAMPLES {
            self.stage = SpeedAction::Download;
        }
    }

    /// Takes what came of the download. The upload is due next, also where
    /// the download failed.
    pub fn record_download(&mut self, transfer: Transfer)
        requires
            old(self).wf(),
            old(self).stage is Download,
        ensures
            final(self).wf(),
            final(self).stage is Upload,
            final(self).download == transfer,
            final(self).provider == old(self).provider,
            final(self).samples == old(self).samples,
            final(self).upload == old(self).upload,
            final(self).answer == old(self).answer,
    {
        self.download = transfer;
        self.stage = SpeedAction::Upload;
    }

    /// Takes what came of the upload. The identification is due next, also
    /// where the upload failed.
    pub fn record_upload(&mut self, transfer: Transfer)
        requires
            old(self).wf(),
            old(self).stage is Upload,
        ensures
            final(self).wf(),
            final(self).stage is Locate,
            final(self).upload == transfer,
            final(self).provider == old(self).provider,
            final(self).samples == old(self).samples,
            final(self).download == old(self).download,
            final(self).answer == old(self).answer,
    {
        self.upload = transfer;
        self.stage = SpeedAction::Locate;
    }

    /// Takes the answer of the identification service, or none where the
    /// request failed. The report is due next.
    pub fn record_answer(&mut self, answer: Option<String>)
        requires
            old(self).wf(),
            old(self).stage is Locate,
        ensures
            final(self).wf(),
            final(self).stage is Report,
            final(self).answer == answer,
            final(self).provider == old(self).provider,
            final(self).samples == old(self).samples,
            final(self).download == old(self).download,
            final(self).upload == old(self).upload,
    {
        self.answer = answer;
        self.stage = SpeedAction::Report;
    }

    /// The report on what was measured so far.
    pub fn report(&self) -> (r: SpeedTestReport)
        ensures
            reports_speed(
                r,
                self.provider,
                self.samples@,
                self.download,
                self.upload,
                self.answer,
            ),
    {
        speed_report(self.provider, &self.samples, &self.download, &self.upload, &self.answer)
    }
}

} // verus!
