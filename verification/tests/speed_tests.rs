use pulsenet::speed::{
    divide_rounded, endpoints, latency_stats, locate, measure_download, measure_upload,
    speed_report, throughput, Provider, SpeedAction, SpeedTest, Transfer, DOWNLOAD_BYTES,
    PING_SAMPLES, UPLOAD_BYTES,
};

const MS: u64 = 1_000_000;

#[test]
fn jitter_of_one_sample_is_zero() {
    let stats = latency_stats(&vec![10 * MS]);
    assert_eq!(stats.jitter_centi_ms, 0);
    assert_eq!(stats.average_centi_ms, 1000);
}

#[test]
fn jitter_of_no_sample_is_zero() {
    let stats = latency_stats(&vec![]);
    assert_eq!(stats.jitter_centi_ms, 0);
    assert_eq!(stats.average_centi_ms, 0);
}

#[test]
fn jitter_is_the_mean_distance_of_neighbours() {
    let stats = latency_stats(&vec![10 * MS, 20 * MS, 15 * MS]);
    assert_eq!(stats.jitter_centi_ms, 750);
    assert_eq!(stats.average_centi_ms, 1500);
}

#[test]
fn average_is_rounded_to_hundredths() {
    // 10 ms, 10 ms, 11 ms: mean 10.333.. ms
    let stats = latency_stats(&vec![10 * MS, 10 * MS, 11 * MS]);
    assert_eq!(stats.average_centi_ms, 1033);
    // distances 0 and 1 ms: mean 0.5 ms
    assert_eq!(stats.jitter_centi_ms, 50);
    // 12.345 ms is halfway between 12.34 and 12.35 and goes up
    assert_eq!(latency_stats(&vec![12_345_000]).average_centi_ms, 1235);
    assert_eq!(latency_stats(&vec![12_344_999]).average_centi_ms, 1234);
}

#[test]
fn five_samples_as_a_run_takes_them() {
    let samples = vec![20 * MS, 24 * MS, 22 * MS, 30 * MS, 21 * MS];
    assert_eq!(samples.len(), PING_SAMPLES);
    let stats = latency_stats(&samples);
    // mean 23.4 ms; distances 4, 2, 8, 9: mean 5.75 ms
    assert_eq!(stats.average_centi_ms, 2340);
    assert_eq!(stats.jitter_centi_ms, 575);
}

#[test]
fn largest_samples_do_not_overflow() {
    let stats = latency_stats(&vec![u64::MAX, 0, u64::MAX]);
    assert_eq!(stats.jitter_centi_ms, (u64::MAX as u128 + 5_000) / 10_000);
    assert_eq!(stats.average_centi_ms, (2 * (u64::MAX as u128) + 15_000) / 30_000);
}

#[test]
fn division_rounds_half_up() {
    assert_eq!(divide_rounded(7, 2), 4);
    assert_eq!(divide_rounded(6, 4), 2);
    assert_eq!(divide_rounded(5, 4), 1);
    assert_eq!(divide_rounded(0, 9), 0);
    assert_eq!(divide_rounded(u128::MAX, u128::MAX), 1);
    assert_eq!(divide_rounded(u128::MAX, 2), u128::MAX / 2 + 1);
}

#[test]
fn throughput_is_bits_per_microsecond() {
    // 10 MiB in one second: 83.88608 Mbps
    assert_eq!(throughput(DOWNLOAD_BYTES, 1_000_000_000), 8389);
    // 1 000 000 bytes in one second: 8 Mbps
    assert_eq!(throughput(1_000_000, 1_000_000_000), 800);
    // 125 bytes in a millisecond: 1 Mbps
    assert_eq!(throughput(125, 1_000_000), 100);
    assert_eq!(throughput(0, 1_000_000), 0);
    assert_eq!(throughput(1, 1), 800_000);
    assert_eq!(throughput(u64::MAX, 1), u64::MAX as u128 * 800_000);
}

#[test]
fn no_time_gives_no_rate() {
    assert_eq!(throughput(DOWNLOAD_BYTES, 0), 0);
    assert_eq!(measure_download(&Transfer::Completed { bytes: 5, elapsed_nanos: 0 }), 0);
    assert_eq!(measure_upload(&Transfer::Completed { bytes: 5, elapsed_nanos: 0 }), 0);
}

#[test]
fn failed_transfer_gives_zero() {
    assert_eq!(measure_download(&Transfer::Failed), 0);
    assert_eq!(measure_upload(&Transfer::Failed), 0);
}

#[test]
fn download_counts_what_arrived() {
    let transfer = Transfer::Completed { bytes: 2_500_000, elapsed_nanos: 2_000_000_000 };
    assert_eq!(measure_download(&transfer), 1000);
}

#[test]
fn upload_counts_what_was_sent() {
    // 5 MiB in two seconds: 20.97152 Mbps, whatever came back
    let transfer = Transfer::Completed { bytes: 12, elapsed_nanos: 2_000_000_000 };
    assert_eq!(measure_upload(&transfer), 2097);
    assert_eq!(UPLOAD_BYTES, 5 * 1024 * 1024);
}

#[test]
fn endpoints_of_each_provider() {
    let a = endpoints(Provider::Cloudflare);
    assert_eq!(a.latency_url, "https://speed.cloudflare.com/__ping");
    assert_eq!(a.download_url, format!("https://speed.cloudflare.com/__down?bytes={}", DOWNLOAD_BYTES));
    assert_eq!(a.upload_url, "https://speed.cloudflare.com/__up");
    assert_eq!(a.locate_url, "https://speed.cloudflare.com/cdn-cgi/trace");
    let b = endpoints(Provider::Hetzner);
    assert_eq!(b.latency_url, "https://www.gstatic.com/generate_204");
    assert_eq!(b.download_url, "https://speed.hetzner.de/10MB.bin");
    assert_eq!(b.upload_url, "https://httpbin.org/post");
    assert_eq!(b.locate_url, "https://ipwho.is/");
}

#[test]
fn answer_is_read_in_the_shape_of_its_provider() {
    let trace = Some("ip=1.2.3.4\nloc=AT\n".to_string());
    let json = Some("{\"ip\":\"5.6.7.8\",\"country_code\":\"CH\"}".to_string());
    assert_eq!(locate(Provider::Cloudflare, &trace), ("1.2.3.4".to_string(), "AT".to_string()));
    assert_eq!(locate(Provider::Hetzner, &json), ("5.6.7.8".to_string(), "CH".to_string()));
    assert_eq!(locate(Provider::Hetzner, &trace), ("N/A".to_string(), "N/A".to_string()));
    assert_eq!(locate(Provider::Cloudflare, &json), ("N/A".to_string(), "N/A".to_string()));
    assert_eq!(locate(Provider::Cloudflare, &None), ("N/A".to_string(), "N/A".to_string()));
    assert_eq!(locate(Provider::Hetzner, &None), ("N/A".to_string(), "N/A".to_string()));
}

#[test]
fn report_holds_every_field_when_everything_fails() {
    for provider in [Provider::Cloudflare, Provider::Hetzner] {
        let samples = vec![3 * MS, 3 * MS, 3 * MS, 3 * MS, 3 * MS];
        let r = speed_report(provider, &samples, &Transfer::Failed, &Transfer::Failed, &None);
        assert_eq!(r.download_centi_mbps, 0);
        assert_eq!(r.upload_centi_mbps, 0);
        assert_eq!(r.latency_centi_ms, 300);
        assert_eq!(r.jitter_centi_ms, 0);
        assert_eq!(r.ip, "N/A");
        assert_eq!(r.country, "N/A");
        assert_eq!(r.error, None);
    }
}

#[test]
fn one_failure_does_not_touch_the_other_fields() {
    let samples = vec![10 * MS, 20 * MS, 15 * MS];
    let up = Transfer::Completed { bytes: 0, elapsed_nanos: 1_000_000_000 };
    let answer = Some("loc=BE\n".to_string());
    let r = speed_report(Provider::Cloudflare, &samples, &Transfer::Failed, &up, &answer);
    assert_eq!(r.download_centi_mbps, 0);
    assert_eq!(r.upload_centi_mbps, 4194);
    assert_eq!(r.latency_centi_ms, 1500);
    assert_eq!(r.jitter_centi_ms, 750);
    assert_eq!(r.ip, "N/A");
    assert_eq!(r.country, "BE");
    assert_eq!(r.error, None);
}

#[test]
fn stages_come_in_order() {
    let mut test = SpeedTest::begin(Provider::Hetzner);
    for i in 0..PING_SAMPLES {
        assert!(matches!(test.next_action(), SpeedAction::Sample));
        test.record_sample((i as u64 + 1) * MS);
    }
    assert!(matches!(test.next_action(), SpeedAction::Download));
    test.record_download(Transfer::Completed { bytes: 10_000_000, elapsed_nanos: 1_000_000_000 });
    assert!(matches!(test.next_action(), SpeedAction::Upload));
    test.record_upload(Transfer::Failed);
    assert!(matches!(test.next_action(), SpeedAction::Locate));
    test.record_answer(Some("{\"ip\":\"9.9.9.9\",\"countryCode\":\"FI\"}".to_string()));
    assert!(matches!(test.next_action(), SpeedAction::Report));
    let r = test.report();
    assert_eq!(r.download_centi_mbps, 8000);
    assert_eq!(r.upload_centi_mbps, 0);
    assert_eq!(r.latency_centi_ms, 300);
    assert_eq!(r.jitter_centi_ms, 100);
    assert_eq!(r.ip, "9.9.9.9");
    assert_eq!(r.country, "FI");
    assert_eq!(r.error, None);
}

#[test]
fn report_before_any_measurement_holds_placeholders() {
    let r = SpeedTest::begin(Provider::Cloudflare).report();
    assert_eq!(
        (r.download_centi_mbps, r.upload_centi_mbps, r.latency_centi_ms, r.jitter_centi_ms),
        (0, 0, 0, 0)
    );
    assert_eq!((r.ip.as_str(), r.country.as_str(), r.error), ("N/A", "N/A", None));
}
