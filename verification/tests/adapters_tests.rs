use pulsenet::adapters::{
    adapters_in_document, after_command, after_listing, clear_dns_adapter_cache,
    dns_adapter_cache, list_adapters_command, list_dns_adapters, parse_dns_adapters_from_output,
    ps_escape_single, reset_adapter_dns, set_adapter_dns, AdapterStep, DnsAdapter, ListStep,
    DNS_ADAPTER_CACHE_TTL_MS,
};
use pulsenet::json::Json;

fn adapter(name: &str, dns: &[&str]) -> DnsAdapter {
    DnsAdapter { name: name.to_string(), dns: dns.iter().map(|s| s.to_string()).collect() }
}

fn plain(list: &[DnsAdapter]) -> Vec<(String, Vec<String>)> {
    list.iter().map(|a| (a.name.clone(), a.dns.clone())).collect()
}

fn command(step: AdapterStep) -> String {
    match step {
        AdapterStep::Run(command) => command,
        AdapterStep::Done(r) => panic!("no command: {:?}", r.error),
    }
}

fn refusal(step: AdapterStep) -> String {
    match step {
        AdapterStep::Run(command) => panic!("a command: {}", command),
        AdapterStep::Done(r) => {
            assert!(!r.success);
            r.error.expect("a failure has an error")
        }
    }
}

#[test]
fn single_quotes_are_doubled() {
    assert_eq!(ps_escape_single("Ethernet"), "Ethernet");
    assert_eq!(ps_escape_single("it's"), "it''s");
    assert_eq!(ps_escape_single("'"), "''");
    assert_eq!(ps_escape_single("''"), "''''");
    assert_eq!(ps_escape_single(""), "");
    assert_eq!(ps_escape_single("a'b'c\"d"), "a''b''c\"d");
    assert_eq!(ps_escape_single("Wi‑Fi 'ü'"), "Wi‑Fi ''ü''");
}

#[test]
fn escaping_agrees_with_replacing() {
    for s in ["", "'", "x'", "'x", "a''b", "no quotes", "`'´"] {
        assert_eq!(ps_escape_single(s), s.replace('\'', "''"));
    }
}

#[test]
fn set_command_quotes_every_value() {
    let step = set_adapter_dns(true, " Ethernet ", " 1.1.1.1 ", &Some(" 1.0.0.1 ".to_string()));
    assert_eq!(
        command(step),
        "Set-DnsClientServerAddress -InterfaceAlias 'Ethernet' -ServerAddresses @('1.1.1.1','1.0.0.1')"
    );
    let step = set_adapter_dns(true, "Bob's LAN", "8.8.8.8", &None);
    assert_eq!(
        command(step),
        "Set-DnsClientServerAddress -InterfaceAlias 'Bob''s LAN' -ServerAddresses @('8.8.8.8')"
    );
}

#[test]
fn blank_secondary_server_is_left_out() {
    let step = set_adapter_dns(true, "Wi-Fi", "9.9.9.9", &Some("   ".to_string()));
    assert_eq!(
        command(step),
        "Set-DnsClientServerAddress -InterfaceAlias 'Wi-Fi' -ServerAddresses @('9.9.9.9')"
    );
}

#[test]
fn blank_input_is_refused() {
    assert_eq!(refusal(set_adapter_dns(true, "  ", "1.1.1.1", &None)), "invalid-input");
    assert_eq!(refusal(set_adapter_dns(true, "Wi-Fi", "", &None)), "invalid-input");
    assert_eq!(refusal(reset_adapter_dns(true, " \t")), "invalid-input");
}

#[test]
fn other_platforms_are_refused() {
    assert_eq!(refusal(set_adapter_dns(false, "Wi-Fi", "1.1.1.1", &None)), "unsupported-platform");
    assert_eq!(refusal(set_adapter_dns(false, "", "", &None)), "unsupported-platform");
    assert_eq!(refusal(reset_adapter_dns(false, "Wi-Fi")), "unsupported-platform");
}

#[test]
fn reset_command_names_the_adapter() {
    assert_eq!(
        command(reset_adapter_dns(true, " vEthernet (WSL) ")),
        "Set-DnsClientServerAddress -InterfaceAlias 'vEthernet (WSL)' -ResetServerAddresses"
    );
}

#[test]
fn listing_command() {
    assert_eq!(
        list_adapters_command(),
        "Get-DnsClientServerAddress -AddressFamily IPv4 | Select-Object InterfaceAlias,ServerAddresses | ConvertTo-Json -Depth 4 -Compress"
    );
}

#[test]
fn cache_is_good_for_five_seconds() {
    let mut cache = dns_adapter_cache();
    assert!(cache.lookup(0, false).is_none());
    cache.store(1_000, vec![adapter("Wi-Fi", &["1.1.1.1"])]);
    assert_eq!(cache.lookup(1_000, false).map(|l| l.len()), Some(1));
    assert_eq!(cache.lookup(6_000, false).map(|l| l.len()), Some(1));
    assert!(cache.lookup(6_001, false).is_none());
    assert_eq!(cache.lookup(500, false).map(|l| l.len()), Some(1));
    assert!(cache.lookup(1_000, true).is_none());
    assert_eq!(DNS_ADAPTER_CACHE_TTL_MS, 5000);
    cache.store(7_000, vec![]);
    assert_eq!(cache.lookup(7_001, false).map(|l| l.len()), Some(0));
    clear_dns_adapter_cache(&mut cache);
    assert!(cache.lookup(7_001, false).is_none());
}

#[test]
fn command_that_succeeded_empties_the_cache() {
    let mut cache = dns_adapter_cache();
    cache.store(10, vec![adapter("Wi-Fi", &[])]);
    let r = after_command(&mut cache, Ok(String::new()));
    assert!(r.success);
    assert_eq!(r.error, None);
    assert!(cache.entry.is_none());
}

#[test]
fn command_that_failed_keeps_the_cache() {
    let mut cache = dns_adapter_cache();
    cache.store(10, vec![adapter("Wi-Fi", &[])]);
    let r = after_command(&mut cache, Err("Access is denied.".to_string()));
    assert!(!r.success);
    assert_eq!(r.error.as_deref(), Some("Access is denied."));
    assert_eq!(cache.lookup(11, false).map(|l| l.len()), Some(1));
}

#[test]
fn listing_is_read_and_ordered_by_name() {
    let output = "[{\"InterfaceAlias\":\"Wi-Fi\",\"ServerAddresses\":[\"192.168.1.1\",\" 1.1.1.1 \"]},{\"InterfaceAlias\":\" Ethernet \",\"ServerAddresses\":[]},{\"InterfaceAlias\":\"Loopback\",\"ServerAddresses\":null},{\"InterfaceAlias\":\"  \",\"ServerAddresses\":[\"9.9.9.9\"]},{\"ServerAddresses\":[\"8.8.8.8\"]},{\"InterfaceAlias\":\"Bluetooth\",\"ServerAddresses\":[\"\",7,\"8.8.4.4\"]}]";
    let list = parse_dns_adapters_from_output(output);
    assert_eq!(
        plain(&list),
        plain(&[
            adapter("Bluetooth", &["8.8.4.4"]),
            adapter("Ethernet", &[]),
            adapter("Loopback", &[]),
            adapter("Wi-Fi", &["192.168.1.1", "1.1.1.1"]),
        ])
    );
}

#[test]
fn single_object_is_one_adapter() {
    let list = parse_dns_adapters_from_output("{\"InterfaceAlias\":\"Ethernet\",\"ServerAddresses\":[\"10.0.0.1\"]}");
    assert_eq!(plain(&list), plain(&[adapter("Ethernet", &["10.0.0.1"])]));
    assert!(parse_dns_adapters_from_output("\"Ethernet\"").is_empty());
}

#[test]
fn unreadable_listing_is_empty() {
    assert!(parse_dns_adapters_from_output("").is_empty());
    assert!(parse_dns_adapters_from_output("Get-DnsClientServerAddress : not found").is_empty());
    assert!(parse_dns_adapters_from_output("[]").is_empty());
}

#[test]
fn adapters_of_one_name_keep_their_order() {
    let entry = |name: &str, server: &str| {
        Json::Object(vec![
            ("InterfaceAlias".to_string(), Json::Text(name.to_string())),
            ("ServerAddresses".to_string(), Json::Array(vec![Json::Text(server.to_string())])),
        ])
    };
    let doc = Json::Array(vec![
        entry("b", "1"),
        entry("a", "2"),
        entry("b", "3"),
        entry("B", "4"),
        entry("a", "5"),
        entry("ab", "6"),
    ]);
    let list = adapters_in_document(&doc);
    assert_eq!(
        plain(&list),
        plain(&[
            adapter("B", &["4"]),
            adapter("a", &["2"]),
            adapter("a", &["5"]),
            adapter("ab", &["6"]),
            adapter("b", &["1"]),
            adapter("b", &["3"]),
        ])
    );
}

#[test]
fn ordering_agrees_with_a_stable_sort() {
    let names = ["z", "Ethernet 2", "ethernet", "Ethernet", "é", "Wi-Fi", "Ethernet", "a", "Z"];
    let doc = Json::Array(
        names
            .iter()
            .enumerate()
            .map(|(i, name)| {
                Json::Object(vec![
                    ("InterfaceAlias".to_string(), Json::Text(name.to_string())),
                    (
                        "ServerAddresses".to_string(),
                        Json::Array(vec![Json::Text(format!("10.0.0.{}", i))]),
                    ),
                ])
            })
            .collect(),
    );
    let mut expected: Vec<(String, Vec<String>)> = names
        .iter()
        .enumerate()
        .map(|(i, name)| (name.to_string(), vec![format!("10.0.0.{}", i)]))
        .collect();
    expected.sort_by(|l, r| l.0.cmp(&r.0));
    assert_eq!(plain(&adapters_in_document(&doc)), expected);
}

#[test]
fn listing_is_answered_from_a_good_cache() {
    let mut cache = dns_adapter_cache();
    assert!(matches!(list_dns_adapters(true, &cache, 100, false), ListStep::Run(_)));
    cache.store(100, vec![adapter("Wi-Fi", &["1.1.1.1"])]);
    match list_dns_adapters(true, &cache, 5_100, false) {
        ListStep::Known(list) => assert_eq!(plain(list), plain(&[adapter("Wi-Fi", &["1.1.1.1"])])),
        _ => panic!("a good cache was not used"),
    }
    match list_dns_adapters(true, &cache, 5_101, false) {
        ListStep::Run(command) => assert_eq!(command, list_adapters_command()),
        _ => panic!("an old cache was used"),
    }
    assert!(matches!(list_dns_adapters(true, &cache, 101, true), ListStep::Run(_)));
    assert!(matches!(list_dns_adapters(false, &cache, 101, false), ListStep::Unsupported));
}

#[test]
fn listing_that_was_read_is_cached() {
    let mut cache = dns_adapter_cache();
    let output = "{\"InterfaceAlias\":\"Ethernet\",\"ServerAddresses\":[\"10.0.0.1\"]}";
    assert!(after_listing(&mut cache, 42, Ok(output.to_string())));
    let entry = cache.entry.as_ref().expect("the listing is cached");
    assert_eq!(entry.0, 42);
    assert_eq!(plain(&entry.1), plain(&[adapter("Ethernet", &["10.0.0.1"])]));
    assert!(!after_listing(&mut cache, 50, Err("denied".to_string())));
    assert_eq!(cache.entry.as_ref().map(|e| e.0), Some(42));
    assert!(after_listing(&mut cache, 60, Ok(String::new())));
    assert_eq!(cache.entry.as_ref().map(|e| (e.0, e.1.len())), Some((60, 0)));
}
