use pulsenet::json::Json;
use pulsenet::update::{
    check_for_updates, release_listing_url, report_document, report_failure, report_release,
    select_published, ReleaseFetch,
};

const PAGE: &str = "https://github.com/SM8KE1/PulseNet/releases/latest";

fn text(s: &str) -> Json {
    Json::Text(s.to_string())
}

fn object(members: Vec<(&str, Json)>) -> Json {
    Json::Object(members.into_iter().map(|(k, v)| (k.to_string(), v)).collect())
}

fn body(s: &str) -> ReleaseFetch {
    ReleaseFetch::Body(s.to_string())
}

#[test]
fn failed_request_is_reported() {
    let r = check_for_updates("1.0.0", false, &ReleaseFetch::Failed);
    assert_eq!(r.current_version, "1.0.0");
    assert_eq!(r.latest_version, "");
    assert!(!r.update_available);
    assert!(!r.is_prerelease);
    assert_eq!(r.url, PAGE);
    assert_eq!(r.error.as_deref(), Some("update-check-failed"));
}

#[test]
fn unreadable_answer_is_reported() {
    for fetch in [ReleaseFetch::Unreadable, body(""), body("<html>"), body("{\"tag_name\":")] {
        let r = check_for_updates("1.0.0", true, &fetch);
        assert_eq!(r.current_version, "1.0.0");
        assert_eq!(r.latest_version, "");
        assert!(!r.update_available);
        assert!(!r.is_prerelease);
        assert_eq!(r.url, PAGE);
        assert_eq!(r.error.as_deref(), Some("invalid-response"));
    }
}

#[test]
fn newer_latest_release_is_offered() {
    let fetch = body("{\"tag_name\":\"v1.2.0\",\"prerelease\":false,\"draft\":false,\"html_url\":\"https://example.org/r/1.2.0\"}");
    let r = check_for_updates("1.1.9", false, &fetch);
    assert_eq!(r.current_version, "1.1.9");
    assert_eq!(r.latest_version, "1.2.0");
    assert!(r.update_available);
    assert!(!r.is_prerelease);
    assert_eq!(r.url, "https://example.org/r/1.2.0");
    assert_eq!(r.error, None);
}

#[test]
fn same_or_older_release_is_not_offered() {
    let fetch = body("{\"tag_name\":\"v1.2.0\"}");
    assert!(!check_for_updates("1.2.0", false, &fetch).update_available);
    assert!(!check_for_updates("1.2", false, &fetch).update_available);
    assert!(!check_for_updates("1.3.0", false, &fetch).update_available);
    assert!(check_for_updates("1.1.15", false, &fetch).update_available);
}

#[test]
fn release_without_tag_offers_nothing() {
    for doc in ["{}", "{\"tag_name\":7}", "{\"tag_name\":\"\"}", "{\"tag_name\":\"v\"}", "null", "[]"] {
        let r = check_for_updates("0.0.0", false, &body(doc));
        assert_eq!(r.latest_version, "", "{}", doc);
        assert!(!r.update_available);
        assert_eq!(r.url, PAGE);
        assert_eq!(r.error, None);
    }
}

#[test]
fn first_entry_that_is_no_draft_is_chosen() {
    let listing = "[{\"tag_name\":\"v3.0.0\",\"draft\":true},{\"tag_name\":\"v2.1.0-rc\",\"prerelease\":true,\"html_url\":\"u2\"},{\"tag_name\":\"v2.0.0\"}]";
    let r = check_for_updates("2.0.0", true, &body(listing));
    assert_eq!(r.latest_version, "2.1.0-rc");
    assert!(r.update_available);
    assert!(r.is_prerelease);
    assert_eq!(r.url, "u2");
    assert_eq!(r.error, None);
}

#[test]
fn draft_flag_counts_only_as_true() {
    let listing = "[{\"tag_name\":\"v5\",\"draft\":\"true\"},{\"tag_name\":\"v4\"}]";
    assert_eq!(check_for_updates("1", true, &body(listing)).latest_version, "5");
    let listing = "[{\"draft\":true},{\"draft\":true}]";
    let r = check_for_updates("1", true, &body(listing));
    assert_eq!(r.latest_version, "");
    assert!(!r.update_available);
    assert_eq!(r.url, PAGE);
}

#[test]
fn listing_that_is_no_array_offers_nothing() {
    let r = check_for_updates("1.0.0", true, &body("{\"tag_name\":\"v9.9.9\"}"));
    assert_eq!(r.latest_version, "");
    assert!(!r.update_available);
    assert!(!r.is_prerelease);
    assert_eq!(r.error, None);
}

#[test]
fn array_is_no_single_release() {
    let r = check_for_updates("1.0.0", false, &body("[{\"tag_name\":\"v9.9.9\"}]"));
    assert_eq!(r.latest_version, "");
    assert!(!r.update_available);
}

#[test]
fn listing_addresses() {
    assert_eq!(release_listing_url(false), "https://api.github.com/repos/SM8KE1/PulseNet/releases/latest");
    assert_eq!(release_listing_url(true), "https://api.github.com/repos/SM8KE1/PulseNet/releases?per_page=20");
}

#[test]
fn release_built_by_hand() {
    let release = object(vec![
        ("tag_name", text("v0.4.1")),
        ("prerelease", Json::Bool(true)),
        ("html_url", Json::Number),
    ]);
    let r = report_release("0.4.0", &release);
    assert_eq!(r.latest_version, "0.4.1");
    assert!(r.update_available);
    assert!(r.is_prerelease);
    assert_eq!(r.url, PAGE);
    let r = report_document("0.4.1", false, &release);
    assert!(!r.update_available);
    let r = report_document("0.4.0", true, &Json::Array(vec![release]));
    assert!(r.update_available);
}

#[test]
fn published_entry_is_found() {
    let items = vec![
        object(vec![("draft", Json::Bool(true)), ("tag_name", text("a"))]),
        object(vec![("draft", Json::Bool(false)), ("tag_name", text("b"))]),
        object(vec![("tag_name", text("c"))]),
    ];
    let found = select_published(&items).expect("an entry is published");
    assert_eq!(found.get("tag_name").and_then(|t| t.as_str()), Some("b"));
    assert!(select_published(&vec![]).is_none());
    assert!(select_published(&vec![object(vec![("draft", Json::Bool(true))])]).is_none());
    assert!(select_published(&vec![Json::Null]).is_some());
}

#[test]
fn failure_report_carries_the_code() {
    let r = report_failure("3.2.1", "update-check-failed");
    assert_eq!(r.current_version, "3.2.1");
    assert_eq!(r.error.as_deref(), Some("update-check-failed"));
    assert_eq!(r.url, PAGE);
}
