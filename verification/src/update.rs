//! The update check: which release a listing offers and whether it is newer
//! than the running version.

use vstd::prelude::*;
use vstd::string::*;
use crate::json::{json_document, parse_document, Json};
use crate::version::{is_newer_version, newer, version_parts, without_v};

verus! {

/// What the update check reports.
pub struct UpdateCheckResult {
    pub current_version: String,
    pub latest_version: String,
    pub update_available: bool,
    pub is_prerelease: bool,
    pub url: String,
    pub error: Option<String>,
}

/// What came of the request to the release listing.
pub enum ReleaseFetch {
    /// The request itself failed.
    Failed,
    /// A response came, but its body could not be read as text.
    Unreadable,
    /// The body of the response.
    Body(String),
}

/// The page that is offered where a release names none.
pub open spec fn default_release_page() -> Seq<char> {
    "https://github.com/SM8KE1/PulseNet/releases/latest"@
}

/// The characters of the member `key`, where it is a string.
pub open spec fn member_text(value: Json, key: Seq<char>) -> Option<Seq<char>> {
    match value.member(key) {
        Some(m) => m.text(),
        None => None,
    }
}

/// The truth value of the member `key`, where it is a boolean.
pub open spec fn member_flag(value: Json, key: Seq<char>) -> Option<bool> {
    match value.member(key) {
        Some(m) => m.flag(),
        None => None,
    }
}

/// An entry is a draft only where it says so with `"draft": true`.
pub open spec fn is_draft(item: Json) -> bool {
    member_flag(item, "draft"@) == Some(true)
}

/// The first entry of a listing that is no draft.
pub open spec fn first_published(items: Seq<Json>) -> Option<Json>
    decreases items.len(),
{
    if items.len() == 0 {
        None
    } else if !is_draft(items[0]) {
        Some(items[0])
    } else {
        first_published(items.drop_first())
    }
}

/// The release that a document offers. With prereleases the document is a
/// listing, and its first entry that is no draft is chosen; a document that
/// is no listing, or that lists only drafts, offers `null`. Without
/// prereleases the document is itself the release.
pub open spec fn chosen_release(doc: Json, include_prerelease: bool) -> Json {
    if include_prerelease {
        match doc.items() {
            Some(items) => match first_published(items) {
                Some(release) => release,
                None => Json::Null,
            },
            None => Json::Null,
        }
    } else {
        doc
    }
}

/// The version that a release is tagged with, without one leading `v`.
pub open spec fn release_tag(release: Json) -> Seq<char> {
    match member_text(release, "tag_name"@) {
        Some(tag) => without_v(tag),
        None => Seq::empty(),
    }
}

/// The page of a release: the one it names, else the default page.
pub open spec fn release_url(release: Json) -> Seq<char> {
    match member_text(release, "html_url"@) {
        Some(url) => url,
        None => default_release_page(),
    }
}

/// `r` reports the release `release` to a program of version `current`.
pub open spec fn reports_release(r: UpdateCheckResult, current: Seq<char>, release: Json) -> bool {
    &&& r.current_version@ == current
    &&& r.latest_version@ == release_tag(release)
    &&& r.update_available == (release_tag(release).len() > 0 && newer(
        version_parts(release_tag(release)),
        version_parts(current),
    ))
    &&& r.is_prerelease == (member_flag(release, "prerelease"@) == Some(true))
    &&& r.url@ == release_url(release)
    &&& r.error is None
}

/// `r` reports that the check failed for the reason `code`.
pub open spec fn reports_failure(r: UpdateCheckResult, current: Seq<char>, code: Seq<char>) -> bool {
    &&& r.current_version@ == current
    &&& r.latest_version@.len() == 0
    &&& !r.update_available
    &&& !r.is_prerelease
    &&& r.url@ == default_release_page()
    &&& r.error matches Some(e) && e@ == code
}

/// What the update check owes for each outcome of the request.
pub open spec fn reports_fetch(
    r: UpdateCheckResult,
    current: Seq<char>,
    include_prerelease: bool,
    fetch: ReleaseFetch,
) -> bool {
    match fetch {
        ReleaseFetch::Failed => reports_failure(r, current, "update-check-failed"@),
        ReleaseFetch::Unreadable => reports_failure(r, current, "invalid-response"@),
        ReleaseFetch::Body(body) => match json_document(body@) {
            None => reports_failure(r, current, "invalid-response"@),
            Some(doc) => reports_release(r, current, chosen_release(doc, include_prerelease)),
        },
    }
}

/// The address of the listing to ask: all recent releases where prereleases
/// count, else the latest release alone.
pub fn release_listing_url(include_prerelease: bool) -> (url: String)
    ensures
        url@ == if include_prerelease {
            "https://api.github.com/repos/SM8KE1/PulseNet/releases?per_page=20"@
        } else {
            "https://api.github.com/repos/SM8KE1/PulseNet/releases/latest"@
        },
{
    if include_prerelease {
        String::from_str("https://api.github.com/repos/SM8KE1/PulseNet/releases?per_page=20")
    } else {
        String::from_str("https://api.github.com/repos/SM8KE1/PulseNet/releases/latest")
    }
}

fn text_member<'a>(value: &'a Json, key: &str) -> (r: Option<&'a str>)
    ensures
        match r {
            Some(s) => member_text(*value, key@) == Some(s@),
            None => member_text(*value, key@) is None,
        },
{
    match value.get(key) {
        Some(m) => m.as_str(),
        None => None,
    }
}

fn flag_member(value: &Json, key: &str) -> (r: Option<bool>)
    ensures
        r == member_flag(*value, key@),
{
    match value.get(key) {
        Some(m) => m.as_bool(),
        None => None,
    }
}

/// The first entry of a listing that is no draft.
pub fn select_published(items: &Vec<Json>) -> (r: Option<&Json>)
    ensures
        match r {
            Some(release) => first_published(items@) == Some(*release),
            None => first_published(items@) is None,
        },
{
    let mut i: usize = 0;
    assert(items@.skip(0) =~= items@);
    while i < items.len()
        invariant
            i <= items@.len(),
            first_published(items@) == first_published(items@.skip(i as int)),
        decreases items@.len() - i,
    {
        proof {
            let rest = items@.skip(i as int);
            assert(rest[0] == items@[i as int]);
            assert(rest.drop_first() =~= items@.skip(i + 1));
        }
        let item = &items[i];
        let draft = match flag_member(item, "draft") {
            Some(b) => b,
            None => false,
        };
        if !draft {
            assert(first_published(items@.skip(i as int)) == Some(*item));
            return Some(item);
        }
        i = i + 1;
    }
    None
}

/// The report on one release, for a program of version `current`: an update
/// is available where the release carries a tag and that tag is newer.
pub fn report_release(current: &str, release: &Json) -> (r: UpdateCheckResult)
    ensures
        reports_release(r, current@, *release),
{
    let tag: &str = match text_member(release, "tag_name") {
        Some(tag) => {
            let n: usize = tag.unicode_len();
            if n > 0 && tag.get_char(0) == 'v' {
                let rest = tag.substring_char(1, n);
                assert(rest@ =~= tag@.drop_first());
                rest
            } else {
                tag
            }
        },
        None => {
            proof {
                reveal_strlit("");
            }
            ""
        },
    };
    assert(tag@ =~= release_tag(*release));
    let update_available = tag.unicode_len() > 0 && is_newer_version(tag, current);
    let is_prerelease = match flag_member(release, "prerelease") {
        Some(b) => b,
        None => false,
    };
    let url = match text_member(release, "html_url") {
        Some(url) => String::from_str(url),
        None => String::from_str("https://github.com/SM8KE1/PulseNet/releases/latest"),
    };
    UpdateCheckResult {
        current_version: String::from_str(current),
        latest_version: String::from_str(tag),
        update_available,
        is_prerelease,
        url,
        error: None,
    }
}

/// The report on a check that found no release to read.
pub fn report_failure(current: &str, code: &str) -> (r: UpdateCheckResult)
    ensures
        reports_failure(r, current@, code@),
{
    UpdateCheckResult {
        current_version: String::from_str(current),
        latest_version: String::new(),
        update_available: false,
        is_prerelease: false,
        url: String::from_str("https://github.com/SM8KE1/PulseNet/releases/latest"),
        error: Some(String::from_str(code)),
    }
}

/// The report on a document that was read: the release it offers is chosen
/// and compared with `current`.
pub fn report_document(current: &str, include_prerelease: bool, doc: &Json) -> (r:
    UpdateCheckResult)
    ensures
        reports_release(r, current@, chosen_release(*doc, include_prerelease)),
{
    let null = Json::Null;
    if include_prerelease {
        let release: &Json = match doc.as_array() {
            Some(items) => match select_published(items) {
                Some(release) => release,
                None => &null,
            },
            None => &null,
        };
        report_release(current, release)
    } else {
        report_release(current, doc)
    }
}

/// Decides the whole update check from what the request gave. A failed
/// request is reported as `update-check-failed`, a body that is no JSON
/// document as `invalid-response`; any document is reported on, whatever it
/// holds.
pub fn check_for_updates(current: &str, include_prerelease: bool, fetch: &ReleaseFetch) -> (r:
    UpdateCheckResult)
    ensures
        reports_fetch(r, current@, include_prerelease, *fetch),
{
    match fetch {
        ReleaseFetch::Failed => report_failure(current, "update-check-failed"),
        ReleaseFetch::Unreadable => report_failure(current, "invalid-response"),
        ReleaseFetch::Body(body) => match parse_document(body.as_str()) {
            None => report_failure(current, "invalid-response"),
            Some(doc) => report_document(current, include_prerelease, &doc),
        },
    }
}

} // verus!
