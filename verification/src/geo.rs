//! Where the client is: its public address and country, read from the answer
//! of an identification service.

use vstd::prelude::*;
use vstd::string::*;
use crate::json::{json_document, parse_document, Json};
use crate::text::{has_prefix_at, run_len, scan_until, trim, trimmed};

verus! {

/// The value that a line gives for `key`: what follows `key` at the start of
/// the line, trimmed, where that is not empty.
pub open spec fn line_value(line: Seq<char>, key: Seq<char>) -> Option<Seq<char>> {
    if key.is_prefix_of(line) && trimmed(line.skip(key.len() as int)).len() > 0 {
        Some(trimmed(line.skip(key.len() as int)))
    } else {
        None
    }
}

/// The value of the first line of `body` that gives one for `key`. Lines end
/// at a line feed; a carriage return before it is white space at the end of
/// the line and so never part of a value.
pub open spec fn trace_value(body: Seq<char>, key: Seq<char>) -> Option<Seq<char>>
    decreases body.len(),
{
    let end = run_len(body, set!['\n']);
    match line_value(body.take(end as int), key) {
        Some(value) => Some(value),
        None => if end >= body.len() {
            None
        } else {
            trace_value(body.skip(end as int + 1), key)
        },
    }
}

/// Looks for the first line of a trace that gives a value for `key`.
pub fn trace_field(body: &str, key: &str) -> (r: Option<String>)
    ensures
        match r {
            Some(value) => trace_value(body@, key@) == Some(value@),
            None => trace_value(body@, key@) is None,
        },
{
    let n: usize = body.unicode_len();
    let k: usize = key.unicode_len();
    let mut pos: usize = 0;
    assert(body@.skip(0) =~= body@);
    loop
        invariant
            pos <= n,
            n == body@.len(),
            k == key@.len(),
            trace_value(body@, key@) == trace_value(body@.skip(pos as int), key@),
        decreases n - pos,
    {
        assert(set!['\n', '\n', '\n'] =~= set!['\n']);
        let end: usize = scan_until(body, pos, '\n', '\n', '\n');
        let ghost rest = body@.skip(pos as int);
        let ghost line = rest.take(end - pos);
        if k <= end - pos && has_prefix_at(body, pos, key) {
            let value = trim(body.substring_char(pos + k, end));
            proof {
                assert(line.subrange(0, k as int) =~= rest.subrange(0, k as int));
                assert(line.skip(k as int) =~= body@.subrange(pos + k, end as int));
            }
            if value.unicode_len() > 0 {
                return Some(String::from_str(value));
            }
        } else {
            proof {
                if key@.is_prefix_of(line) {
                    assert(line.subrange(0, k as int) =~= rest.subrange(0, k as int));
                }
            }
        }
        if end >= n {
            return None;
        }
        proof {
            assert(rest.skip(end - pos + 1) =~= body@.skip(end + 1));
        }
        pos = end + 1;
    }
}

/// The client's address in a trace: the value of the first line that begins
/// with `ip=` and gives one.
pub fn extract_ip_from_trace(body: &str) -> (r: Option<String>)
    ensures
        match r {
            Some(value) => trace_value(body@, "ip="@) == Some(value@),
            None => trace_value(body@, "ip="@) is None,
        },
{
    trace_field(body, "ip=")
}

/// The client's country in a trace: the value of the first line that begins
/// with `loc=` and gives one.
pub fn extract_country_from_trace(body: &str) -> (r: Option<String>)
    ensures
        match r {
            Some(value) => trace_value(body@, "loc="@) == Some(value@),
            None => trace_value(body@, "loc="@) is None,
        },
{
    trace_field(body, "loc=")
}

/// What stands in a report where a value is not known.
pub open spec fn not_available() -> Seq<char> {
    "N/A"@
}

/// The text of a member, or the placeholder where there is no member or it
/// is no string.
pub open spec fn text_or_placeholder(member: Option<Json>) -> Seq<char> {
    match member {
        Some(value) => match value.text() {
            Some(text) => text,
            None => not_available(),
        },
        None => not_available(),
    }
}

/// The address that an identification document gives.
pub open spec fn document_ip(doc: Option<Json>) -> Seq<char> {
    match doc {
        Some(value) => text_or_placeholder(value.member("ip"@)),
        None => not_available(),
    }
}

/// The country that an identification document gives: the member
/// `country_code` where the document has one, else the member `countryCode`.
pub open spec fn document_country(doc: Option<Json>) -> Seq<char> {
    match doc {
        Some(value) => text_or_placeholder(
            if value.member("country_code"@) is Some {
                value.member("country_code"@)
            } else {
                value.member("countryCode"@)
            },
        ),
        None => not_available(),
    }
}

fn member_or_placeholder(member: Option<&Json>) -> (r: String)
    ensures
        r@ == text_or_placeholder(
            match member {
                Some(value) => Some(*value),
                None => None,
            },
        ),
{
    match member {
        Some(value) => match value.as_str() {
            Some(text) => String::from_str(text),
            None => String::from_str("N/A"),
        },
        None => String::from_str("N/A"),
    }
}

/// Address and country of a document that was read, or of none.
pub fn ip_country_of_document(doc: &Option<Json>) -> (r: (String, String))
    ensures
        r.0@ == document_ip(*doc),
        r.1@ == document_country(*doc),
{
    match doc {
        Some(value) => {
            let ip = member_or_placeholder(value.get("ip"));
            let code = value.get("country_code");
            let country = if code.is_some() {
                member_or_placeholder(code)
            } else {
                member_or_placeholder(value.get("countryCode"))
            };
            (ip, country)
        },
        None => (String::from_str("N/A"), String::from_str("N/A")),
    }
}

/// Address and country in the answer of a service that answers with a JSON
/// object. Each is the placeholder where the answer is no JSON document or
/// does not hold it as a string.
pub fn extract_ip_country_from_ipwhois(body: &str) -> (r: (String, String))
    ensures
        r.0@ == document_ip(json_document(body@)),
        r.1@ == document_country(json_document(body@)),
{
    let doc = parse_document(body);
    ip_country_of_document(&doc)
}

/// Address and country in a trace, each the placeholder where no line gives
/// it.
pub fn extract_ip_country_from_trace(body: &str) -> (r: (String, String))
    ensures
        r.0@ == match trace_value(body@, "ip="@) {
            Some(value) => value,
            None => not_available(),
        },
        r.1@ == match trace_value(body@, "loc="@) {
            Some(value) => value,
            None => not_available(),
        },
{
    let ip = match extract_ip_from_trace(body) {
        Some(value) => value,
        None => String::from_str("N/A"),
    };
    let country = match extract_country_from_trace(body) {
        Some(value) => value,
        None => String::from_str("N/A"),
    };
    (ip, country)
}

} // verus!
