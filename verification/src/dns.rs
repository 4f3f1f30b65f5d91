//! The DNS resolver test: which domain is asked for, which resolvers are
//! asked, and what is reported of each.
//!
//! The lookups themselves are made by the caller. [`DnsTest`] names the
//! resolver to ask next and takes what came of the lookup, so that every
//! resolver ends up with exactly one entry, in order.

use vstd::prelude::*;
use vstd::string::*;
use crate::text::{
    lemma_run_len, run_len, same_text, scan_until, skip_repeated, strip_repeated, texts, trim,
    trimmed,
};

verus! {

/// The bound on one lookup, in milliseconds. The resolver's own timeout is
/// set to the same bound.
pub const DNS_TIMEOUT_MS: u64 = 4000;

/// The port of a resolver that names none.
pub const DNS_DEFAULT_PORT: u16 = 53;

/// The domain that is looked up for a raw input: the input without the white
/// space around it, without the schemes `https://` and `http://` in front,
/// and cut at the first `/`, `?` or `#`.
pub open spec fn sanitized(input: Seq<char>) -> Seq<char> {
    let host = strip_repeated(strip_repeated(trimmed(input), "https://"@), "http://"@);
    host.take(run_len(host, set!['/', '?', '#']) as int)
}

/// Reduces what the user typed to the domain that is looked up.
pub fn sanitize_domain(input: &str) -> (domain: String)
    ensures
        domain@ == sanitized(input@),
{
    let t = trim(input);
    assert(t@.skip(0) =~= t@);
    let after_https: usize = skip_repeated(t, 0, "https://");
    let start: usize = skip_repeated(t, after_https, "http://");
    let end: usize = scan_until(t, start, '/', '?', '#');
    proof {
        assert(t@.skip(start as int).take(end - start) =~= t@.subrange(start as int, end as int));
    }
    String::from_str(t.substring_char(start, end))
}

/// A sanitized domain holds none of the characters that begin a path, a
/// query or a fragment.
pub proof fn lemma_sanitized_is_bare(input: Seq<char>)
    ensures
        forall|i: int|
            0 <= i < sanitized(input).len() ==> {
                let c = #[trigger] sanitized(input)[i];
                c != '/' && c != '?' && c != '#'
            },
{
    let host = strip_repeated(strip_repeated(trimmed(input), "https://"@), "http://"@);
    lemma_run_len(host, set!['/', '?', '#']);
    assert forall|i: int| 0 <= i < sanitized(input).len() implies {
        let c = #[trigger] sanitized(input)[i];
        c != '/' && c != '?' && c != '#'
    } by {
        assert(sanitized(input)[i] == host[i]);
        assert(!set!['/', '?', '#'].contains(host[i]));
    }
}

/// The public resolvers that every test asks, in the order in which they are
/// asked.
pub open spec fn builtin_servers() -> Seq<Seq<char>> {
    seq![
        "8.8.8.8"@,
        "8.8.4.4"@,
        "1.1.1.1"@,
        "1.0.0.1"@,
        "9.9.9.9"@,
        "149.112.112.112"@,
        "208.67.222.222"@,
        "208.67.220.220"@,
    ]
}

/// `list` with one more entry of the caller: trimmed, and left out where it is
/// blank or already in the list.
pub open spec fn add_server(list: Seq<Seq<char>>, entry: Seq<char>) -> Seq<Seq<char>> {
    let t = trimmed(entry);
    if t.len() == 0 || list.contains(t) {
        list
    } else {
        list.push(t)
    }
}

/// `list` with the entries of the caller added one after the other.
pub open spec fn add_servers(list: Seq<Seq<char>>, custom: Seq<Seq<char>>) -> Seq<Seq<char>>
    decreases custom.len(),
{
    if custom.len() == 0 {
        list
    } else {
        add_servers(add_server(list, custom[0]), custom.drop_first())
    }
}

/// The entries of the caller, none where the caller gave no list.
pub open spec fn custom_texts(custom: Option<Vec<String>>) -> Seq<Seq<char>> {
    match custom {
        Some(list) => texts(list@),
        None => Seq::empty(),
    }
}

/// The resolvers that a test asks: the built-in ones, then those of the
/// caller that are not yet in the list.
pub open spec fn effective_servers(custom: Option<Vec<String>>) -> Seq<Seq<char>> {
    add_servers(builtin_servers(), custom_texts(custom))
}

/// The built-in resolvers, as strings.
pub fn builtin_server_list() -> (list: Vec<String>)
    ensures
        texts(list@) == builtin_servers(),
{
    let mut list: Vec<String> = Vec::new();
    list.push(String::from_str("8.8.8.8"));
    list.push(String::from_str("8.8.4.4"));
    list.push(String::from_str("1.1.1.1"));
    list.push(String::from_str("1.0.0.1"));
    list.push(String::from_str("9.9.9.9"));
    list.push(String::from_str("149.112.112.112"));
    list.push(String::from_str("208.67.222.222"));
    list.push(String::from_str("208.67.220.220"));
    assert(texts(list@) =~= builtin_servers());
    list
}

fn holds_text(list: &Vec<String>, t: &str) -> (r: bool)
    ensures
        r == texts(list@).contains(t@),
{
    let mut i: usize = 0;
    while i < list.len()
        invariant
            i <= list@.len(),
            forall|j: int| 0 <= j < i ==> texts(list@)[j] != t@,
        decreases list@.len() - i,
    {
        if same_text(list[i].as_str(), t) {
            assert(texts(list@)[i as int] == t@);
            return true;
        }
        i = i + 1;
    }
    false
}

/// Builds the list of resolvers to ask.
pub fn effective_server_list(custom: &Option<Vec<String>>) -> (list: Vec<String>)
    ensures
        texts(list@) == effective_servers(*custom),
{
    let mut list = builtin_server_list();
    match custom {
        Some(entries) => {
            let mut i: usize = 0;
            assert(texts(entries@).skip(0) =~= texts(entries@));
            while i < entries.len()
                invariant
                    i <= entries@.len(),
                    add_servers(texts(list@), texts(entries@).skip(i as int)) == add_servers(
                        builtin_servers(),
                        texts(entries@),
                    ),
                decreases entries@.len() - i,
            {
                let t = trim(entries[i].as_str());
                proof {
                    let rest = texts(entries@).skip(i as int);
                    assert(rest[0] == entries@[i as int]@);
                    assert(rest.drop_first() =~= texts(entries@).skip(i + 1));
                }
                if t.unicode_len() > 0 && !holds_text(&list, t) {
                    let ghost before = texts(list@);
                    list.push(String::from_str(t));
                    assert(texts(list@) =~= before.push(t@));
                }
                i = i + 1;
            }
        },
        None => {},
    }
    list
}

/// What is reported of one resolver.
pub struct DnsResult {
    pub server: String,
    pub status: bool,
    pub response_time_ms: u128,
    pub error: Option<String>,
}

/// What is reported of a whole test.
pub struct DnsResponse {
    pub error: Option<String>,
    pub results: Vec<DnsResult>,
}

/// What came of asking one resolver.
pub enum LookupOutcome {
    /// The entry is no address of a resolver: nothing was sent.
    InvalidServer,
    /// The resolver returned an address.
    Resolved,
    /// The resolver library reported an error, with its text.
    Failed(String),
    /// The bound on the lookup ran out first.
    TimedOut,
}

/// The error text that is reported for an outcome.
pub open spec fn outcome_error(outcome: LookupOutcome) -> Option<Seq<char>> {
    match outcome {
        LookupOutcome::InvalidServer => Some("invalid-server"@),
        LookupOutcome::Resolved => None,
        LookupOutcome::Failed(text) => Some(text@),
        LookupOutcome::TimedOut => Some("timeout"@),
    }
}

/// `r` is the entry for `server` after `outcome`, which took `elapsed_ms`.
pub open spec fn reports_lookup(
    r: DnsResult,
    server: Seq<char>,
    outcome: LookupOutcome,
    elapsed_ms: u128,
) -> bool {
    &&& r.server@ == server
    &&& r.status == (outcome is Resolved)
    &&& r.response_time_ms == elapsed_ms
    &&& match outcome_error(outcome) {
        Some(text) => r.error matches Some(e) && e@ == text,
        None => r.error is None,
    }
}

/// The entry for one resolver.
pub fn dns_result(server: String, outcome: LookupOutcome, elapsed_ms: u128) -> (r: DnsResult)
    ensures
        reports_lookup(r, server@, outcome, elapsed_ms),
{
    let (status, error) = match outcome {
        LookupOutcome::InvalidServer => (false, Some(String::from_str("invalid-server"))),
        LookupOutcome::Resolved => (true, None),
        LookupOutcome::Failed(text) => (false, Some(text)),
        LookupOutcome::TimedOut => (false, Some(String::from_str("timeout"))),
    };
    DnsResult { server, status, response_time_ms: elapsed_ms, error }
}

/// A test in progress: the domain to look up, the resolvers to ask, and the
/// entries of those that were asked so far.
pub struct DnsTest {
    pub domain: String,
    pub servers: Vec<String>,
    pub results: Vec<DnsResult>,
}

impl DnsTest {
    /// There is one entry for each resolver that was asked, in order, and
    /// the domain is not empty.
    pub open spec fn wf(self) -> bool {
        &&& self.domain@.len() > 0
        &&& self.results@.len() <= self.servers@.len()
        &&& forall|i: int|
            0 <= i < self.results@.len() ==> (#[trigger] self.results@[i]).server@
                == self.servers@[i]@
    }

    /// Every resolver was asked.
    pub open spec fn is_complete(self) -> bool {
        self.results@.len() == self.servers@.len()
    }

    /// The resolver that is asked next.
    pub open spec fn pending(self) -> Seq<char>
        recommends
            !self.is_complete(),
    {
        self.servers@[self.results@.len() as int]@
    }

    /// Starts a test of `domain` against the built-in resolvers and those of
    /// the caller. A domain of which nothing is left is rejected with the
    /// response `invalid-domain`, which holds no entry.
    pub fn begin(domain: &str, custom: &Option<Vec<String>>) -> (r: Result<DnsTest, DnsResponse>)
        ensures
            match r {
                Ok(test) => {
                    &&& sanitized(domain@).len() > 0
                    &&& test.wf()
                    &&& test.domain@ == sanitized(domain@)
                    &&& texts(test.servers@) == effective_servers(*custom)
                    &&& test.results@.len() == 0
                },
                Err(response) => {
                    &&& sanitized(domain@).len() == 0
                    &&& response.error matches Some(e) && e@ == "invalid-domain"@
                    &&& response.results@.len() == 0
                },
            },
    {
        let sanitized = sanitize_domain(domain);
        if sanitized.as_str().unicode_len() == 0 {
            return Err(
                DnsResponse { error: Some(String::from_str("invalid-domain")), results: Vec::new() },
            );
        }
        let servers = effective_server_list(custom);
        Ok(DnsTest { domain: sanitized, servers, results: Vec::new() })
    }

    /// Whether every resolver was asked.
    pub fn is_done(&self) -> (r: bool)
        requires
            self.wf(),
        ensures
            r == self.is_complete(),
    {
        self.results.len() == self.servers.len()
    }

    /// The resolver to ask next, or nothing once every resolver was asked.
    pub fn next_server(&self) -> (r: Option<&str>)
        requires
            self.wf(),
        ensures
            match r {
                Some(server) => !self.is_complete() && server@ == self.pending(),
                None => self.is_complete(),
            },
    {
        if self.results.len() < self.servers.len() {
            Some(self.servers[self.results.len()].as_str())
        } else {
            None
        }
    }

    /// Takes what came of asking the next resolver and adds its entry.
    pub fn record(&mut self, outcome: LookupOutcome, elapsed_ms: u128)
        requires
            old(self).wf(),
            !old(self).is_complete(),
        ensures
            final(self).wf(),
            final(self).domain == old(self).domain,
            final(self).servers == old(self).servers,
            final(self).results@.len() == old(self).results@.len() + 1,
            final(self).results@.drop_last() == old(self).results@,
            reports_lookup(final(self).results@.last(), old(self).pending(), outcome, elapsed_ms),
    {
        let ghost before = self.results@;
        let server = self.servers[self.results.len()].clone();
        let entry = dns_result(server, outcome, elapsed_ms);
        self.results.push(entry);
        proof {
            assert(self.results@.drop_last() =~= before);
            assert forall|i: int| 0 <= i < self.results@.len() implies (#[trigger] self.results@[i]).server@
                == self.servers@[i]@ by {
                if i < before.len() {
                    assert(self.results@[i] == before[i]);
                }
            }
        }
    }

    /// The response of a test in which every resolver was asked: one entry
    /// for each resolver, in the order of the resolvers.
    pub fn finish(self) -> (r: DnsResponse)
        requires
            self.wf(),
            self.is_complete(),
        ensures
            r.error is None,
            r.results == self.results,
            r.results@.len() == self.servers@.len(),
            forall|i: int|
                0 <= i < r.results@.len() ==> (#[trigger] r.results@[i]).server@
                    == self.servers@[i]@,
    {
        DnsResponse { error: None, results: self.results }
    }
}

/// `t` is an entry that the caller asked for: the trimmed form of one of the
/// caller's entries, and not blank.
pub open spec fn is_requested(custom: Seq<Seq<char>>, t: Seq<char>) -> bool {
    t.len() > 0 && exists|i: int| 0 <= i < custom.len() && #[trigger] trimmed(custom[i]) == t
}

/// The entries that the caller asked for.
pub open spec fn requested(custom: Option<Vec<String>>) -> Set<Seq<char>> {
    Set::new(|t: Seq<char>| is_requested(custom_texts(custom), t))
}

/// The built-in resolvers are eight different ones.
pub proof fn lemma_builtin_servers_distinct()
    ensures
        builtin_servers().len() == 8,
        builtin_servers().no_duplicates(),
{
    reveal_strlit("8.8.8.8");
    reveal_strlit("8.8.4.4");
    reveal_strlit("1.1.1.1");
    reveal_strlit("1.0.0.1");
    reveal_strlit("9.9.9.9");
    reveal_strlit("149.112.112.112");
    reveal_strlit("208.67.222.222");
    reveal_strlit("208.67.220.220");
    let b = builtin_servers();
    assert(b[0][0] == '8' && b[0][4] == '8');
    assert(b[1][0] == '8' && b[1][4] == '4');
    assert(b[2][0] == '1' && b[2][2] == '1');
    assert(b[3][0] == '1' && b[3][2] == '0');
    assert(b[4][0] == '9');
    assert(b[5][0] == '1' && b[5][2] == '9');
    assert(b[6][0] == '2' && b[6][9] == '2');
    assert(b[7][0] == '2' && b[7][9] == '0');
}

/// `first` is asked for in `custom` before `second` is: some entry is `first`
/// and neither it nor any entry before it is `second`.
pub open spec fn requested_before(custom: Seq<Seq<char>>, first: Seq<char>, second: Seq<char>) -> bool {
    exists|a: int|
        0 <= a < custom.len() && #[trigger] trimmed(custom[a]) == first && forall|b: int|
            0 <= b <= a ==> #[trigger] trimmed(custom[b]) != second
}

proof fn lemma_add_servers(list: Seq<Seq<char>>, custom: Seq<Seq<char>>)
    requires
        list.no_duplicates(),
    ensures
        add_servers(list, custom).no_duplicates(),
        list.is_prefix_of(add_servers(list, custom)),
        forall|t: Seq<char>| #[trigger]
            add_servers(list, custom).contains(t) <==> list.contains(t) || is_requested(custom, t),
        forall|i: int, j: int|
            list.len() <= i < j < add_servers(list, custom).len() ==> requested_before(
                custom,
                #[trigger] add_servers(list, custom)[i],
                #[trigger] add_servers(list, custom)[j],
            ),
    decreases custom.len(),
{
    if custom.len() > 0 {
        let first = trimmed(custom[0]);
        let next = add_server(list, custom[0]);
        let rest = custom.drop_first();
        let all = add_servers(list, custom);
        if next != list {
            assert forall|i: int, j: int|
                0 <= i < next.len() && 0 <= j < next.len() && i != j implies next[i] != next[j] by {
                if i == list.len() {
                    assert(list[j] == next[j]);
                } else if j == list.len() {
                    assert(list[i] == next[i]);
                }
            }
        }
        lemma_add_servers(next, rest);
        assert(list.is_prefix_of(all)) by {
            assert(list =~= next.subrange(0, list.len() as int));
            assert(next =~= all.subrange(0, next.len() as int));
            assert(list =~= all.subrange(0, list.len() as int));
        }
        assert forall|t: Seq<char>| #[trigger]
            all.contains(t) <==> list.contains(t) || is_requested(custom, t) by {
            assert(all.contains(t) <==> next.contains(t) || is_requested(rest, t));
            if is_requested(rest, t) {
                let i = choose|i: int| 0 <= i < rest.len() && #[trigger] trimmed(rest[i]) == t;
                assert(trimmed(custom[i + 1]) == t);
            }
            if is_requested(custom, t) && !is_requested(rest, t) {
                let i = choose|i: int| 0 <= i < custom.len() && #[trigger] trimmed(custom[i]) == t;
                if i > 0 {
                    assert(trimmed(rest[i - 1]) == t);
                }
                assert(t == first);
                if next == list {
                    assert(list.contains(t));
                } else {
                    assert(next[list.len() as int] == t);
                }
            }
            if next.contains(t) && !list.contains(t) {
                let i = choose|i: int| 0 <= i < next.len() && next[i] == t;
                assert(i == list.len());
                assert(trimmed(custom[0]) == t);
            }
            if list.contains(t) {
                let i = choose|i: int| 0 <= i < list.len() && list[i] == t;
                assert(next[i] == t);
            }
        }
        assert forall|i: int, j: int| list.len() <= i < j < all.len() implies requested_before(
            custom,
            #[trigger] all[i],
            #[trigger] all[j],
        ) by {
            // the entry at the head of `custom` is not `all[j]`
            assert(first != all[j]) by {
                if next == list {
                    if first.len() > 0 {
                        let k = choose|k: int| 0 <= k < list.len() && list[k] == first;
                        assert(all.subrange(0, list.len() as int)[k] == all[k]);
                    } else {
                        assert(all.contains(all[j]));
                        if list.contains(all[j]) {
                            let k = choose|k: int| 0 <= k < list.len() && list[k] == all[j];
                            assert(all.subrange(0, list.len() as int)[k] == all[k]);
                        }
                    }
                } else {
                    assert(next[list.len() as int] == first);
                    assert(all[list.len() as int] == first);
                }
            }
            if i >= next.len() {
                assert(requested_before(rest, all[i], all[j]));
                let a = choose|a: int|
                    0 <= a < rest.len() && #[trigger] trimmed(rest[a]) == all[i] && forall|b: int|
                        0 <= b <= a ==> #[trigger] trimmed(rest[b]) != all[j];
                assert(trimmed(custom[a + 1]) == all[i]);
                assert forall|b: int| 0 <= b <= a + 1 implies #[trigger] trimmed(custom[b])
                    != all[j] by {
                    if b > 0 {
                        assert(trimmed(rest[b - 1]) != all[j]);
                    }
                }
            } else {
                assert(all[i] == first);
                assert(trimmed(custom[0]) == all[i]);
            }
        }
    }
}

/// The resolvers of a test are the built-in ones, in their order, followed
/// by what the caller asked for beyond them, in the order in which the caller
/// first asked for each; no resolver stands twice; so there are as many as
/// the built-in ones and the caller's together hold different strings.
pub proof fn lemma_effective_servers(custom: Option<Vec<String>>)
    ensures
        effective_servers(custom).no_duplicates(),
        builtin_servers().is_prefix_of(effective_servers(custom)),
        effective_servers(custom).to_set() == builtin_servers().to_set().union(requested(custom)),
        effective_servers(custom).len() == builtin_servers().to_set().union(
            requested(custom),
        ).len(),
        forall|i: int, j: int|
            8 <= i < j < effective_servers(custom).len() ==> requested_before(
                custom_texts(custom),
                #[trigger] effective_servers(custom)[i],
                #[trigger] effective_servers(custom)[j],
            ),
{
    lemma_builtin_servers_distinct();
    let all = effective_servers(custom);
    lemma_add_servers(builtin_servers(), custom_texts(custom));
    assert forall|t: Seq<char>|
        all.to_set().contains(t) <==> builtin_servers().to_set().union(requested(custom)).contains(
            t,
        ) by {
        assert(all.to_set().contains(t) <==> all.contains(t));
        assert(builtin_servers().to_set().contains(t) <==> builtin_servers().contains(t));
    }
    assert(all.to_set() =~= builtin_servers().to_set().union(requested(custom)));
    all.unique_seq_to_set();
}

/// A test that was begun and then carried through reports on as many
/// resolvers as the built-in ones and the caller's together hold different
/// strings, each in its place.
pub proof fn lemma_one_result_per_server(
    test: DnsTest,
    custom: Option<Vec<String>>,
    response: DnsResponse,
)
    requires
        test.wf(),
        test.is_complete(),
        texts(test.servers@) == effective_servers(custom),
        response.results == test.results,
    ensures
        response.results@.len() == builtin_servers().to_set().union(requested(custom)).len(),
        forall|i: int|
            0 <= i < response.results@.len() ==> (#[trigger] response.results@[i]).server@
                == effective_servers(custom)[i],
        forall|i: int|
            0 <= i < 8 ==> (#[trigger] response.results@[i]).server@ == builtin_servers()[i],
{
    lemma_effective_servers(custom);
    let all = effective_servers(custom);
    assert(test.servers@.len() == all.len());
    assert forall|i: int| 0 <= i < response.results@.len() implies (#[trigger] response.results@[i]).server@
        == all[i] by {
        assert(texts(test.servers@)[i] == test.servers@[i]@);
    }
    assert forall|i: int| 0 <= i < 8 implies (#[trigger] response.results@[i]).server@
        == builtin_servers()[i] by {
        assert(all.subrange(0, 8)[i] == all[i]);
    }
}

} // verus!
