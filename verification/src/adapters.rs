//! The DNS servers of the network adapters: the commands that read and set
//! them, and the short-lived cache of what was read.
//!
//! The commands are run by the caller, on a platform that has them.

use vstd::prelude::*;
use vstd::string::*;
use crate::json::{json_document, parse_document, Json};
use crate::text::{
    lemma_text_le_total, lemma_text_le_transitive, text_before_or_same, text_le, texts, trim,
    trimmed,
};

verus! {

/// Age in milliseconds beyond which a cached list counts as absent.
pub const DNS_ADAPTER_CACHE_TTL_MS: u128 = 5000;

/// A network adapter and the DNS servers that are set for it.
#[derive(Debug)]
pub struct DnsAdapter {
    pub name: String,
    pub dns: Vec<String>,
}

/// What a change of an adapter's DNS servers reports.
pub struct DnsManagerResult {
    pub success: bool,
    pub error: Option<String>,
}

/// The list of adapters that was read last, with the time of the reading in
/// milliseconds.
pub struct AdapterCache {
    pub entry: Option<(u128, Vec<DnsAdapter>)>,
}

/// A list read at `cached_at` is still good at `now`.
pub open spec fn is_fresh(cached_at: u128, now: u128) -> bool {
    now <= cached_at || now - cached_at <= DNS_ADAPTER_CACHE_TTL_MS
}

/// The cache that a process starts with: empty.
pub fn dns_adapter_cache() -> (r: AdapterCache)
    ensures
        r.entry is None,
{
    AdapterCache { entry: None }
}

/// Empties the cache, so that the next listing reads anew.
pub fn clear_dns_adapter_cache(cache: &mut AdapterCache)
    ensures
        final(cache).entry is None,
{
    cache.entry = None;
}

impl AdapterCache {
    /// The cached list, where there is one that is still good and the caller
    /// does not insist on a new reading.
    pub fn lookup(&self, now: u128, force_refresh: bool) -> (r: Option<&Vec<DnsAdapter>>)
        ensures
            match r {
                Some(list) => {
                    &&& !force_refresh
                    &&& self.entry matches Some(e) && is_fresh(e.0, now) && e.1 == *list
                },
                None => force_refresh || match self.entry {
                    Some(e) => !is_fresh(e.0, now),
                    None => true,
                },
            },
    {
        if force_refresh {
            return None;
        }
        match &self.entry {
            Some(e) => {
                if now <= e.0 || now - e.0 <= DNS_ADAPTER_CACHE_TTL_MS {
                    Some(&e.1)
                } else {
                    None
                }
            },
            None => None,
        }
    }

    /// Replaces what is cached by a list that was read at `now`.
    pub fn store(&mut self, now: u128, adapters: Vec<DnsAdapter>)
        ensures
            final(self).entry == Some((now, adapters)),
    {
        self.entry = Some((now, adapters));
    }
}

/// `s` with every single quote doubled.
pub open spec fn quote_doubled(s: Seq<char>) -> Seq<char>
    decreases s.len(),
{
    if s.len() == 0 {
        Seq::empty()
    } else if s.last() == '\'' {
        quote_doubled(s.drop_last()) + seq!['\'', '\'']
    } else {
        quote_doubled(s.drop_last()).push(s.last())
    }
}

/// Makes a value safe to stand between single quotes in a shell command.
pub fn ps_escape_single(value: &str) -> (r: String)
    ensures
        r@ == quote_doubled(value@),
{
    let n: usize = value.unicode_len();
    let mut out = String::new();
    let mut i: usize = 0;
    assert(value@.take(0) =~= Seq::<char>::empty());
    while i < n
        invariant
            i <= n,
            n == value@.len(),
            out@ == quote_doubled(value@.take(i as int)),
        decreases n - i,
    {
        proof {
            let next = value@.take(i + 1);
            assert(next.drop_last() =~= value@.take(i as int));
            assert(next.last() == value@[i as int]);
            reveal_strlit("''");
            assert("''"@ =~= seq!['\'', '\'']);
            assert(value@.subrange(i as int, i + 1) =~= seq![value@[i as int]]);
        }
        if value.get_char(i) == '\'' {
            out.append("''");
        } else {
            out.append(value.substring_char(i, i + 1));
            assert(out@ =~= quote_doubled(value@.take(i as int)).push(value@[i as int]));
        }
        i = i + 1;
    }
    assert(value@.take(n as int) =~= value@);
    out
}

/// `s` between single quotes, made safe for that.
pub open spec fn quoted(s: Seq<char>) -> Seq<char> {
    "'"@ + quote_doubled(s) + "'"@
}

fn quote(value: &str) -> (r: String)
    ensures
        r@ == quoted(value@),
{
    let escaped = ps_escape_single(value);
    String::from_str("'").concat(escaped.as_str()).concat("'")
}

/// The command that reads the adapters and their DNS servers.
pub fn list_adapters_command() -> (r: String)
    ensures
        r@
            == "Get-DnsClientServerAddress -AddressFamily IPv4 | Select-Object InterfaceAlias,ServerAddresses | ConvertTo-Json -Depth 4 -Compress"@,
{
    String::from_str(
        "Get-DnsClientServerAddress -AddressFamily IPv4 | Select-Object InterfaceAlias,ServerAddresses | ConvertTo-Json -Depth 4 -Compress",
    )
}

/// The servers of a command: the primary one, and the secondary one where
/// there is one that is not blank.
pub open spec fn server_list(primary: Seq<char>, secondary: Option<String>) -> Seq<char> {
    match secondary {
        Some(s) => if trimmed(s@).len() > 0 {
            quoted(primary) + ","@ + quoted(trimmed(s@))
        } else {
            quoted(primary)
        },
        None => quoted(primary),
    }
}

/// The command that sets the DNS servers of an adapter, for a name and a
/// primary server that are already trimmed.
pub open spec fn set_command(adapter: Seq<char>, primary: Seq<char>, secondary: Option<String>) -> Seq<
    char,
> {
    "Set-DnsClientServerAddress -InterfaceAlias "@ + quoted(adapter) + " -ServerAddresses @("@
        + server_list(primary, secondary) + ")"@
}

/// The command that gives an adapter back its automatic DNS servers, for a
/// name that is already trimmed.
pub open spec fn reset_command(adapter: Seq<char>) -> Seq<char> {
    "Set-DnsClientServerAddress -InterfaceAlias "@ + quoted(adapter) + " -ResetServerAddresses"@
}

/// What a request to change an adapter leads to.
pub enum AdapterStep {
    /// This command is to be run.
    Run(String),
    /// Nothing is run: this is the result.
    Done(DnsManagerResult),
}

/// `r` reports a failure with the text `text`.
pub open spec fn reports_error(r: DnsManagerResult, text: Seq<char>) -> bool {
    &&& !r.success
    &&& r.error matches Some(e) && e@ == text
}

fn failure(text: String) -> (r: DnsManagerResult)
    ensures
        reports_error(r, text@),
{
    DnsManagerResult { success: false, error: Some(text) }
}

/// Decides a request to set the DNS servers of an adapter. On a platform
/// without the commands the result is `unsupported-platform`. A blank adapter
/// name or a blank primary server is `invalid-input`. Else the command is
/// due, with every value trimmed and quoted.
pub fn set_adapter_dns(
    supported: bool,
    adapter_name: &str,
    primary_dns: &str,
    secondary_dns: &Option<String>,
) -> (r: AdapterStep)
    ensures
        match r {
            AdapterStep::Done(result) => if !supported {
                reports_error(result, "unsupported-platform"@)
            } else {
                (trimmed(adapter_name@).len() == 0 || trimmed(primary_dns@).len() == 0)
                    && reports_error(result, "invalid-input"@)
            },
            AdapterStep::Run(command) => supported && trimmed(adapter_name@).len() > 0 && trimmed(
                primary_dns@,
            ).len() > 0 && command@ == set_command(
                trimmed(adapter_name@),
                trimmed(primary_dns@),
                *secondary_dns,
            ),
        },
{
    if !supported {
        return AdapterStep::Done(failure(String::from_str("unsupported-platform")));
    }
    let adapter = trim(adapter_name);
    let primary = trim(primary_dns);
    if adapter.unicode_len() == 0 || primary.unicode_len() == 0 {
        return AdapterStep::Done(failure(String::from_str("invalid-input")));
    }
    let mut servers = quote(primary);
    match secondary_dns {
        Some(s) => {
            let second = trim(s.as_str());
            if second.unicode_len() > 0 {
                servers = servers.concat(",").concat(quote(second).as_str());
            }
        },
        None => {},
    }
    let command = String::from_str("Set-DnsClientServerAddress -InterfaceAlias ").concat(
        quote(adapter).as_str(),
    ).concat(" -ServerAddresses @(").concat(servers.as_str()).concat(")");
    AdapterStep::Run(command)
}

/// Decides a request to give an adapter back its automatic DNS servers.
pub fn reset_adapter_dns(supported: bool, adapter_name: &str) -> (r: AdapterStep)
    ensures
        match r {
            AdapterStep::Done(result) => if !supported {
                reports_error(result, "unsupported-platform"@)
            } else {
                trimmed(adapter_name@).len() == 0 && reports_error(result, "invalid-input"@)
            },
            AdapterStep::Run(command) => supported && trimmed(adapter_name@).len() > 0 && command@
                == reset_command(trimmed(adapter_name@)),
        },
{
    if !supported {
        return AdapterStep::Done(failure(String::from_str("unsupported-platform")));
    }
    let adapter = trim(adapter_name);
    if adapter.unicode_len() == 0 {
        return AdapterStep::Done(failure(String::from_str("invalid-input")));
    }
    let command = String::from_str("Set-DnsClientServerAddress -InterfaceAlias ").concat(
        quote(adapter).as_str(),
    ).concat(" -ResetServerAddresses");
    AdapterStep::Run(command)
}

/// The result of a change once its command was run. After a command that
/// succeeded the cache is empty, so that the next listing reads anew; after
/// one that failed the cache is as it was and the error is the command's.
pub fn after_command(cache: &mut AdapterCache, outcome: Result<String, String>) -> (r:
    DnsManagerResult)
    ensures
        match outcome {
            Ok(_) => r.success && r.error is None && final(cache).entry is None,
            Err(text) => reports_error(r, text@) && *final(cache) == *old(cache),
        },
{
    match outcome {
        Ok(_) => {
            clear_dns_adapter_cache(cache);
            DnsManagerResult { success: true, error: None }
        },
        Err(text) => failure(text),
    }
}

/// An adapter as a plain value: its name and its servers.
pub type AdapterView = (Seq<char>, Seq<Seq<char>>);

/// The name and the servers of an adapter.
pub open spec fn adapter_view(adapter: DnsAdapter) -> AdapterView {
    (adapter.name@, texts(adapter.dns@))
}

/// The names and servers of a list of adapters.
pub open spec fn adapter_views(list: Seq<DnsAdapter>) -> Seq<AdapterView> {
    Seq::new(list.len(), |i: int| adapter_view(list[i]))
}

/// The name of the adapter that an entry of the listing describes, trimmed;
/// empty where the entry names none.
pub open spec fn entry_name(entry: Json) -> Seq<char> {
    match entry.member("InterfaceAlias"@) {
        Some(m) => match m.text() {
            Some(t) => trimmed(t),
            None => Seq::empty(),
        },
        None => Seq::empty(),
    }
}

/// The strings among `values`, trimmed, without the blank ones.
pub open spec fn address_texts(values: Seq<Json>) -> Seq<Seq<char>>
    decreases values.len(),
{
    if values.len() == 0 {
        Seq::empty()
    } else {
        let before = address_texts(values.drop_last());
        match values.last().text() {
            Some(t) => if trimmed(t).len() > 0 {
                before.push(trimmed(t))
            } else {
                before
            },
            None => before,
        }
    }
}

/// The servers that an entry of the listing gives.
pub open spec fn entry_addresses(entry: Json) -> Seq<Seq<char>> {
    match entry.member("ServerAddresses"@) {
        Some(m) => match m.items() {
            Some(values) => address_texts(values),
            None => Seq::empty(),
        },
        None => Seq::empty(),
    }
}

/// `list`, which is in order, with `x` put behind the last adapter whose
/// name does not stand after the name of `x`.
pub open spec fn insert_by_name(list: Seq<AdapterView>, x: AdapterView) -> Seq<AdapterView>
    decreases list.len(),
{
    if list.len() == 0 {
        seq![x]
    } else if text_le(list.last().0, x.0) {
        list.push(x)
    } else {
        insert_by_name(list.drop_last(), x).push(list.last())
    }
}

/// The adapters that the entries describe, ordered by name; adapters of one
/// name stay in the order of their entries. An entry without a name
/// describes none.
pub open spec fn adapters_listed(entries: Seq<Json>) -> Seq<AdapterView>
    decreases entries.len(),
{
    if entries.len() == 0 {
        Seq::empty()
    } else {
        let before = adapters_listed(entries.drop_last());
        let entry = entries.last();
        if entry_name(entry).len() > 0 {
            insert_by_name(before, (entry_name(entry), entry_addresses(entry)))
        } else {
            before
        }
    }
}

/// The adapters of a listing: a document that is an array has one entry for
/// each element, any other document is itself the one entry.
pub open spec fn adapters_of_document(doc: Json) -> Seq<AdapterView> {
    match doc.items() {
        Some(entries) => adapters_listed(entries),
        None => adapters_listed(seq![doc]),
    }
}

/// The adapters in the output of the listing command: none where the output
/// is empty or no JSON document.
pub open spec fn adapters_of_output(output: Seq<char>) -> Seq<AdapterView> {
    if output.len() == 0 {
        Seq::empty()
    } else {
        match json_document(output) {
            Some(doc) => adapters_of_document(doc),
            None => Seq::empty(),
        }
    }
}

/// No adapter of the list stands before one whose name stands before its
/// own.
pub open spec fn ordered_by_name(list: Seq<AdapterView>) -> bool {
    forall|i: int, j: int|
        0 <= i < j < list.len() ==> text_le((#[trigger] list[i]).0, (#[trigger] list[j]).0)
}

/// The place at which `insert_by_name` puts `x`.
pub open spec fn insert_place(list: Seq<AdapterView>, x: AdapterView) -> int
    decreases list.len(),
{
    if list.len() == 0 {
        0
    } else if text_le(list.last().0, x.0) {
        list.len() as int
    } else {
        insert_place(list.drop_last(), x)
    }
}

/// An adapter that is put into an ordered list goes to one place and moves
/// no other: the list stays ordered, and the adapters that were in it keep
/// their order.
pub proof fn lemma_insert_by_name(list: Seq<AdapterView>, x: AdapterView)
    requires
        ordered_by_name(list),
    ensures
        0 <= insert_place(list, x) <= list.len(),
        insert_by_name(list, x) == list.insert(insert_place(list, x), x),
        ordered_by_name(insert_by_name(list, x)),
{
    let p = insert_place(list, x);
    lemma_insert_place(list, x);
    lemma_insert_position(list, x, p);
    let r = list.insert(p, x);
    assert forall|i: int, j: int| 0 <= i < j < r.len() implies text_le(
        (#[trigger] r[i]).0,
        (#[trigger] r[j]).0,
    ) by {
        if j < p {
            assert(r[i] == list[i] && r[j] == list[j]);
        } else if j == p {
            assert(r[i] == list[i]);
            if i < p - 1 {
                lemma_text_le_transitive(list[i].0, list[p - 1].0, x.0);
            }
        } else if i < p {
            assert(r[i] == list[i] && r[j] == list[j - 1]);
            if i < j - 1 {
            }
        } else if i == p {
            assert(r[j] == list[j - 1]);
            lemma_text_le_total(list[j - 1].0, x.0);
        } else {
            assert(r[i] == list[i - 1] && r[j] == list[j - 1]);
        }
    }
}

proof fn lemma_insert_place(list: Seq<AdapterView>, x: AdapterView)
    ensures
        0 <= insert_place(list, x) <= list.len(),
        forall|j: int|
            insert_place(list, x) <= j < list.len() ==> !text_le((#[trigger] list[j]).0, x.0),
        insert_place(list, x) > 0 ==> text_le(list[insert_place(list, x) - 1].0, x.0),
    decreases list.len(),
{
    if list.len() > 0 && !text_le(list.last().0, x.0) {
        let shorter = list.drop_last();
        lemma_insert_place(shorter, x);
        assert forall|j: int| insert_place(list, x) <= j < list.len() implies !text_le(
            (#[trigger] list[j]).0,
            x.0,
        ) by {
            if j < shorter.len() {
                assert(shorter[j] == list[j]);
            }
        }
        if insert_place(list, x) > 0 {
            assert(shorter[insert_place(list, x) - 1] == list[insert_place(list, x) - 1]);
        }
    }
}

/// The adapters of a listing come out ordered by name, at most one for each
/// entry.
pub proof fn lemma_adapters_listed_ordered(entries: Seq<Json>)
    ensures
        ordered_by_name(adapters_listed(entries)),
        adapters_listed(entries).len() <= entries.len(),
    decreases entries.len(),
{
    if entries.len() > 0 {
        let before = adapters_listed(entries.drop_last());
        let entry = entries.last();
        lemma_adapters_listed_ordered(entries.drop_last());
        if entry_name(entry).len() > 0 {
            lemma_insert_by_name(before, (entry_name(entry), entry_addresses(entry)));
        }
    }
}

proof fn lemma_insert_position(list: Seq<AdapterView>, x: AdapterView, pos: int)
    requires
        0 <= pos <= list.len(),
        forall|j: int| pos <= j < list.len() ==> !text_le((#[trigger] list[j]).0, x.0),
        pos > 0 ==> text_le(list[pos - 1].0, x.0),
    ensures
        insert_by_name(list, x) == list.insert(pos, x),
    decreases list.len() - pos,
{
    if pos == list.len() {
        if list.len() == 0 {
            assert(seq![x] =~= list.insert(pos, x));
        } else {
            assert(list.push(x) =~= list.insert(pos, x));
        }
    } else {
        assert(!text_le(list.last().0, x.0));
        let shorter = list.drop_last();
        assert forall|j: int| pos <= j < shorter.len() implies !text_le(
            (#[trigger] shorter[j]).0,
            x.0,
        ) by {
            assert(shorter[j] == list[j]);
        }
        lemma_insert_position(shorter, x, pos);
        assert(shorter.insert(pos, x).push(list.last()) =~= list.insert(pos, x));
    }
}

fn entry_servers(entry: &Json) -> (dns: Vec<String>)
    ensures
        texts(dns@) == entry_addresses(*entry),
{
    let mut dns: Vec<String> = Vec::new();
    match entry.get("ServerAddresses") {
        Some(m) => match m.as_array() {
            Some(values) => {
                let mut i: usize = 0;
                assert(texts(dns@) =~= address_texts(values@.take(0)));
                while i < values.len()
                    invariant
                        i <= values@.len(),
                        texts(dns@) == address_texts(values@.take(i as int)),
                    decreases values@.len() - i,
                {
                    proof {
                        let next = values@.take(i + 1);
                        assert(next.drop_last() =~= values@.take(i as int));
                        assert(next.last() == values@[i as int]);
                    }
                    match values[i].as_str() {
                        Some(t) => {
                            let address = trim(t);
                            if address.unicode_len() > 0 {
                                let ghost before = texts(dns@);
                                dns.push(String::from_str(address));
                                assert(texts(dns@) =~= before.push(address@));
                            }
                        },
                        None => {},
                    }
                    i = i + 1;
                }
                assert(values@.take(values@.len() as int) =~= values@);
            },
            None => {
                assert(texts(dns@) =~= Seq::<Seq<char>>::empty());
            },
        },
        None => {
            assert(texts(dns@) =~= Seq::<Seq<char>>::empty());
        },
    }
    dns
}

/// Adds the adapter that an entry describes, if it describes one, at its
/// place in the order of names.
fn add_adapter(list: &mut Vec<DnsAdapter>, entry: &Json)
    ensures
        adapter_views(final(list)@) == if entry_name(*entry).len() > 0 {
            insert_by_name(
                adapter_views(old(list)@),
                (entry_name(*entry), entry_addresses(*entry)),
            )
        } else {
            adapter_views(old(list)@)
        },
{
    let name: &str = match entry.get("InterfaceAlias") {
        Some(m) => match m.as_str() {
            Some(t) => trim(t),
            None => {
                proof {
                    reveal_strlit("");
                }
                ""
            },
        },
        None => {
            proof {
                reveal_strlit("");
            }
            ""
        },
    };
    assert(name@ =~= entry_name(*entry));
    if name.unicode_len() == 0 {
        return ;
    }
    let dns = entry_servers(entry);
    let ghost before = adapter_views(list@);
    let ghost x: AdapterView = (name@, texts(dns@));
    let mut pos: usize = list.len();
    while pos > 0 && !text_before_or_same(list[pos - 1].name.as_str(), name)
        invariant
            pos <= list@.len(),
            before == adapter_views(list@),
            forall|j: int| pos <= j < before.len() ==> !text_le((#[trigger] before[j]).0, name@),
        decreases pos,
    {
        pos = pos - 1;
    }
    proof {
        lemma_insert_position(before, x, pos as int);
    }
    let adapter = DnsAdapter { name: String::from_str(name), dns };
    list.insert(pos, adapter);
    assert(adapter_views(list@) =~= before.insert(pos as int, x));
}

/// The adapters that a listing describes, ordered by name.
pub fn adapters_in_document(doc: &Json) -> (list: Vec<DnsAdapter>)
    ensures
        adapter_views(list@) == adapters_of_document(*doc),
{
    let mut list: Vec<DnsAdapter> = Vec::new();
    match doc.as_array() {
        Some(entries) => {
            let mut i: usize = 0;
            assert(adapter_views(list@) =~= adapters_listed(entries@.take(0)));
            while i < entries.len()
                invariant
                    i <= entries@.len(),
                    adapter_views(list@) == adapters_listed(entries@.take(i as int)),
                decreases entries@.len() - i,
            {
                proof {
                    let next = entries@.take(i + 1);
                    assert(next.drop_last() =~= entries@.take(i as int));
                    assert(next.last() == entries@[i as int]);
                }
                add_adapter(&mut list, &entries[i]);
                i = i + 1;
            }
            assert(entries@.take(entries@.len() as int) =~= entries@);
        },
        None => {
            proof {
                let one = seq![*doc];
                assert(one.drop_last() =~= Seq::<Json>::empty());
                assert(one.last() == *doc);
                assert(adapter_views(list@) =~= adapters_listed(one.drop_last()));
            }
            add_adapter(&mut list, doc);
        },
    }
    list
}

/// Reads the output of the listing command.
pub fn parse_dns_adapters_from_output(output: &str) -> (list: Vec<DnsAdapter>)
    ensures
        adapter_views(list@) == adapters_of_output(output@),
{
    if output.unicode_len() == 0 {
        let list: Vec<DnsAdapter> = Vec::new();
        assert(adapter_views(list@) =~= Seq::<AdapterView>::empty());
        return list;
    }
    match parse_document(output) {
        Some(doc) => adapters_in_document(&doc),
        None => {
            let list: Vec<DnsAdapter> = Vec::new();
            assert(adapter_views(list@) =~= Seq::<AdapterView>::empty());
            list
        },
    }
}

/// What a request for the list of adapters leads to.
pub enum ListStep<'a> {
    /// The platform has no adapters to list: the list is empty.
    Unsupported,
    /// The list that is cached is good: it is the answer.
    Known(&'a Vec<DnsAdapter>),
    /// This command is to be run, and its output read.
    Run(String),
}

/// Decides a request for the list of adapters at the time `now`: the cached
/// list where it is still good and no new reading is asked for, else the
/// listing command.
pub fn list_dns_adapters<'a>(
    supported: bool,
    cache: &'a AdapterCache,
    now: u128,
    force_refresh: bool,
) -> (r: ListStep<'a>)
    ensures
        match r {
            ListStep::Unsupported => !supported,
            ListStep::Known(list) => {
                &&& supported
                &&& !force_refresh
                &&& cache.entry matches Some(e) && is_fresh(e.0, now) && e.1 == *list
            },
            ListStep::Run(command) => {
                &&& supported
                &&& force_refresh || match cache.entry {
                    Some(e) => !is_fresh(e.0, now),
                    None => true,
                }
                &&& command@
                    == "Get-DnsClientServerAddress -AddressFamily IPv4 | Select-Object InterfaceAlias,ServerAddresses | ConvertTo-Json -Depth 4 -Compress"@
            },
        },
{
    if !supported {
        return ListStep::Unsupported;
    }
    match cache.lookup(now, force_refresh) {
        Some(list) => ListStep::Known(list),
        None => ListStep::Run(list_adapters_command()),
    }
}

/// Takes what came of the listing command at the time `now`. The adapters in
/// the output of a command that succeeded replace what is cached, and the
/// answer is `true`; after a command that failed the cache is as it was, the
/// answer is `false`, and the list to report is empty.
pub fn after_listing(cache: &mut AdapterCache, now: u128, outcome: Result<String, String>) -> (read:
    bool)
    ensures
        match outcome {
            Ok(output) => {
                &&& read
                &&& final(cache).entry matches Some(e) && e.0 == now && adapter_views(e.1@)
                    == adapters_of_output(output@)
            },
            Err(_) => !read && *final(cache) == *old(cache),
        },
{
    match outcome {
        Ok(output) => {
            let adapters = parse_dns_adapters_from_output(output.as_str());
            cache.store(now, adapters);
            true
        },
        Err(_) => false,
    }
}

} // verus!
