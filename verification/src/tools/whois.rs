//! The WHOIS resolution chain: the record built from an RDAP document, the
//! record read from the output of a command-line WHOIS client, and the
//! steps that lead from one source to the next.

use crate::text::{
    holds, lemma_deep_view_push, lowercase_of, text_view, trim_text, trimmed,
};
use crate::tools::rdap::{
    creation_actions, event_date, expiry_actions, extract_creation_date, extract_expiry_date,
    extract_nameservers, extract_registrar, extract_status as rdap_status, extract_updated_date,
    nameservers_of, registrar_of, status_of, updated_actions, RdapDomain,
};
use regex::Regex;
use vstd::prelude::*;

verus! {

/// The registration record of a domain.
#[derive(Debug)]
pub struct WhoisInfo {
    pub domain: String,
    pub registrar: Option<String>,
    pub registrant: Option<String>,
    pub creation_date: Option<String>,
    pub expiry_date: Option<String>,
    pub updated_date: Option<String>,
    pub name_servers: Vec<String>,
    pub status: Vec<String>,
    pub raw_data: String,
    pub rdap_available: bool,
}

/// The mathematical value of a `WhoisInfo`.
pub struct WhoisInfoView {
    pub domain: Seq<char>,
    pub registrar: Option<Seq<char>>,
    pub registrant: Option<Seq<char>>,
    pub creation_date: Option<Seq<char>>,
    pub expiry_date: Option<Seq<char>>,
    pub updated_date: Option<Seq<char>>,
    pub name_servers: Seq<Seq<char>>,
    pub status: Seq<Seq<char>>,
    pub raw_data: Seq<char>,
    pub rdap_available: bool,
}

impl View for WhoisInfo {
    type V = WhoisInfoView;

    open spec fn view(&self) -> WhoisInfoView {
        WhoisInfoView {
            domain: self.domain@,
            registrar: text_view(self.registrar),
            registrant: text_view(self.registrant),
            creation_date: text_view(self.creation_date),
            expiry_date: text_view(self.expiry_date),
            updated_date: text_view(self.updated_date),
            name_servers: self.name_servers.deep_view(),
            status: self.status.deep_view(),
            raw_data: self.raw_data@,
            rdap_available: self.rdap_available,
        }
    }
}

/// Names the text of group 1 in the first match of the regular expression
/// `pattern` in `text`: nothing where the pattern does not compile, where
/// it matches nowhere, or where group 1 takes no part in the match.
pub uninterp spec fn first_capture(pattern: Seq<char>, text: Seq<char>) -> Option<Seq<char>>;

/// Names, for the successive non-overlapping matches of the regular
/// expression `pattern` in `text`, the text of group 1 in each, in order:
/// nothing for a match in which group 1 takes no part, and no entry at all
/// where the pattern does not compile.
pub uninterp spec fn all_captures(pattern: Seq<char>, text: Seq<char>) -> Seq<Option<Seq<char>>>;

/// Compiles `pattern` with `regex::Regex::new` and searches `text` with
/// `Regex::captures`; the result is group 1 of the first match, which the
/// contract only names.
#[verifier::external_body]
fn capture_first(pattern: &str, text: &str) -> (r: Option<String>)
    ensures
        text_view(r) == first_capture(pattern@, text@),
{
    let re = Regex::new(pattern).ok()?;
    let caps = re.captures(text)?;
    caps.get(1).map(|m| m.as_str().to_string())
}

/// Compiles `pattern` with `regex::Regex::new` and walks the matches in
/// `text` with `Regex::captures_iter`; the result is group 1 of each match
/// in order, which the contract only names.
#[verifier::external_body]
fn capture_all(pattern: &str, text: &str) -> (r: Vec<Option<String>>)
    ensures
        r.deep_view() == all_captures(pattern@, text@),
{
    match Regex::new(pattern) {
        Ok(re) => re.captures_iter(text).map(|c| c.get(1).map(|m| m.as_str().to_string())).collect(),
        Err(_) => Vec::new(),
    }
}

/// The first candidate at or after `from` that is present, trimmed.
pub open spec fn first_present(candidates: Seq<Option<Seq<char>>>, from: int) -> Option<Seq<char>>
    decreases candidates.len() - from,
{
    if 0 <= from < candidates.len() {
        match candidates[from] {
            Some(found) => Some(trimmed(found)),
            None => first_present(candidates, from + 1),
        }
    } else {
        None
    }
}

/// What each pattern captures first in `text`, pattern by pattern.
pub open spec fn first_captures(text: Seq<char>, patterns: Seq<Seq<char>>) -> Seq<
    Option<Seq<char>>,
> {
    Seq::new(patterns.len(), |i: int| first_capture(patterns[i], text))
}

/// The value of a field: what the first pattern that captures anything
/// captures, trimmed.
pub open spec fn field_of(text: Seq<char>, patterns: Seq<Seq<char>>) -> Option<Seq<char>> {
    first_present(first_captures(text, patterns), 0)
}

/// The first candidate that is present, trimmed.
pub fn select_field(candidates: &Vec<Option<String>>) -> (r: Option<String>)
    ensures
        text_view(r) == first_present(candidates.deep_view(), 0),
{
    let mut i: usize = 0;
    while i < candidates.len()
        invariant
            i <= candidates.len(),
            first_present(candidates.deep_view(), 0) == first_present(
                candidates.deep_view(),
                i as int,
            ),
        decreases candidates.len() - i,
    {
        assert(candidates.deep_view()[i as int] == candidates@[i as int].deep_view());
        match &candidates[i] {
            Some(found) => {
                return Some(trim_text(found.as_str()));
            },
            None => {},
        }
        i += 1;
    }
    None
}

/// The value of a field of `text`: the patterns are tried in order, and
/// the first that captures anything gives the value.
pub fn extract_field(text: &str, patterns: &Vec<&str>) -> (r: Option<String>)
    ensures
        text_view(r) == field_of(text@, patterns.deep_view()),
{
    let mut candidates: Vec<Option<String>> = Vec::new();
    let mut i: usize = 0;
    let ghost all = first_captures(text@, patterns.deep_view());
    assert(candidates.deep_view() =~= all.take(0));
    while i < patterns.len()
        invariant
            i <= patterns.len(),
            all == first_captures(text@, patterns.deep_view()),
            candidates.deep_view() == all.take(i as int),
        decreases patterns.len() - i,
    {
        let found = capture_first(patterns[i], text);
        let ghost before = candidates;
        candidates.push(found);
        proof {
            lemma_deep_view_push(before, candidates, found);
            assert(patterns.deep_view()[i as int] == patterns@[i as int]@);
            assert(found.deep_view() == text_view(found));
            assert(all.take(i as int).push(all[i as int]) =~= all.take(i as int + 1));
        }
        i += 1;
    }
    assert(all.take(patterns@.len() as int) =~= all);
    select_field(&candidates)
}

/// The form in which a captured value enters a list: trimmed, and in
/// lowercase where `lower` is set.
pub open spec fn list_entry(found: Seq<char>, lower: bool) -> Seq<char> {
    if lower {
        lowercase_of(trimmed(found))
    } else {
        trimmed(found)
    }
}

/// The list `seen` after the captures have entered it in order: each one
/// that is present is appended in its entry form unless the list already
/// holds that form.
pub open spec fn absorb_captures(
    seen: Seq<Seq<char>>,
    captures: Seq<Option<Seq<char>>>,
    lower: bool,
) -> Seq<Seq<char>>
    decreases captures.len(),
{
    if captures.len() == 0 {
        seen
    } else {
        let front = absorb_captures(seen, captures.drop_last(), lower);
        match captures.last() {
            Some(found) => with_entry(front, list_entry(found, lower)),
            None => front,
        }
    }
}

/// The list read from `text`: the captures of each pattern enter it in the
/// order of the patterns.
pub open spec fn list_of(text: Seq<char>, patterns: Seq<Seq<char>>, lower: bool) -> Seq<
    Seq<char>,
>
    decreases patterns.len(),
{
    if patterns.len() == 0 {
        Seq::empty()
    } else {
        absorb_captures(
            list_of(text, patterns.drop_last(), lower),
            all_captures(patterns.last(), text),
            lower,
        )
    }
}

/// Absorbing captures into a list without repetitions leaves it without
/// repetitions.
pub proof fn lemma_absorb_keeps_distinct(
    seen: Seq<Seq<char>>,
    captures: Seq<Option<Seq<char>>>,
    lower: bool,
)
    requires
        seen.no_duplicates(),
    ensures
        absorb_captures(seen, captures, lower).no_duplicates(),
    decreases captures.len(),
{
    if captures.len() > 0 {
        lemma_absorb_keeps_distinct(seen, captures.drop_last(), lower);
    }
}

/// A list read from a text holds no value twice.
pub proof fn lemma_list_is_distinct(text: Seq<char>, patterns: Seq<Seq<char>>, lower: bool)
    ensures
        list_of(text, patterns, lower).no_duplicates(),
    decreases patterns.len(),
{
    if patterns.len() > 0 {
        lemma_list_is_distinct(text, patterns.drop_last(), lower);
        lemma_absorb_keeps_distinct(
            list_of(text, patterns.drop_last(), lower),
            all_captures(patterns.last(), text),
            lower,
        );
    }
}

/// The list after a value has entered it: the value is appended unless
/// the list holds it already.
pub open spec fn with_entry(seen: Seq<Seq<char>>, entry: Seq<char>) -> Seq<Seq<char>> {
    if seen.contains(entry) {
        seen
    } else {
        seen.push(entry)
    }
}

/// Appends `entry` to `list` unless the list holds it already.
pub fn push_unique(list: &mut Vec<String>, entry: String)
    ensures
        final(list).deep_view() == with_entry(old(list).deep_view(), entry@),
{
    if !holds(list, entry.as_str()) {
        let ghost before = *list;
        list.push(entry);
        proof {
            lemma_deep_view_push(before, *list, entry);
        }
    }
}

/// Enters the captures into `list` in order, each in its entry form and
/// only where the list does not hold that form yet.
pub fn collect_unique(list: &mut Vec<String>, captures: &Vec<Option<String>>, lower: bool)
    ensures
        final(list).deep_view() == absorb_captures(
            old(list).deep_view(),
            captures.deep_view(),
            lower,
        ),
{
    let mut i: usize = 0;
    assert(captures.deep_view().take(0) =~= Seq::<Option<Seq<char>>>::empty());
    while i < captures.len()
        invariant
            i <= captures.len(),
            list.deep_view() == absorb_captures(
                old(list).deep_view(),
                captures.deep_view().take(i as int),
                lower,
            ),
        decreases captures.len() - i,
    {
        proof {
            let longer = captures.deep_view().take(i as int + 1);
            assert(longer.drop_last() =~= captures.deep_view().take(i as int));
            assert(longer.last() == captures@[i as int].deep_view());
        }
        match &captures[i] {
            Some(found) => {
                let plain = trim_text(found.as_str());
                let entry = if lower {
                    plain.as_str().to_lowercase()
                } else {
                    plain
                };
                push_unique(list, entry);
            },
            None => {},
        }
        i += 1;
    }
    assert(captures.deep_view().take(captures@.len() as int) =~= captures.deep_view());
}

/// The list read from `text` with the given patterns.
pub fn extract_list(text: &str, patterns: &Vec<&str>, lower: bool) -> (r: Vec<String>)
    ensures
        r.deep_view() == list_of(text@, patterns.deep_view(), lower),
        r.deep_view().no_duplicates(),
{
    let mut list: Vec<String> = Vec::new();
    let mut i: usize = 0;
    assert(patterns.deep_view().take(0) =~= Seq::<Seq<char>>::empty());
    assert(list.deep_view() =~= Seq::<Seq<char>>::empty());
    while i < patterns.len()
        invariant
            i <= patterns.len(),
            list.deep_view() == list_of(text@, patterns.deep_view().take(i as int), lower),
        decreases patterns.len() - i,
    {
        proof {
            let longer = patterns.deep_view().take(i as int + 1);
            assert(longer.drop_last() =~= patterns.deep_view().take(i as int));
            assert(longer.last() == patterns@[i as int]@);
        }
        let captures = capture_all(patterns[i], text);
        collect_unique(&mut list, &captures, lower);
        i += 1;
    }
    proof {
        assert(patterns.deep_view().take(patterns@.len() as int) =~= patterns.deep_view());
        lemma_list_is_distinct(text@, patterns.deep_view(), lower);
    }
    list
}

/// The patterns that capture the registrar.
pub open spec fn registrar_patterns() -> Seq<Seq<char>> {
    seq![
        r"Registrar:\s*(.+)"@,
        r"Sponsoring Registrar:\s*(.+)"@,
        r"Registrar Name:\s*(.+)"@,
    ]
}

/// The patterns that capture the registrant.
pub open spec fn registrant_patterns() -> Seq<Seq<char>> {
    seq![
        r"Registrant Organization:\s*(.+)"@,
        r"Registrant:\s*(.+)"@,
        r"Organization:\s*(.+)"@,
    ]
}

/// The patterns that capture the creation date.
pub open spec fn creation_patterns() -> Seq<Seq<char>> {
    seq![
        r"Creation Date:\s*(.+)"@,
        r"Created:\s*(.+)"@,
        r"Domain Registration Date:\s*(.+)"@,
        r"created:\s*(.+)"@,
    ]
}

/// The patterns that capture the expiry date.
pub open spec fn expiry_patterns() -> Seq<Seq<char>> {
    seq![
        r"Registry Expiry Date:\s*(.+)"@,
        r"Expiry Date:\s*(.+)"@,
        r"Expiration Date:\s*(.+)"@,
        r"expires:\s*(.+)"@,
    ]
}

/// The patterns that capture the date of the last update.
pub open spec fn updated_patterns() -> Seq<Seq<char>> {
    seq![
        r"Updated Date:\s*(.+)"@,
        r"Last Updated:\s*(.+)"@,
        r"Modified:\s*(.+)"@,
        r"changed:\s*(.+)"@,
    ]
}

/// The patterns that capture a name server.
pub open spec fn name_server_patterns() -> Seq<Seq<char>> {
    seq![
        r"Name Server:\s*(.+)"@,
        r"nserver:\s*(.+)"@,
        r"NS:\s*(.+)"@,
        r"Nameservers:\s*(.+)"@,
    ]
}

/// The patterns that capture a status.
pub open spec fn status_patterns() -> Seq<Seq<char>> {
    seq![r"Domain Status:\s*(.+)"@, r"Status:\s*(.+)"@, r"state:\s*(.+)"@]
}

/// A list of three patterns.
fn three(a: &'static str, b: &'static str, c: &'static str) -> (r: Vec<&'static str>)
    ensures
        r.deep_view() == seq![a@, b@, c@],
{
    let mut v: Vec<&'static str> = Vec::new();
    v.push(a);
    v.push(b);
    v.push(c);
    assert(v.deep_view() =~= seq![a@, b@, c@]);
    v
}

/// A list of four patterns.
fn four(a: &'static str, b: &'static str, c: &'static str, d: &'static str) -> (r: Vec<
    &'static str,
>)
    ensures
        r.deep_view() == seq![a@, b@, c@, d@],
{
    let mut v: Vec<&'static str> = Vec::new();
    v.push(a);
    v.push(b);
    v.push(c);
    v.push(d);
    assert(v.deep_view() =~= seq![a@, b@, c@, d@]);
    v
}

/// The name servers named in the output of a WHOIS client: trimmed, in
/// lowercase, each once, in the order in which the patterns find them.
pub fn extract_name_servers(text: &str) -> (r: Vec<String>)
    ensures
        r.deep_view() == list_of(text@, name_server_patterns(), true),
        r.deep_view().no_duplicates(),
{
    let patterns = four(
        r"Name Server:\s*(.+)",
        r"nserver:\s*(.+)",
        r"NS:\s*(.+)",
        r"Nameservers:\s*(.+)",
    );
    extract_list(text, &patterns, true)
}

/// The statuses named in the output of a WHOIS client: trimmed, each once,
/// in the order in which the patterns find them.
pub fn extract_status(text: &str) -> (r: Vec<String>)
    ensures
        r.deep_view() == list_of(text@, status_patterns(), false),
        r.deep_view().no_duplicates(),
{
    let patterns = three(r"Domain Status:\s*(.+)", r"Status:\s*(.+)", r"state:\s*(.+)");
    extract_list(text, &patterns, false)
}

/// The record that the output `raw_data` of a command-line WHOIS client
/// reads as.
pub open spec fn command_line_record(domain: Seq<char>, raw_data: Seq<char>) -> WhoisInfoView {
    WhoisInfoView {
        domain,
        registrar: field_of(raw_data, registrar_patterns()),
        registrant: field_of(raw_data, registrant_patterns()),
        creation_date: field_of(raw_data, creation_patterns()),
        expiry_date: field_of(raw_data, expiry_patterns()),
        updated_date: field_of(raw_data, updated_patterns()),
        name_servers: list_of(raw_data, name_server_patterns(), true),
        status: list_of(raw_data, status_patterns(), false),
        raw_data,
        rdap_available: false,
    }
}

/// The record that an RDAP document amounts to, with `raw_data` as its
/// serialized form. The registrant is always absent.
pub open spec fn rdap_record(domain: Seq<char>, document: RdapDomain, raw_data: Seq<char>)
    -> WhoisInfoView {
    WhoisInfoView {
        domain,
        registrar: registrar_of(document),
        registrant: None,
        creation_date: event_date(document, creation_actions()),
        expiry_date: event_date(document, expiry_actions()),
        updated_date: event_date(document, updated_actions()),
        name_servers: nameservers_of(document),
        status: status_of(document),
        raw_data,
        rdap_available: true,
    }
}

/// The record of a domain of which no source told anything: every field
/// absent or empty, and the RDAP error as the payload.
pub open spec fn unknown_record(domain: Seq<char>, rdap_error: Seq<char>) -> WhoisInfoView {
    WhoisInfoView {
        domain,
        registrar: None,
        registrant: None,
        creation_date: None,
        expiry_date: None,
        updated_date: None,
        name_servers: Seq::empty(),
        status: Seq::empty(),
        raw_data: "RDAP lookup failed: "@ + rdap_error,
        rdap_available: false,
    }
}

/// Reads the output `raw_data` of a command-line WHOIS client for
/// `domain`. The record keeps the output as its payload and is marked as
/// not obtained through RDAP, whether or not any field was found.
pub fn lookup_command_line_whois(domain: &str, raw_data: String) -> (r: WhoisInfo)
    ensures
        r@ == command_line_record(domain@, raw_data@),
        r.raw_data@ == raw_data@,
        !r.rdap_available,
{
    let text = raw_data.as_str();
    let registrar = extract_field(
        text,
        &three(r"Registrar:\s*(.+)", r"Sponsoring Registrar:\s*(.+)", r"Registrar Name:\s*(.+)"),
    );
    let registrant = extract_field(
        text,
        &three(r"Registrant Organization:\s*(.+)", r"Registrant:\s*(.+)", r"Organization:\s*(.+)"),
    );
    let creation_date = extract_field(
        text,
        &four(
            r"Creation Date:\s*(.+)",
            r"Created:\s*(.+)",
            r"Domain Registration Date:\s*(.+)",
            r"created:\s*(.+)",
        ),
    );
    let expiry_date = extract_field(
        text,
        &four(
            r"Registry Expiry Date:\s*(.+)",
            r"Expiry Date:\s*(.+)",
            r"Expiration Date:\s*(.+)",
            r"expires:\s*(.+)",
        ),
    );
    let updated_date = extract_field(
        text,
        &four(
            r"Updated Date:\s*(.+)",
            r"Last Updated:\s*(.+)",
            r"Modified:\s*(.+)",
            r"changed:\s*(.+)",
        ),
    );
    let name_servers = extract_name_servers(text);
    let status = extract_status(text);
    WhoisInfo {
        domain: domain.to_owned(),
        registrar,
        registrant,
        creation_date,
        expiry_date,
        updated_date,
        name_servers,
        status,
        raw_data,
        rdap_available: false,
    }
}

/// The record of an RDAP document, with `raw_data` as its serialized form.
pub fn from_rdap(domain: &str, rdap_domain: &RdapDomain, raw_data: String) -> (r: WhoisInfo)
    ensures
        r@ == rdap_record(domain@, *rdap_domain, raw_data@),
{
    WhoisInfo {
        domain: domain.to_owned(),
        registrar: extract_registrar(rdap_domain),
        registrant: None,
        creation_date: extract_creation_date(rdap_domain),
        expiry_date: extract_expiry_date(rdap_domain),
        updated_date: extract_updated_date(rdap_domain),
        name_servers: extract_nameservers(rdap_domain),
        status: rdap_status(rdap_domain),
        raw_data,
        rdap_available: true,
    }
}

/// The record of a domain of which no source told anything.
pub fn unknown(domain: &str, rdap_error: &str) -> (r: WhoisInfo)
    ensures
        r@ == unknown_record(domain@, rdap_error@),
{
    let name_servers: Vec<String> = Vec::new();
    let status: Vec<String> = Vec::new();
    assert(name_servers.deep_view() =~= Seq::<Seq<char>>::empty());
    assert(status.deep_view() =~= Seq::<Seq<char>>::empty());
    WhoisInfo {
        domain: domain.to_owned(),
        registrar: None,
        registrant: None,
        creation_date: None,
        expiry_date: None,
        updated_date: None,
        name_servers,
        status,
        raw_data: crate::text::join_text("RDAP lookup failed: ", rdap_error),
        rdap_available: false,
    }
}

/// Where the resolution of a domain stands.
#[derive(Debug)]
pub enum WhoisState {
    /// The RDAP lookup is to be made.
    TryRdap,
    /// The RDAP lookup failed with `rdap_error`, and the command-line
    /// client is to be run.
    TryCommandLineWhois { rdap_error: String },
    /// The resolution ended with this record.
    Resolved(WhoisInfo),
}

/// What a source came back with.
#[derive(Debug)]
pub enum WhoisEvent {
    /// The RDAP lookup found a document; `raw_data` is its serialized form.
    RdapFound { document: RdapDomain, raw_data: String },
    /// The RDAP lookup failed.
    RdapFailed { error: String },
    /// The command-line client ran and wrote `raw_data`.
    CommandOutput { raw_data: String },
    /// The command-line client could not be run.
    CommandFailed,
}

/// The place of a state in the order of the chain.
pub open spec fn state_rank(state: WhoisState) -> nat {
    match state {
        WhoisState::TryRdap => 0,
        WhoisState::TryCommandLineWhois { .. } => 1,
        WhoisState::Resolved(_) => 2,
    }
}

/// Whether the event answers the source that the state waits for.
pub open spec fn event_fits(state: WhoisState, event: WhoisEvent) -> bool {
    match (state, event) {
        (WhoisState::TryRdap, WhoisEvent::RdapFound { .. }) => true,
        (WhoisState::TryRdap, WhoisEvent::RdapFailed { .. }) => true,
        (WhoisState::TryCommandLineWhois { .. }, WhoisEvent::CommandOutput { .. }) => true,
        (WhoisState::TryCommandLineWhois { .. }, WhoisEvent::CommandFailed) => true,
        _ => false,
    }
}

/// The step of the chain after a source came back.
///
/// An RDAP document resolves the domain at once. A failed RDAP lookup
/// turns to the command-line client; its output resolves the domain
/// whatever it holds, and its failure resolves the domain to the record
/// that tells nothing. An event that does not answer the source waited for
/// changes nothing. Every fitting event moves the chain forward, so it ends
/// after two events at most, and always with a record.
pub fn advance(domain: &str, state: WhoisState, event: WhoisEvent) -> (r: WhoisState)
    ensures
        match (state, event) {
            (WhoisState::TryRdap, WhoisEvent::RdapFound { document, raw_data }) => r matches WhoisState::Resolved(
                info,
            ) && info@ == rdap_record(domain@, document, raw_data@),
            (WhoisState::TryRdap, WhoisEvent::RdapFailed { error }) => r
                == (WhoisState::TryCommandLineWhois { rdap_error: error }),
            (
                WhoisState::TryCommandLineWhois { rdap_error },
                WhoisEvent::CommandOutput { raw_data },
            ) => r matches WhoisState::Resolved(info) && info@ == command_line_record(
                domain@,
                raw_data@,
            ),
            (WhoisState::TryCommandLineWhois { rdap_error }, WhoisEvent::CommandFailed) => r matches WhoisState::Resolved(
                info,
            ) && info@ == unknown_record(domain@, rdap_error@),
            _ => r == state,
        },
        event_fits(state, event) ==> state_rank(r) > state_rank(state),
{
    match state {
        WhoisState::TryRdap => match event {
            WhoisEvent::RdapFound { document, raw_data } => WhoisState::Resolved(
                from_rdap(domain, &document, raw_data),
            ),
            WhoisEvent::RdapFailed { error } => WhoisState::TryCommandLineWhois {
                rdap_error: error,
            },
            _ => WhoisState::TryRdap,
        },
        WhoisState::TryCommandLineWhois { rdap_error } => match event {
            WhoisEvent::CommandOutput { raw_data } => WhoisState::Resolved(
                lookup_command_line_whois(domain, raw_data),
            ),
            WhoisEvent::CommandFailed => WhoisState::Resolved(
                unknown(domain, rdap_error.as_str()),
            ),
            _ => WhoisState::TryCommandLineWhois { rdap_error },
        },
        WhoisState::Resolved(info) => WhoisState::Resolved(info),
    }
}

/// What the RDAP lookup came back with.
#[derive(Debug)]
pub enum RdapOutcome {
    /// A document, with its serialized form.
    Found { document: RdapDomain, raw_data: String },
    /// A failure, with its message.
    Failed { error: String },
}

/// The record that the chain resolves to, given what the sources came
/// back with. The command-line outcome is `None` where the client could not
/// be run; it is read only where the RDAP lookup failed.
pub open spec fn resolved_record(
    domain: Seq<char>,
    rdap: RdapOutcome,
    command_line: Option<String>,
) -> WhoisInfoView {
    match rdap {
        RdapOutcome::Found { document, raw_data } => rdap_record(domain, document, raw_data@),
        RdapOutcome::Failed { error } => match command_line {
            Some(output) => command_line_record(domain, output@),
            None => unknown_record(domain, error@),
        },
    }
}

/// Resolves the record of `domain` from what the sources came back with.
///
/// The RDAP document wins where there is one. Where the RDAP lookup failed
/// and the command-line client ran, the record is read from its output,
/// keeps that output as its payload and is marked as not obtained through
/// RDAP. Where neither told anything the record is empty and carries the
/// RDAP error. There is always a record.
pub fn lookup(domain: &str, rdap: RdapOutcome, command_line: Option<String>) -> (r: WhoisInfo)
    ensures
        r@ == resolved_record(domain@, rdap, command_line),
        rdap is Failed && command_line is Some ==> !r.rdap_available && r.raw_data@
            == command_line.unwrap()@,
        r.rdap_available == (rdap is Found),
{
    let first = match rdap {
        RdapOutcome::Found { document, raw_data } => WhoisEvent::RdapFound { document, raw_data },
        RdapOutcome::Failed { error } => WhoisEvent::RdapFailed { error },
    };
    let second = match command_line {
        Some(raw_data) => WhoisEvent::CommandOutput { raw_data },
        None => WhoisEvent::CommandFailed,
    };
    let state = advance(domain, WhoisState::TryRdap, first);
    match advance(domain, state, second) {
        WhoisState::Resolved(info) => info,
        _ => vstd::pervasive::unreached(),
    }
}

} // verus!
