//! The expired-domain aggregator: reading the four feeds, each with its
//! keyword and TLD filters, and merging what they yield, without
//! repetition and up to a fixed number of results.

use crate::text::{
    contains, contains_text, ends_with, has_char, is_blank, lemma_chars_deep_view,
    lemma_deep_view_push, lines, lines_of, lowercase, lowercase_of, same, split, split_on,
    strip_char, stripped_of, text_of, text_view, to_chars, trim, trimmed,
};
use vstd::prelude::*;

verus! {

/// The number of results at which a feed is cut and the aggregation ends.
pub const RESULT_CAP: usize = 10;

/// A domain that a feed reports as expired, expiring or for auction.
#[derive(Debug)]
pub struct ExpiredDomain {
    pub domain: String,
    pub status: String,
    pub source: String,
    pub created: Option<String>,
    pub updated: Option<String>,
    pub end_time: Option<String>,
    pub appraisal: Option<String>,
    pub starting_price: Option<String>,
    pub has_dns: Option<bool>,
}

/// The mathematical value of an `ExpiredDomain`.
pub struct ExpiredDomainView {
    pub domain: Seq<char>,
    pub status: Seq<char>,
    pub source: Seq<char>,
    pub created: Option<Seq<char>>,
    pub updated: Option<Seq<char>>,
    pub end_time: Option<Seq<char>>,
    pub appraisal: Option<Seq<char>>,
    pub starting_price: Option<Seq<char>>,
    pub has_dns: Option<bool>,
}

impl View for ExpiredDomain {
    type V = ExpiredDomainView;

    open spec fn view(&self) -> ExpiredDomainView {
        ExpiredDomainView {
            domain: self.domain@,
            status: self.status@,
            source: self.source@,
            created: text_view(self.created),
            updated: text_view(self.updated),
            end_time: text_view(self.end_time),
            appraisal: text_view(self.appraisal),
            starting_price: text_view(self.starting_price),
            has_dns: self.has_dns,
        }
    }
}

impl DeepView for ExpiredDomain {
    type V = ExpiredDomainView;

    open spec fn deep_view(&self) -> ExpiredDomainView {
        self@
    }
}

/// Whether a name passes the two filters: an empty keyword passes every
/// name, another one those that hold it, case aside; an empty TLD passes
/// every name, another one those that end in a dot and that TLD.
pub open spec fn passes_filters(name: Seq<char>, keyword: Seq<char>, tld: Seq<char>) -> bool {
    &&& keyword.len() == 0 || contains_text(lowercase_of(name), lowercase_of(keyword))
    &&& tld.len() == 0 || (seq!['.'] + tld).is_suffix_of(name)
}

/// Whether a name is one that a feed can report: it holds a dot and
/// passes the filters.
pub open spec fn is_reportable(name: Seq<char>, keyword: Seq<char>, tld: Seq<char>) -> bool {
    name.contains('.') && passes_filters(name, keyword, tld)
}

/// Whether `name` holds a dot and passes the filters.
pub fn reportable(name: &Vec<char>, keyword: &str, tld: &str) -> (r: bool)
    ensures
        r == is_reportable(name@, keyword@, tld@),
{
    if !has_char(name, '.') {
        return false;
    }
    let key = to_chars(keyword);
    let matches_keyword = key.len() == 0 || contains(&lowercase(name), &lowercase(&key));
    if !matches_keyword {
        return false;
    }
    let zone = to_chars(tld);
    if zone.len() == 0 {
        return true;
    }
    let mut suffix: Vec<char> = Vec::new();
    suffix.push('.');
    crate::text::append(&mut suffix, &zone);
    assert(suffix@ =~= seq!['.'] + tld@);
    ends_with(name, &suffix)
}

/// A result that carries nothing but its name, status and source.
pub open spec fn bare_result(domain: Seq<char>, status: Seq<char>, source: Seq<char>)
    -> ExpiredDomainView {
    ExpiredDomainView {
        domain,
        status,
        source,
        created: None,
        updated: None,
        end_time: None,
        appraisal: None,
        starting_price: None,
        has_dns: None,
    }
}

/// The first `room` candidates at or after `from` that are present, in
/// order.
pub open spec fn capped(candidates: Seq<Option<ExpiredDomainView>>, from: int, room: nat) -> Seq<
    ExpiredDomainView,
>
    decreases candidates.len() - from,
{
    if 0 <= from < candidates.len() && room > 0 {
        match candidates[from] {
            Some(found) => seq![found] + capped(candidates, from + 1, (room - 1) as nat),
            None => capped(candidates, from + 1, room),
        }
    } else {
        Seq::empty()
    }
}

/// The feeds that come as lines of text.
#[derive(Debug, Clone, Copy, PartialEq, Eq)]
pub enum LineFeed {
    /// The backorder feed, comma-separated with a header row.
    Dynadot,
    /// The inventory files, plain or comma-separated, with `#` comments.
    NameJet,
    /// The deletion-candidate feed, comma-separated and quoted, with a
    /// header row.
    SnapNames,
}

/// The pieces of a comma-separated line, each trimmed.
pub open spec fn trimmed_pieces(line: Seq<char>) -> Seq<Seq<char>> {
    Seq::new(split_on(line, ',').len(), |i: int| trimmed(split_on(line, ',')[i]))
}

/// The piece of a quoted field: trimmed, then without the double quotes
/// around it.
pub open spec fn unquoted(piece: Seq<char>) -> Seq<char> {
    stripped_of(trimmed(piece), '"')
}

/// What a line of the backorder feed reports: column 0 is the name, column
/// 1 the end time, and columns 3 and 4, where the line has them, the
/// appraisal and the starting price. Blank lines, lines of fewer than two
/// columns and names that are not reportable report nothing.
pub open spec fn dynadot_candidate(line: Seq<char>, keyword: Seq<char>, tld: Seq<char>) -> Option<
    ExpiredDomainView,
> {
    let parts = trimmed_pieces(line);
    if trimmed(line).len() > 0 && parts.len() >= 2 && is_reportable(parts[0], keyword, tld) {
        Some(
            ExpiredDomainView {
                domain: parts[0],
                status: "pending delete"@,
                source: "Dynadot"@,
                created: None,
                updated: None,
                end_time: Some(parts[1]),
                appraisal: if parts.len() > 3 {
                    Some(parts[3])
                } else {
                    None
                },
                starting_price: if parts.len() > 4 {
                    Some(parts[4])
                } else {
                    None
                },
                has_dns: None,
            },
        )
    } else {
        None
    }
}

/// What a line of an inventory file reports: the name is the first column,
/// or the whole line where it holds no comma, without quotes. Blank lines,
/// lines and names that begin with `#`, and names that are not reportable
/// report nothing.
pub open spec fn namejet_candidate(line: Seq<char>, keyword: Seq<char>, tld: Seq<char>) -> Option<
    ExpiredDomainView,
> {
    let name = unquoted(split_on(line, ',')[0]);
    if trimmed(line).len() > 0 && !(line.len() > 0 && line[0] == '#') && !(name.len() > 0
        && name[0] == '#') && is_reportable(name, keyword, tld) {
        Some(bare_result(name, "auction/pending"@, "NameJet"@))
    } else {
        None
    }
}

/// What a line of the deletion-candidate feed reports: the name is column
/// 0 without quotes. Blank lines and names that are not reportable report
/// nothing.
pub open spec fn snapnames_candidate(line: Seq<char>, keyword: Seq<char>, tld: Seq<char>)
    -> Option<ExpiredDomainView> {
    let name = unquoted(split_on(line, ',')[0]);
    if trimmed(line).len() > 0 && is_reportable(name, keyword, tld) {
        Some(bare_result(name, "pending delete"@, "SnapNames"@))
    } else {
        None
    }
}

/// What a line of a feed reports.
pub open spec fn line_candidate(
    feed: LineFeed,
    line: Seq<char>,
    keyword: Seq<char>,
    tld: Seq<char>,
) -> Option<ExpiredDomainView> {
    match feed {
        LineFeed::Dynadot => dynadot_candidate(line, keyword, tld),
        LineFeed::NameJet => namejet_candidate(line, keyword, tld),
        LineFeed::SnapNames => snapnames_candidate(line, keyword, tld),
    }
}

/// The view of an optional result.
pub open spec fn result_view(r: Option<ExpiredDomain>) -> Option<ExpiredDomainView> {
    match r {
        Some(found) => Some(found@),
        None => None,
    }
}

/// A result that carries nothing but its name, status and source.
fn bare(name: &Vec<char>, status: &str, source: &str) -> (r: ExpiredDomain)
    ensures
        r@ == bare_result(name@, status@, source@),
{
    ExpiredDomain {
        domain: text_of(name),
        status: status.to_owned(),
        source: source.to_owned(),
        created: None,
        updated: None,
        end_time: None,
        appraisal: None,
        starting_price: None,
        has_dns: None,
    }
}

/// Reads one line of a feed.
pub fn read_line(feed: LineFeed, line: &Vec<char>, keyword: &str, tld: &str) -> (r: Option<
    ExpiredDomain,
>)
    ensures
        result_view(r) == line_candidate(feed, line@, keyword@, tld@),
{
    if is_blank(line) {
        return None;
    }
    let pieces = split(line, ',');
    proof {
        assert forall|i: int| 0 <= i < pieces@.len() implies pieces.deep_view()[i]
            == #[trigger] pieces@[i]@ by {
            lemma_chars_deep_view(pieces@[i]);
        }
    }
    match feed {
        LineFeed::Dynadot => {
            if pieces.len() < 2 {
                return None;
            }
            let name = trim(&pieces[0]);
            if !reportable(&name, keyword, tld) {
                return None;
            }
            let end_time = trim(&pieces[1]);
            let appraisal = if pieces.len() > 3 {
                Some(text_of(&trim(&pieces[3])))
            } else {
                None
            };
            let starting_price = if pieces.len() > 4 {
                Some(text_of(&trim(&pieces[4])))
            } else {
                None
            };
            Some(
                ExpiredDomain {
                    domain: text_of(&name),
                    status: "pending delete".to_owned(),
                    source: "Dynadot".to_owned(),
                    created: None,
                    updated: None,
                    end_time: Some(text_of(&end_time)),
                    appraisal,
                    starting_price,
                    has_dns: None,
                },
            )
        },
        LineFeed::NameJet => {
            if line.len() > 0 && line[0] == '#' {
                return None;
            }
            let name = strip_char(&trim(&pieces[0]), '"');
            if name.len() > 0 && name[0] == '#' {
                return None;
            }
            if !reportable(&name, keyword, tld) {
                return None;
            }
            Some(bare(&name, "auction/pending", "NameJet"))
        },
        LineFeed::SnapNames => {
            let name = strip_char(&trim(&pieces[0]), '"');
            if !reportable(&name, keyword, tld) {
                return None;
            }
            Some(bare(&name, "pending delete", "SnapNames"))
        },
    }
}

/// What each of the lines reports, line by line.
pub open spec fn line_candidates(
    feed: LineFeed,
    rows: Seq<Seq<char>>,
    keyword: Seq<char>,
    tld: Seq<char>,
) -> Seq<Option<ExpiredDomainView>> {
    Seq::new(rows.len(), |i: int| line_candidate(feed, rows[i], keyword, tld))
}

/// The number of results that a list of `held` results has room for.
pub open spec fn room_after(held: nat) -> nat {
    if held < RESULT_CAP {
        (RESULT_CAP - held) as nat
    } else {
        0
    }
}

/// Reads the lines `rows[from..]` of a feed and appends what they report to
/// `results`, as far as there is room below `RESULT_CAP`.
pub fn scan_lines(
    feed: LineFeed,
    rows: &Vec<Vec<char>>,
    from: usize,
    keyword: &str,
    tld: &str,
    results: &mut Vec<ExpiredDomain>,
)
    ensures
        final(results).deep_view() == old(results).deep_view() + capped(
            line_candidates(feed, rows.deep_view(), keyword@, tld@),
            from as int,
            room_after(old(results)@.len()),
        ),
        old(results).len() <= RESULT_CAP ==> final(results).len() <= RESULT_CAP,
{
    let ghost all = line_candidates(feed, rows.deep_view(), keyword@, tld@);
    let ghost start = results.deep_view();
    let ghost room = room_after(results@.len());
    let mut i: usize = from;
    assert(start + capped(all, from as int, room) =~= results.deep_view() + capped(
        all,
        i as int,
        room_after(results@.len()),
    ));
    while i < rows.len() && results.len() < RESULT_CAP
        invariant
            from <= i,
            old(results).len() <= RESULT_CAP ==> results.len() <= RESULT_CAP,
            all == line_candidates(feed, rows.deep_view(), keyword@, tld@),
            start + capped(all, from as int, room) == results.deep_view() + capped(
                all,
                i as int,
                room_after(results@.len()),
            ),
        decreases rows.len() - i,
    {
        proof {
            lemma_chars_deep_view(rows@[i as int]);
            assert(rows.deep_view()[i as int] == rows@[i as int]@);
        }
        let ghost before = *results;
        let ghost rest = capped(all, i as int + 1, room_after(results@.len() + 1));
        match read_line(feed, &rows[i], keyword, tld) {
            Some(found) => {
                results.push(found);
                proof {
                    lemma_deep_view_push(before, *results, found);
                    assert(before.deep_view() + (seq![found@] + rest)
                        =~= results.deep_view() + rest);
                }
            },
            None => {},
        }
        i += 1;
    }
    assert(results.deep_view() + Seq::<ExpiredDomainView>::empty() =~= results.deep_view());
}

/// One entry of the registry-snapshot API.
#[derive(Debug)]
pub struct DomainsDbDomain {
    pub domain: Option<String>,
    pub create_date: Option<String>,
    pub update_date: Option<String>,
    pub is_dead: Option<String>,
    pub a_records: Option<Vec<String>>,
    pub ns_records: Option<Vec<String>>,
}

/// The answer of the registry-snapshot API.
#[derive(Debug)]
pub struct DomainsDbResponse {
    pub domains: Option<Vec<DomainsDbDomain>>,
}

/// What an entry of the registry snapshot reports: an entry with a
/// reportable name is `expired` where its dead flag is the text `True` and
/// `unknown` otherwise, carries its dates, and has DNS where it lists A or
/// NS records at all.
pub open spec fn domainsdb_candidate(entry: DomainsDbDomain, keyword: Seq<char>, tld: Seq<char>)
    -> Option<ExpiredDomainView> {
    match entry.domain {
        Some(name) => {
            if is_reportable(name@, keyword, tld) {
                Some(
                    ExpiredDomainView {
                        domain: name@,
                        status: if text_view(entry.is_dead) == Some("True"@) {
                            "expired"@
                        } else {
                            "unknown"@
                        },
                        source: "DomainsDB"@,
                        created: text_view(entry.create_date),
                        updated: text_view(entry.update_date),
                        end_time: None,
                        appraisal: None,
                        starting_price: None,
                        has_dns: Some(entry.a_records.is_some() || entry.ns_records.is_some()),
                    },
                )
            } else {
                None
            }
        },
        None => None,
    }
}

/// What each entry of the registry snapshot reports, entry by entry.
pub open spec fn domainsdb_candidates(
    response: DomainsDbResponse,
    keyword: Seq<char>,
    tld: Seq<char>,
) -> Seq<Option<ExpiredDomainView>> {
    match response.domains {
        Some(entries) => Seq::new(
            entries@.len(),
            |i: int| domainsdb_candidate(entries@[i], keyword, tld),
        ),
        None => Seq::empty(),
    }
}

/// A copy of an optional text.
fn copy_text(s: &Option<String>) -> (r: Option<String>)
    ensures
        text_view(r) == text_view(*s),
{
    match s {
        Some(s) => Some(s.clone()),
        None => None,
    }
}

/// Reads one entry of the registry snapshot.
pub fn read_entry(entry: &DomainsDbDomain, keyword: &str, tld: &str) -> (r: Option<
    ExpiredDomain,
>)
    ensures
        result_view(r) == domainsdb_candidate(*entry, keyword@, tld@),
{
    match &entry.domain {
        Some(name) => {
            let chars = to_chars(name.as_str());
            if !reportable(&chars, keyword, tld) {
                return None;
            }
            let dead = match &entry.is_dead {
                Some(flag) => same(flag.as_str(), "True"),
                None => false,
            };
            let has_dns = entry.a_records.is_some() || entry.ns_records.is_some();
            Some(
                ExpiredDomain {
                    domain: name.clone(),
                    status: if dead {
                        "expired".to_owned()
                    } else {
                        "unknown".to_owned()
                    },
                    source: "DomainsDB".to_owned(),
                    created: copy_text(&entry.create_date),
                    updated: copy_text(&entry.update_date),
                    end_time: None,
                    appraisal: None,
                    starting_price: None,
                    has_dns: Some(has_dns),
                },
            )
        },
        None => None,
    }
}

/// The parameters of the query to the registry-snapshot API: dead entries
/// only, fifty at most, and the keyword and the TLD where they are not
/// empty.
pub open spec fn domainsdb_parameters(keyword: Seq<char>, tld: Seq<char>) -> Seq<
    (Seq<char>, Seq<char>),
> {
    let fixed = seq![("isDead"@, "true"@), ("limit"@, "50"@)];
    let with_keyword = if keyword.len() > 0 {
        fixed.push(("domain"@, keyword))
    } else {
        fixed
    };
    if tld.len() > 0 {
        with_keyword.push(("zone"@, tld))
    } else {
        with_keyword
    }
}

/// The views of a list of parameters.
pub open spec fn parameter_views(params: Seq<(String, String)>) -> Seq<(Seq<char>, Seq<char>)> {
    Seq::new(params.len(), |i: int| (params[i].0@, params[i].1@))
}

/// The parameters of the query to the registry-snapshot API.
pub fn domainsdb_query(keyword: &str, tld: &str) -> (r: Vec<(String, String)>)
    ensures
        parameter_views(r@) == domainsdb_parameters(keyword@, tld@),
{
    let mut params: Vec<(String, String)> = Vec::new();
    params.push(("isDead".to_owned(), "true".to_owned()));
    params.push(("limit".to_owned(), "50".to_owned()));
    if to_chars(keyword).len() > 0 {
        params.push(("domain".to_owned(), keyword.to_owned()));
    }
    if to_chars(tld).len() > 0 {
        params.push(("zone".to_owned(), tld.to_owned()));
    }
    assert(parameter_views(params@) =~= domainsdb_parameters(keyword@, tld@));
    params
}

/// What the registry snapshot yields: what its entries report, in order,
/// up to `RESULT_CAP` results.
pub fn search_domainsdb(keyword: &str, tld: &str, response: &DomainsDbResponse) -> (r: Vec<
    ExpiredDomain,
>)
    ensures
        r.deep_view() == capped(
            domainsdb_candidates(*response, keyword@, tld@),
            0,
            RESULT_CAP as nat,
        ),
        r.len() <= RESULT_CAP,
{
    let mut results: Vec<ExpiredDomain> = Vec::new();
    let ghost all = domainsdb_candidates(*response, keyword@, tld@);
    assert(results.deep_view() =~= Seq::<ExpiredDomainView>::empty());
    match &response.domains {
        Some(entries) => {
            let mut i: usize = 0;
            assert(capped(all, 0, RESULT_CAP as nat) =~= results.deep_view() + capped(
                all,
                0,
                RESULT_CAP as nat,
            ));
            while i < entries.len() && results.len() < RESULT_CAP
                invariant
                    results.len() <= RESULT_CAP,
                    response.domains == Some(*entries),
                    all == domainsdb_candidates(*response, keyword@, tld@),
                    capped(all, 0, RESULT_CAP as nat) == results.deep_view() + capped(
                        all,
                        i as int,
                        (RESULT_CAP - results.len()) as nat,
                    ),
                decreases entries.len() - i,
            {
                let ghost before = results;
                let ghost rest = capped(
                    all,
                    i as int + 1,
                    (RESULT_CAP - results.len() - 1) as nat,
                );
                match read_entry(&entries[i], keyword, tld) {
                    Some(found) => {
                        results.push(found);
                        proof {
                            lemma_deep_view_push(before, results, found);
                            assert(before.deep_view() + (seq![found@] + rest)
                                =~= results.deep_view() + rest);
                        }
                    },
                    None => {},
                }
                i += 1;
            }
            assert(results.deep_view() + Seq::<ExpiredDomainView>::empty()
                =~= results.deep_view());
        },
        None => {},
    }
    results
}

/// What a feed of lines with a header row yields: what the lines after
/// the first report, in order, up to `RESULT_CAP` results.
pub open spec fn table_results(feed: LineFeed, text: Seq<char>, keyword: Seq<char>, tld: Seq<char>)
    -> Seq<ExpiredDomainView> {
    capped(line_candidates(feed, lines_of(text), keyword, tld), 1, RESULT_CAP as nat)
}

/// What a file of lines without a header row yields: what its lines
/// report, in order, up to `RESULT_CAP` results.
pub open spec fn file_results(feed: LineFeed, text: Seq<char>, keyword: Seq<char>, tld: Seq<char>)
    -> Seq<ExpiredDomainView> {
    capped(line_candidates(feed, lines_of(text), keyword, tld), 0, RESULT_CAP as nat)
}

/// Reads a feed of lines from its line `from` on.
fn read_feed(feed: LineFeed, text: &str, from: usize, keyword: &str, tld: &str) -> (r: Vec<
    ExpiredDomain,
>)
    ensures
        r.deep_view() == capped(
            line_candidates(feed, lines_of(text@), keyword@, tld@),
            from as int,
            RESULT_CAP as nat,
        ),
        r.len() <= RESULT_CAP,
{
    let chars = to_chars(text);
    let rows = lines(&chars);
    let mut results: Vec<ExpiredDomain> = Vec::new();
    assert(results.deep_view() =~= Seq::<ExpiredDomainView>::empty());
    scan_lines(feed, &rows, from, keyword, tld, &mut results);
    assert(Seq::<ExpiredDomainView>::empty() + capped(
        line_candidates(feed, lines_of(text@), keyword@, tld@),
        from as int,
        RESULT_CAP as nat,
    ) =~= capped(
        line_candidates(feed, lines_of(text@), keyword@, tld@),
        from as int,
        RESULT_CAP as nat,
    ));
    results
}

/// What the backorder feed yields.
pub fn search_dynadot(keyword: &str, tld: &str, text: &str) -> (r: Vec<ExpiredDomain>)
    ensures
        r.deep_view() == table_results(LineFeed::Dynadot, text@, keyword@, tld@),
        r.len() <= RESULT_CAP,
{
    read_feed(LineFeed::Dynadot, text, 1, keyword, tld)
}

/// What the deletion-candidate feed yields.
pub fn search_snapnames(keyword: &str, tld: &str, text: &str) -> (r: Vec<ExpiredDomain>)
    ensures
        r.deep_view() == table_results(LineFeed::SnapNames, text@, keyword@, tld@),
        r.len() <= RESULT_CAP,
{
    read_feed(LineFeed::SnapNames, text, 1, keyword, tld)
}

/// What came back for one of the inventory files.
#[derive(Debug)]
pub enum FeedFetch {
    /// A success status, and this body.
    Body(String),
    /// A transport error or another status: the file is passed over.
    Unavailable,
    /// A success status with a body that could not be read: the source
    /// fails as a whole.
    Unreadable,
}

/// What an inventory file yields.
pub open spec fn fetched_results(fetch: FeedFetch, keyword: Seq<char>, tld: Seq<char>) -> Seq<
    ExpiredDomainView,
> {
    match fetch {
        FeedFetch::Body(text) => file_results(LineFeed::NameJet, text@, keyword, tld),
        _ => Seq::empty(),
    }
}

/// Whether the second inventory file is asked for after the first: it is
/// where the first was passed over or yielded nothing.
pub open spec fn second_file_wanted(first: FeedFetch, keyword: Seq<char>, tld: Seq<char>) -> bool {
    match first {
        FeedFetch::Body(_) => fetched_results(first, keyword, tld).len() == 0,
        FeedFetch::Unavailable => true,
        FeedFetch::Unreadable => false,
    }
}

/// What the inventory files yield: nothing at all where a body could not
/// be read; else what the first file yields where that is anything, and
/// what the second yields otherwise.
pub open spec fn namejet_results(
    first: FeedFetch,
    second: FeedFetch,
    keyword: Seq<char>,
    tld: Seq<char>,
) -> Option<Seq<ExpiredDomainView>> {
    if first is Unreadable {
        None
    } else if !second_file_wanted(first, keyword, tld) {
        Some(fetched_results(first, keyword, tld))
    } else if second is Unreadable {
        None
    } else {
        Some(fetched_results(second, keyword, tld))
    }
}

/// The view of the outcome of a source.
pub open spec fn outcome_view(outcome: Option<Vec<ExpiredDomain>>) -> Option<
    Seq<ExpiredDomainView>,
> {
    match outcome {
        Some(found) => Some(found.deep_view()),
        None => None,
    }
}

/// Reads one inventory file.
fn read_fetch(fetch: &FeedFetch, keyword: &str, tld: &str) -> (r: Vec<ExpiredDomain>)
    ensures
        r.deep_view() == fetched_results(*fetch, keyword@, tld@),
        r.len() <= RESULT_CAP,
{
    match fetch {
        FeedFetch::Body(text) => read_feed(LineFeed::NameJet, text.as_str(), 0, keyword, tld),
        _ => {
            let results: Vec<ExpiredDomain> = Vec::new();
            assert(results.deep_view() =~= Seq::<ExpiredDomainView>::empty());
            results
        },
    }
}

/// Whether the second inventory file is to be fetched after the first.
pub fn namejet_wants_second(keyword: &str, tld: &str, first: &FeedFetch) -> (r: bool)
    ensures
        r == second_file_wanted(*first, keyword@, tld@),
{
    match first {
        FeedFetch::Body(_) => {
            let found = read_fetch(first, keyword, tld);
            assert(found.deep_view().len() == found@.len());
            found.len() == 0
        },
        FeedFetch::Unavailable => true,
        FeedFetch::Unreadable => false,
    }
}

/// What the inventory files yield. The second file is read only where the
/// first was passed over or yielded nothing.
pub fn search_namejet(keyword: &str, tld: &str, first: &FeedFetch, second: &FeedFetch) -> (r:
    Option<Vec<ExpiredDomain>>)
    ensures
        outcome_view(r) == namejet_results(*first, *second, keyword@, tld@),
        r.is_some() ==> r.unwrap().len() <= RESULT_CAP,
{
    match first {
        FeedFetch::Unreadable => None,
        _ => {
            let found = read_fetch(first, keyword, tld);
            assert(found.deep_view().len() == found@.len());
            if found.len() > 0 {
                Some(found)
            } else {
                match second {
                    FeedFetch::Unreadable => None,
                    _ => Some(read_fetch(second, keyword, tld)),
                }
            }
        },
    }
}

/// The domain names of a list of results, in order.
pub open spec fn names(results: Seq<ExpiredDomainView>) -> Seq<Seq<char>> {
    Seq::new(results.len(), |i: int| results[i].domain)
}

/// The list `acc` after the results `found[from..]` of a source have
/// entered it in order: a result enters unless its name is in the list
/// already, and nothing enters once the list holds `RESULT_CAP` results.
pub open spec fn merged(acc: Seq<ExpiredDomainView>, found: Seq<ExpiredDomainView>, from: int)
    -> Seq<ExpiredDomainView>
    decreases found.len() - from,
{
    if 0 <= from < found.len() && acc.len() < RESULT_CAP {
        if names(acc).contains(found[from].domain) {
            merged(acc, found, from + 1)
        } else {
            merged(acc.push(found[from]), found, from + 1)
        }
    } else {
        acc
    }
}

/// Merging keeps what was there, in place; it repeats no name; and it
/// stays within the cap.
pub proof fn lemma_merged(acc: Seq<ExpiredDomainView>, found: Seq<ExpiredDomainView>, from: int)
    requires
        names(acc).no_duplicates(),
        acc.len() <= RESULT_CAP,
    ensures
        acc.is_prefix_of(merged(acc, found, from)),
        names(merged(acc, found, from)).no_duplicates(),
        merged(acc, found, from).len() <= RESULT_CAP,
    decreases found.len() - from,
{
    if 0 <= from < found.len() && acc.len() < RESULT_CAP {
        if names(acc).contains(found[from].domain) {
            lemma_merged(acc, found, from + 1);
        } else {
            let next = acc.push(found[from]);
            assert(names(next) =~= names(acc).push(found[from].domain));
            assert forall|i: int, j: int|
                0 <= i < names(next).len() && 0 <= j < names(next).len() && i != j implies names(
                next,
            )[i] != names(next)[j] by {
                if i < acc.len() && j < acc.len() {
                    assert(names(acc)[i] != names(acc)[j]);
                } else if i < acc.len() {
                    assert(names(acc)[i] != found[from].domain);
                } else {
                    assert(names(acc)[j] != found[from].domain);
                }
            }
            lemma_merged(next, found, from + 1);
            assert(acc.is_prefix_of(next));
        }
    }
}

/// A source whose results carry `RESULT_CAP` names or more, all different
/// from each other and from those in the list, fills the list to the cap.
pub proof fn lemma_merged_fills(
    acc: Seq<ExpiredDomainView>,
    found: Seq<ExpiredDomainView>,
    from: int,
)
    requires
        0 <= from <= found.len(),
        acc.len() <= RESULT_CAP,
        acc.len() + (found.len() - from) >= RESULT_CAP,
        names(found).no_duplicates(),
        forall|i: int| from <= i < found.len() ==> !names(acc).contains(#[trigger] found[i].domain),
    ensures
        merged(acc, found, from).len() == RESULT_CAP,
    decreases found.len() - from,
{
    if from < found.len() && acc.len() < RESULT_CAP {
        let next = acc.push(found[from]);
        assert(names(next) =~= names(acc).push(found[from].domain));
        assert forall|i: int| from + 1 <= i < found.len() implies !names(next).contains(
            #[trigger] found[i].domain,
        ) by {
            assert(names(found)[i] == found[i].domain);
            assert(names(found)[from] == found[from].domain);
            if names(next).contains(found[i].domain) {
                let k = choose|k: int|
                    0 <= k < names(next).len() && names(next)[k] == found[i].domain;
                if k < acc.len() {
                    assert(names(acc)[k] == found[i].domain);
                }
            }
        }
        lemma_merged_fills(next, found, from + 1);
    }
}

/// The four sources, in the order in which they are asked.
#[derive(Debug, Clone, Copy, PartialEq, Eq)]
pub enum Source {
    DomainsDb,
    Dynadot,
    NameJet,
    SnapNames,
}

/// The number of sources.
pub const SOURCE_COUNT: usize = 4;

/// The source to ask after `asked` sources, with `held` results so far:
/// none once the results have reached the cap or every source was asked.
pub open spec fn source_after(held: nat, asked: nat) -> Option<Source> {
    if held >= RESULT_CAP {
        None
    } else if asked == 0 {
        Some(Source::DomainsDb)
    } else if asked == 1 {
        Some(Source::Dynadot)
    } else if asked == 2 {
        Some(Source::NameJet)
    } else if asked == 3 {
        Some(Source::SnapNames)
    } else {
        None
    }
}

/// The results after the outcome of a source: those of a source that
/// yielded results are merged in, and a failed source changes nothing.
pub open spec fn absorbed(
    results: Seq<ExpiredDomainView>,
    outcome: Option<Seq<ExpiredDomainView>>,
) -> Seq<ExpiredDomainView> {
    match outcome {
        Some(found) => merged(results, found, 0),
        None => results,
    }
}

/// The running state of an aggregation: the results so far and the number
/// of sources asked.
#[derive(Debug)]
pub struct Aggregator {
    domains: Vec<ExpiredDomain>,
    asked: usize,
}

impl Aggregator {
    /// The results so far.
    pub closed spec fn results(&self) -> Seq<ExpiredDomainView> {
        self.domains.deep_view()
    }

    /// The number of sources asked so far.
    pub closed spec fn asked(&self) -> nat {
        self.asked as nat
    }

    /// The results repeat no name and stay within the cap.
    #[verifier::type_invariant]
    pub closed spec fn well_formed(&self) -> bool {
        &&& names(self.domains.deep_view()).no_duplicates()
        &&& self.domains.len() <= RESULT_CAP
        &&& self.asked <= SOURCE_COUNT
    }

    /// The source to ask next, if any.
    pub open spec fn pending(&self) -> Option<Source> {
        source_after(self.results().len(), self.asked())
    }

    /// An aggregation that has asked no source yet.
    pub fn new() -> (r: Self)
        ensures
            r.results() == Seq::<ExpiredDomainView>::empty(),
            r.asked() == 0,
    {
        let domains: Vec<ExpiredDomain> = Vec::new();
        assert(domains.deep_view() =~= Seq::<ExpiredDomainView>::empty());
        assert(names(domains.deep_view()) =~= Seq::<Seq<char>>::empty());
        Aggregator { domains, asked: 0 }
    }

    /// The source to ask next: the sources come in their order, and none
    /// is asked once the results have reached the cap.
    pub fn next_source(&self) -> (r: Option<Source>)
        ensures
            r == self.pending(),
    {
        proof {
            use_type_invariant(self);
        }
        if self.domains.len() >= RESULT_CAP {
            None
        } else if self.asked == 0 {
            Some(Source::DomainsDb)
        } else if self.asked == 1 {
            Some(Source::Dynadot)
        } else if self.asked == 2 {
            Some(Source::NameJet)
        } else if self.asked == 3 {
            Some(Source::SnapNames)
        } else {
            None
        }
    }

    /// Takes in the outcome of the pending source; `None` stands for a
    /// source that failed, which is passed over. Where no source is
    /// pending nothing changes.
    pub fn absorb(self, outcome: Option<Vec<ExpiredDomain>>) -> (r: Self)
        ensures
            self.pending().is_none() ==> r.results() == self.results() && r.asked()
                == self.asked(),
            self.pending().is_some() ==> r.results() == absorbed(
                self.results(),
                outcome_view(outcome),
            ) && r.asked() == self.asked() + 1,
            self.results().is_prefix_of(r.results()),
            names(r.results()).no_duplicates(),
            r.results().len() <= RESULT_CAP,
    {
        proof {
            use_type_invariant(&self);
        }
        if self.domains.len() >= RESULT_CAP || self.asked >= SOURCE_COUNT {
            return self;
        }
        let asked = self.asked + 1;
        let mut domains = self.domains;
        let ghost start = domains.deep_view();
        match outcome {
            Some(found) => {
                let mut i: usize = 0;
                proof {
                    lemma_merged(start, found.deep_view(), 0);
                }
                while i < found.len() && domains.len() < RESULT_CAP
                    invariant
                        domains.len() <= RESULT_CAP,
                        names(domains.deep_view()).no_duplicates(),
                        merged(start, found.deep_view(), 0) == merged(
                            domains.deep_view(),
                            found.deep_view(),
                            i as int,
                        ),
                    decreases found.len() - i,
                {
                    let seen = holds_name(&domains, found[i].domain.as_str());
                    assert(found.deep_view()[i as int] == found@[i as int]@);
                    if !seen {
                        let entry = copy_result(&found[i]);
                        let ghost before = domains;
                        domains.push(entry);
                        proof {
                            lemma_deep_view_push(before, domains, entry);
                            lemma_merged(before.deep_view(), found.deep_view(), i as int);
                            lemma_push_keeps_distinct(before.deep_view(), entry@);
                        }
                    }
                    i += 1;
                }
                proof {
                    lemma_merged(start, found.deep_view(), 0);
                }
                Aggregator { domains, asked }
            },
            None => Aggregator { domains, asked },
        }
    }

    /// The results, in the order of the sources and, within a source, in
    /// the order in which it reported them.
    pub fn into_results(self) -> (r: Vec<ExpiredDomain>)
        ensures
            r.deep_view() == self.results(),
            names(r.deep_view()).no_duplicates(),
            r.len() <= RESULT_CAP,
    {
        proof {
            use_type_invariant(&self);
        }
        self.domains
    }
}

/// Appending a result under a new name keeps the names different.
pub proof fn lemma_push_keeps_distinct(acc: Seq<ExpiredDomainView>, entry: ExpiredDomainView)
    requires
        names(acc).no_duplicates(),
        !names(acc).contains(entry.domain),
    ensures
        names(acc.push(entry)).no_duplicates(),
{
    let next = acc.push(entry);
    assert(names(next) =~= names(acc).push(entry.domain));
    assert forall|i: int, j: int|
        0 <= i < names(next).len() && 0 <= j < names(next).len() && i != j implies names(next)[i]
        != names(next)[j] by {
        if i < acc.len() && j < acc.len() {
            assert(names(acc)[i] != names(acc)[j]);
        } else if i < acc.len() {
            assert(names(acc)[i] != entry.domain);
        } else {
            assert(names(acc)[j] != entry.domain);
        }
    }
}

/// Whether one of the results carries the name `name`.
pub fn holds_name(results: &Vec<ExpiredDomain>, name: &str) -> (r: bool)
    ensures
        r == names(results.deep_view()).contains(name@),
{
    let mut i: usize = 0;
    while i < results.len()
        invariant
            i <= results.len(),
            forall|k: int| 0 <= k < i ==> names(results.deep_view())[k] != name@,
        decreases results.len() - i,
    {
        if same(results[i].domain.as_str(), name) {
            assert(names(results.deep_view())[i as int] == name@);
            return true;
        }
        i += 1;
    }
    false
}

/// A copy of a result.
pub fn copy_result(found: &ExpiredDomain) -> (r: ExpiredDomain)
    ensures
        r@ == found@,
{
    ExpiredDomain {
        domain: found.domain.clone(),
        status: found.status.clone(),
        source: found.source.clone(),
        created: copy_text(&found.created),
        updated: copy_text(&found.updated),
        end_time: copy_text(&found.end_time),
        appraisal: copy_text(&found.appraisal),
        starting_price: copy_text(&found.starting_price),
        has_dns: found.has_dns,
    }
}

/// What came back from the feeds of the four sources. `None` stands for a
/// feed that failed: a transport error, another status than success, or a
/// body that could not be decoded.
#[derive(Debug)]
pub struct ExpiredFeeds {
    pub domainsdb: Option<DomainsDbResponse>,
    pub dynadot: Option<String>,
    pub namejet_first: FeedFetch,
    pub namejet_second: FeedFetch,
    pub snapnames: Option<String>,
}

/// What a source yields from its feed, or `None` where the source failed.
pub open spec fn source_outcome(
    source: Source,
    feeds: ExpiredFeeds,
    keyword: Seq<char>,
    tld: Seq<char>,
) -> Option<Seq<ExpiredDomainView>> {
    match source {
        Source::DomainsDb => match feeds.domainsdb {
            Some(response) => Some(
                capped(domainsdb_candidates(response, keyword, tld), 0, RESULT_CAP as nat),
            ),
            None => None,
        },
        Source::Dynadot => match feeds.dynadot {
            Some(text) => Some(table_results(LineFeed::Dynadot, text@, keyword, tld)),
            None => None,
        },
        Source::NameJet => namejet_results(
            feeds.namejet_first,
            feeds.namejet_second,
            keyword,
            tld,
        ),
        Source::SnapNames => match feeds.snapnames {
            Some(text) => Some(table_results(LineFeed::SnapNames, text@, keyword, tld)),
            None => None,
        },
    }
}

/// The results after the source that is pending, if any, was consulted.
pub open spec fn consulted(
    results: Seq<ExpiredDomainView>,
    asked: nat,
    feeds: ExpiredFeeds,
    keyword: Seq<char>,
    tld: Seq<char>,
) -> Seq<ExpiredDomainView> {
    match source_after(results.len(), asked) {
        Some(source) => absorbed(results, source_outcome(source, feeds, keyword, tld)),
        None => results,
    }
}

/// The results of an aggregation over the feeds: the four sources are
/// consulted in their order, each only while the results are below the cap.
pub open spec fn aggregated(feeds: ExpiredFeeds, keyword: Seq<char>, tld: Seq<char>) -> Seq<
    ExpiredDomainView,
> {
    let first = consulted(Seq::empty(), 0, feeds, keyword, tld);
    let second = consulted(first, 1, feeds, keyword, tld);
    let third = consulted(second, 2, feeds, keyword, tld);
    consulted(third, 3, feeds, keyword, tld)
}

/// What a source yields from its feed.
pub fn read_source(source: Source, keyword: &str, tld: &str, feeds: &ExpiredFeeds) -> (r: Option<
    Vec<ExpiredDomain>,
>)
    ensures
        outcome_view(r) == source_outcome(source, *feeds, keyword@, tld@),
{
    match source {
        Source::DomainsDb => match &feeds.domainsdb {
            Some(response) => Some(search_domainsdb(keyword, tld, response)),
            None => None,
        },
        Source::Dynadot => match &feeds.dynadot {
            Some(text) => Some(search_dynadot(keyword, tld, text.as_str())),
            None => None,
        },
        Source::NameJet => search_namejet(
            keyword,
            tld,
            &feeds.namejet_first,
            &feeds.namejet_second,
        ),
        Source::SnapNames => match &feeds.snapnames {
            Some(text) => Some(search_snapnames(keyword, tld, text.as_str())),
            None => None,
        },
    }
}

/// Consults the pending source of an aggregation, if there is one. The
/// feed of a source that is not pending is not read.
pub fn consult(aggregator: Aggregator, keyword: &str, tld: &str, feeds: &ExpiredFeeds) -> (r:
    Aggregator)
    ensures
        r.results() == consulted(
            aggregator.results(),
            aggregator.asked(),
            *feeds,
            keyword@,
            tld@,
        ),
        aggregator.pending().is_some() ==> r.asked() == aggregator.asked() + 1,
        aggregator.pending().is_none() ==> r.asked() == aggregator.asked(),
{
    match aggregator.next_source() {
        Some(source) => {
            let outcome = read_source(source, keyword, tld, feeds);
            aggregator.absorb(outcome)
        },
        None => aggregator,
    }
}

/// The expired domains that match `keyword` and `tld`, from what the feeds
/// of the four sources came back with.
///
/// The sources are consulted in their order, and none once the results
/// number `RESULT_CAP`. A source that failed is passed over. No name is
/// reported twice: a name that an earlier source reported is not taken from
/// a later one. The results keep the order of the sources and, within a
/// source, the order of its feed.
pub fn search_expired_domains(keyword: &str, tld: &str, feeds: &ExpiredFeeds) -> (r: Vec<
    ExpiredDomain,
>)
    ensures
        r.deep_view() == aggregated(*feeds, keyword@, tld@),
        names(r.deep_view()).no_duplicates(),
        r.len() <= RESULT_CAP,
{
    let start = Aggregator::new();
    let first = consult(start, keyword, tld, feeds);
    let second = if first.next_source().is_some() {
        consult(first, keyword, tld, feeds)
    } else {
        first
    };
    let third = if second.next_source().is_some() {
        consult(second, keyword, tld, feeds)
    } else {
        second
    };
    let fourth = if third.next_source().is_some() {
        consult(third, keyword, tld, feeds)
    } else {
        third
    };
    fourth.into_results()
}

/// A first source that reports `RESULT_CAP` results or more under names
/// that all differ ends the aggregation: whatever the number of sources
/// asked, no source is pending after it.
pub proof fn lemma_full_first_source_ends(found: Seq<ExpiredDomainView>, asked: nat)
    requires
        found.len() >= RESULT_CAP,
        names(found).no_duplicates(),
    ensures
        absorbed(Seq::empty(), Some(found)).len() == RESULT_CAP,
        source_after(absorbed(Seq::empty(), Some(found)).len(), asked).is_none(),
{
    let empty = Seq::<ExpiredDomainView>::empty();
    assert(names(empty) =~= Seq::<Seq<char>>::empty());
    lemma_merged_fills(empty, found, 0);
}

/// Once the results have reached the cap, consulting changes nothing:
/// every later source is left alone, whatever its feed holds.
pub proof fn lemma_consulting_ends_at_cap(
    results: Seq<ExpiredDomainView>,
    asked: nat,
    feeds: ExpiredFeeds,
    keyword: Seq<char>,
    tld: Seq<char>,
)
    requires
        results.len() >= RESULT_CAP,
    ensures
        consulted(results, asked, feeds, keyword, tld) == results,
{
}

/// The results of an aggregation repeat no name and number `RESULT_CAP`
/// at most, whatever the feeds hold.
pub proof fn lemma_aggregated(feeds: ExpiredFeeds, keyword: Seq<char>, tld: Seq<char>)
    ensures
        names(aggregated(feeds, keyword, tld)).no_duplicates(),
        aggregated(feeds, keyword, tld).len() <= RESULT_CAP,
{
    let empty = Seq::<ExpiredDomainView>::empty();
    assert(names(empty) =~= Seq::<Seq<char>>::empty());
    lemma_consulted(empty, 0, feeds, keyword, tld);
    let first = consulted(empty, 0, feeds, keyword, tld);
    lemma_consulted(first, 1, feeds, keyword, tld);
    let second = consulted(first, 1, feeds, keyword, tld);
    lemma_consulted(second, 2, feeds, keyword, tld);
    let third = consulted(second, 2, feeds, keyword, tld);
    lemma_consulted(third, 3, feeds, keyword, tld);
}

/// Consulting a source keeps what was there, repeats no name and stays
/// within the cap.
pub proof fn lemma_consulted(
    results: Seq<ExpiredDomainView>,
    asked: nat,
    feeds: ExpiredFeeds,
    keyword: Seq<char>,
    tld: Seq<char>,
)
    requires
        names(results).no_duplicates(),
        results.len() <= RESULT_CAP,
    ensures
        results.is_prefix_of(consulted(results, asked, feeds, keyword, tld)),
        names(consulted(results, asked, feeds, keyword, tld)).no_duplicates(),
        consulted(results, asked, feeds, keyword, tld).len() <= RESULT_CAP,
{
    match source_after(results.len(), asked) {
        Some(source) => match source_outcome(source, feeds, keyword, tld) {
            Some(found) => lemma_merged(results, found, 0),
            None => {},
        },
        None => {},
    }
}

/// The first text of a list, or the empty text where the list is empty.
pub open spec fn first_or_empty(list: Seq<Seq<char>>) -> Seq<char> {
    if list.len() > 0 {
        list[0]
    } else {
        Seq::empty()
    }
}

/// The keyword and the TLD of a search, from the lists that a request
/// names: the first of each list, and the empty text, which filters
/// nothing, where a list is empty or absent.
pub fn search_terms(keywords: &Vec<String>, tlds: &Option<Vec<String>>) -> (r: (String, String))
    ensures
        r.0@ == first_or_empty(keywords.deep_view()),
        r.1@ == match tlds {
            Some(list) => first_or_empty(list.deep_view()),
            None => Seq::empty(),
        },
{
    let keyword = if keywords.len() > 0 {
        assert(keywords.deep_view()[0] == keywords@[0]@);
        keywords[0].clone()
    } else {
        String::new()
    };
    let tld = match tlds {
        Some(list) => {
            if list.len() > 0 {
                assert(list.deep_view()[0] == list@[0]@);
                list[0].clone()
            } else {
                String::new()
            }
        },
        None => String::new(),
    };
    (keyword, tld)
}

} // verus!
