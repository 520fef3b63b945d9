//! DNS answers: assembling the record set of a domain from the answers to
//! the seven record-type queries, and flattening it into a list of records.

use crate::decimal::{
    decimal, is_digit, lemma_decimal, lemma_decimal_reads_back, lemma_signed_decimal_reads_back,
    parse_i32, parse_u16, parse_u32, push_decimal, push_signed_decimal, signed_decimal,
    signed_value, unsigned_value,
};
use crate::text::{
    append, is_token, joined, lemma_deep_view_push, lemma_joined_push, lemma_tokens_of_joined,
    split_whitespace, text_of, to_chars, tokens_of,
};
use vstd::prelude::*;

verus! {

/// The record set of one domain.
#[derive(Debug)]
pub struct DnsLookupResult {
    pub domain: String,
    pub a_records: Vec<String>,
    pub aaaa_records: Vec<String>,
    pub mx_records: Vec<MxRecord>,
    pub txt_records: Vec<String>,
    pub ns_records: Vec<String>,
    pub cname_records: Vec<String>,
    pub soa_record: Option<SoaRecord>,
}

/// A mail exchange with its priority.
#[derive(Debug)]
pub struct MxRecord {
    pub priority: u16,
    pub exchange: String,
}

/// The start-of-authority record of a zone.
#[derive(Debug)]
pub struct SoaRecord {
    pub primary_ns: String,
    pub responsible_party: String,
    pub serial: u32,
    pub refresh: i32,
    pub retry: i32,
    pub expire: i32,
    pub minimum: u32,
}

/// One entry of the flat record list.
#[derive(Debug)]
pub struct DnsRecord {
    pub record_type: String,
    pub name: String,
    pub value: String,
    pub ttl: Option<u32>,
}

/// One answer of a DNS-over-HTTPS response: the record data as text, and
/// its time to live where the response gave one.
#[derive(Debug)]
pub struct DnsAnswer {
    pub data: String,
    pub ttl: Option<u32>,
}

/// The outcome of the seven record-type queries for one domain. `None`
/// stands for a query that failed: a transport error or a body that could
/// not be decoded.
#[derive(Debug)]
pub struct DnsResponses {
    pub a: Option<Vec<DnsAnswer>>,
    pub aaaa: Option<Vec<DnsAnswer>>,
    pub mx: Option<Vec<DnsAnswer>>,
    pub txt: Option<Vec<DnsAnswer>>,
    pub ns: Option<Vec<DnsAnswer>>,
    pub cname: Option<Vec<DnsAnswer>>,
    pub soa: Option<Vec<DnsAnswer>>,
}

/// The mathematical value of an `MxRecord`.
pub struct MxRecordView {
    pub priority: u16,
    pub exchange: Seq<char>,
}

/// The mathematical value of a `SoaRecord`.
pub struct SoaRecordView {
    pub primary_ns: Seq<char>,
    pub responsible_party: Seq<char>,
    pub serial: u32,
    pub refresh: i32,
    pub retry: i32,
    pub expire: i32,
    pub minimum: u32,
}

/// The mathematical value of a `DnsRecord`.
pub struct DnsRecordView {
    pub record_type: Seq<char>,
    pub name: Seq<char>,
    pub value: Seq<char>,
    pub ttl: Option<u32>,
}

/// The mathematical value of a `DnsLookupResult`.
pub struct DnsLookupResultView {
    pub domain: Seq<char>,
    pub a_records: Seq<Seq<char>>,
    pub aaaa_records: Seq<Seq<char>>,
    pub mx_records: Seq<MxRecordView>,
    pub txt_records: Seq<Seq<char>>,
    pub ns_records: Seq<Seq<char>>,
    pub cname_records: Seq<Seq<char>>,
    pub soa_record: Option<SoaRecordView>,
}

impl View for MxRecord {
    type V = MxRecordView;

    open spec fn view(&self) -> MxRecordView {
        MxRecordView { priority: self.priority, exchange: self.exchange@ }
    }
}

impl DeepView for MxRecord {
    type V = MxRecordView;

    open spec fn deep_view(&self) -> MxRecordView {
        self@
    }
}

impl View for SoaRecord {
    type V = SoaRecordView;

    open spec fn view(&self) -> SoaRecordView {
        SoaRecordView {
            primary_ns: self.primary_ns@,
            responsible_party: self.responsible_party@,
            serial: self.serial,
            refresh: self.refresh,
            retry: self.retry,
            expire: self.expire,
            minimum: self.minimum,
        }
    }
}

impl View for DnsRecord {
    type V = DnsRecordView;

    open spec fn view(&self) -> DnsRecordView {
        DnsRecordView {
            record_type: self.record_type@,
            name: self.name@,
            value: self.value@,
            ttl: self.ttl,
        }
    }
}

impl DeepView for DnsRecord {
    type V = DnsRecordView;

    open spec fn deep_view(&self) -> DnsRecordView {
        self@
    }
}

impl View for DnsLookupResult {
    type V = DnsLookupResultView;

    open spec fn view(&self) -> DnsLookupResultView {
        DnsLookupResultView {
            domain: self.domain@,
            a_records: self.a_records.deep_view(),
            aaaa_records: self.aaaa_records.deep_view(),
            mx_records: self.mx_records.deep_view(),
            txt_records: self.txt_records.deep_view(),
            ns_records: self.ns_records.deep_view(),
            cname_records: self.cname_records.deep_view(),
            soa_record: match self.soa_record {
                Some(soa) => Some(soa@),
                None => None,
            },
        }
    }
}

/// The data lines of a query's outcome: those of its answers, in order,
/// and none for a failed query.
pub open spec fn answer_lines(response: Option<Vec<DnsAnswer>>) -> Seq<Seq<char>> {
    match response {
        Some(answers) => Seq::new(answers@.len(), |i: int| answers@[i].data@),
        None => Seq::empty(),
    }
}

/// What a response to a record-type query yields: the answers of a
/// response with a success status that holds an answer section, and none
/// otherwise.
pub open spec fn response_answers(success: bool, answer: Option<Vec<DnsAnswer>>) -> Seq<
    DnsAnswer,
> {
    match answer {
        Some(answers) if success => answers@,
        _ => Seq::empty(),
    }
}

/// The answers that a decoded response yields.
pub fn cloudflare_dns_lookup(success: bool, answer: Option<Vec<DnsAnswer>>) -> (r: Vec<
    DnsAnswer,
>)
    ensures
        r@ == response_answers(success, answer),
{
    if success {
        match answer {
            Some(answers) => answers,
            None => Vec::new(),
        }
    } else {
        Vec::new()
    }
}

/// What one MX data line reads as: the first token is the priority, an
/// unsigned 16-bit number, and the second the exchange. A line with fewer
/// than two tokens, or whose first token is no such number, reads as
/// nothing.
pub open spec fn mx_of_line(line: Seq<char>) -> Option<MxRecordView> {
    let parts = tokens_of(line);
    if parts.len() >= 2 {
        match unsigned_value(parts[0], 0xFFFF) {
            Some(p) => Some(MxRecordView { priority: p as u16, exchange: parts[1] }),
            None => None,
        }
    } else {
        None
    }
}

/// The MX records that the data lines read as, in order; lines that read
/// as nothing are left out.
pub open spec fn mx_of_lines(lines: Seq<Seq<char>>) -> Seq<MxRecordView>
    decreases lines.len(),
{
    if lines.len() == 0 {
        Seq::empty()
    } else {
        let front = mx_of_lines(lines.drop_last());
        match mx_of_line(lines.last()) {
            Some(mx) => front.push(mx),
            None => front,
        }
    }
}

/// A numeric SOA field: the number that the token writes, and zero where
/// it writes none that fits.
pub open spec fn soa_unsigned(token: Seq<char>) -> u32 {
    match unsigned_value(token, 0xFFFF_FFFF) {
        Some(n) => n as u32,
        None => 0,
    }
}

/// A signed numeric SOA field: the number that the token writes, and zero
/// where it writes none that fits.
pub open spec fn soa_signed(token: Seq<char>) -> i32 {
    match signed_value(token, -0x8000_0000, 0x7FFF_FFFF) {
        Some(n) => n as i32,
        None => 0,
    }
}

/// What SOA data reads as: exactly seven tokens in the order primary name
/// server, responsible party, serial, refresh, retry, expire, minimum. Text
/// with another number of tokens reads as nothing.
pub open spec fn soa_of_line(line: Seq<char>) -> Option<SoaRecordView> {
    let parts = tokens_of(line);
    if parts.len() == 7 {
        Some(
            SoaRecordView {
                primary_ns: parts[0],
                responsible_party: parts[1],
                serial: soa_unsigned(parts[2]),
                refresh: soa_signed(parts[3]),
                retry: soa_signed(parts[4]),
                expire: soa_signed(parts[5]),
                minimum: soa_unsigned(parts[6]),
            },
        )
    } else {
        None
    }
}

/// The SOA record of a query's outcome: what its first answer reads as.
pub open spec fn soa_of_lines(lines: Seq<Seq<char>>) -> Option<SoaRecordView> {
    if lines.len() > 0 {
        soa_of_line(lines[0])
    } else {
        None
    }
}

/// The record set that the seven outcomes for `domain` amount to. Each
/// part is a function of the outcome of its own query alone.
pub open spec fn lookup_result(domain: Seq<char>, responses: DnsResponses) -> DnsLookupResultView {
    DnsLookupResultView {
        domain,
        a_records: answer_lines(responses.a),
        aaaa_records: answer_lines(responses.aaaa),
        mx_records: mx_of_lines(answer_lines(responses.mx)),
        txt_records: answer_lines(responses.txt),
        ns_records: answer_lines(responses.ns),
        cname_records: answer_lines(responses.cname),
        soa_record: soa_of_lines(answer_lines(responses.soa)),
    }
}

/// Reads one MX data line.
pub fn parse_mx_record(line: &str) -> (r: Option<MxRecord>)
    ensures
        match r {
            Some(mx) => mx_of_line(line@) == Some(mx@),
            None => mx_of_line(line@).is_none(),
        },
{
    let chars = to_chars(line);
    let parts = split_whitespace(&chars);
    if parts.len() >= 2 {
        proof {
            crate::text::lemma_chars_deep_view(parts@[0]);
            crate::text::lemma_chars_deep_view(parts@[1]);
            assert(parts.deep_view()[0] == parts@[0]@);
            assert(parts.deep_view()[1] == parts@[1]@);
        }
        match parse_u16(&parts[0]) {
            Some(priority) => Some(MxRecord { priority, exchange: text_of(&parts[1]) }),
            None => None,
        }
    } else {
        None
    }
}

/// Reads an unsigned numeric SOA field.
pub fn parse_soa_unsigned(token: &Vec<char>) -> (n: u32)
    ensures
        n == soa_unsigned(token@),
{
    match parse_u32(token) {
        Some(n) => n,
        None => 0,
    }
}

/// Reads a signed numeric SOA field.
pub fn parse_soa_signed(token: &Vec<char>) -> (n: i32)
    ensures
        n == soa_signed(token@),
{
    match parse_i32(token) {
        Some(n) => n,
        None => 0,
    }
}

/// Reads SOA data.
pub fn parse_soa_record(line: &str) -> (r: Option<SoaRecord>)
    ensures
        match r {
            Some(soa) => soa_of_line(line@) == Some(soa@),
            None => soa_of_line(line@).is_none(),
        },
{
    let chars = to_chars(line);
    let parts = split_whitespace(&chars);
    if parts.len() == 7 {
        proof {
            assert forall|i: int| 0 <= i < 7 implies parts.deep_view()[i] == parts@[i]@ by {
                crate::text::lemma_chars_deep_view(parts@[i]);
            }
        }
        Some(
            SoaRecord {
                primary_ns: text_of(&parts[0]),
                responsible_party: text_of(&parts[1]),
                serial: parse_soa_unsigned(&parts[2]),
                refresh: parse_soa_signed(&parts[3]),
                retry: parse_soa_signed(&parts[4]),
                expire: parse_soa_signed(&parts[5]),
                minimum: parse_soa_unsigned(&parts[6]),
            },
        )
    } else {
        None
    }
}

/// The data lines of a query's outcome.
pub fn record_data(response: &Option<Vec<DnsAnswer>>) -> (r: Vec<String>)
    ensures
        r.deep_view() == answer_lines(*response),
{
    let mut out: Vec<String> = Vec::new();
    match response {
        Some(answers) => {
            let mut i: usize = 0;
            assert(out.deep_view() =~= answer_lines(*response).take(0));
            while i < answers.len()
                invariant
                    i <= answers.len(),
                    *response == Some(*answers),
                    out.deep_view() == answer_lines(*response).take(i as int),
                decreases answers.len() - i,
            {
                let line = answers[i].data.clone();
                let ghost before = out;
                out.push(line);
                proof {
                    lemma_deep_view_push(before, out, line);
                    assert(answer_lines(*response).take(i as int).push(line@)
                        =~= answer_lines(*response).take(i as int + 1));
                }
                i += 1;
            }
            assert(answer_lines(*response).take(answers@.len() as int) =~= answer_lines(
                *response,
            ));
        },
        None => {
            assert(out.deep_view() =~= Seq::<Seq<char>>::empty());
        },
    }
    out
}

/// The MX records among the data lines.
pub fn mx_records(lines: &Vec<String>) -> (r: Vec<MxRecord>)
    ensures
        r.deep_view() == mx_of_lines(lines.deep_view()),
{
    let mut out: Vec<MxRecord> = Vec::new();
    let mut i: usize = 0;
    assert(out.deep_view() =~= mx_of_lines(lines.deep_view().take(0)));
    while i < lines.len()
        invariant
            i <= lines.len(),
            out.deep_view() == mx_of_lines(lines.deep_view().take(i as int)),
        decreases lines.len() - i,
    {
        let ghost longer = lines.deep_view().take(i as int + 1);
        assert(longer.drop_last() =~= lines.deep_view().take(i as int));
        assert(longer.last() == lines@[i as int]@);
        match parse_mx_record(lines[i].as_str()) {
            Some(mx) => {
                let ghost before = out;
                out.push(mx);
                proof {
                    lemma_deep_view_push(before, out, mx);
                }
            },
            None => {},
        }
        i += 1;
    }
    assert(lines.deep_view().take(lines@.len() as int) =~= lines.deep_view());
    out
}

/// Assembles the record set of `domain` from the outcomes of the seven
/// record-type queries. A failed query leaves its own part empty and
/// touches no other part.
pub fn lookup(domain: &str, responses: &DnsResponses) -> (r: DnsLookupResult)
    ensures
        r@ == lookup_result(domain@, *responses),
{
    let a_records = record_data(&responses.a);
    let aaaa_records = record_data(&responses.aaaa);
    let mx_lines = record_data(&responses.mx);
    let mx_records = mx_records(&mx_lines);
    let txt_records = record_data(&responses.txt);
    let ns_records = record_data(&responses.ns);
    let cname_records = record_data(&responses.cname);
    let soa_lines = record_data(&responses.soa);
    let soa_record = if soa_lines.len() > 0 {
        assert(soa_lines.deep_view()[0] == soa_lines@[0]@);
        parse_soa_record(soa_lines[0].as_str())
    } else {
        None
    };
    DnsLookupResult {
        domain: domain.to_owned(),
        a_records,
        aaaa_records,
        mx_records,
        txt_records,
        ns_records,
        cname_records,
        soa_record,
    }
}

/// The entries of one record type: one for each value, in order, under
/// the given name and without a time to live.
pub open spec fn plain_records(kind: Seq<char>, name: Seq<char>, values: Seq<Seq<char>>) -> Seq<
    DnsRecordView,
> {
    Seq::new(
        values.len(),
        |i: int| DnsRecordView { record_type: kind, name, value: values[i], ttl: None },
    )
}

/// The fields of an MX record as texts: the priority in decimal, and the
/// exchange.
pub open spec fn mx_fields(mx: MxRecordView) -> Seq<Seq<char>> {
    seq![decimal(mx.priority as nat), mx.exchange]
}

/// An MX record as text: its fields with one space between them.
pub open spec fn mx_text(mx: MxRecordView) -> Seq<char> {
    joined(mx_fields(mx), ' ')
}

/// The MX records as text, in order.
pub open spec fn mx_texts(records: Seq<MxRecordView>) -> Seq<Seq<char>> {
    Seq::new(records.len(), |i: int| mx_text(records[i]))
}

/// The seven fields of an SOA record as texts, the numbers in decimal.
pub open spec fn soa_fields(soa: SoaRecordView) -> Seq<Seq<char>> {
    seq![
        soa.primary_ns,
        soa.responsible_party,
        decimal(soa.serial as nat),
        signed_decimal(soa.refresh as int),
        signed_decimal(soa.retry as int),
        signed_decimal(soa.expire as int),
        decimal(soa.minimum as nat),
    ]
}

/// An SOA record as text: its seven fields in order, with one space
/// between neighbours.
pub open spec fn soa_text(soa: SoaRecordView) -> Seq<char> {
    joined(soa_fields(soa), ' ')
}

/// The entry of the SOA record, if there is one.
pub open spec fn soa_records(name: Seq<char>, soa: Option<SoaRecordView>) -> Seq<DnsRecordView> {
    match soa {
        Some(soa) => seq![
            DnsRecordView { record_type: "SOA"@, name, value: soa_text(soa), ttl: None },
        ],
        None => Seq::empty(),
    }
}

/// The flat list of a record set: the A, AAAA, MX, TXT, NS and CNAME
/// entries in this order, each type in the order of the record set, and the
/// SOA entry last.
pub open spec fn flat_records(name: Seq<char>, set: DnsLookupResultView) -> Seq<DnsRecordView> {
    plain_records("A"@, name, set.a_records) + plain_records("AAAA"@, name, set.aaaa_records)
        + plain_records("MX"@, name, mx_texts(set.mx_records)) + plain_records(
        "TXT"@,
        name,
        set.txt_records,
    ) + plain_records("NS"@, name, set.ns_records) + plain_records(
        "CNAME"@,
        name,
        set.cname_records,
    ) + soa_records(name, set.soa_record)
}

/// An MX record as text.
pub fn format_mx(mx: &MxRecord) -> (r: String)
    ensures
        r@ == mx_text(mx@),
{
    let mut out: Vec<char> = Vec::new();
    push_decimal(&mut out, mx.priority as u64);
    let ghost first = seq![decimal(mx.priority as nat)];
    assert(out@ =~= joined(first, ' '));
    out.push(' ');
    let exchange = to_chars(mx.exchange.as_str());
    append(&mut out, &exchange);
    proof {
        lemma_joined_push(first, mx.exchange@, ' ');
        assert(first.push(mx.exchange@) =~= mx_fields(mx@));
    }
    text_of(&out)
}

/// Appends a space and the text `field` to `out`, which holds the fields
/// `done` joined so far.
fn push_field(out: &mut Vec<char>, field: &Vec<char>, Ghost(done): Ghost<Seq<Seq<char>>>)
    requires
        done.len() >= 1,
        old(out)@ == joined(done, ' '),
    ensures
        final(out)@ == joined(done.push(field@), ' '),
{
    out.push(' ');
    append(out, field);
    proof {
        lemma_joined_push(done, field@, ' ');
    }
}

/// An SOA record as text.
pub fn format_soa(soa: &SoaRecord) -> (r: String)
    ensures
        r@ == soa_text(soa@),
{
    let ghost fields = soa_fields(soa@);
    let mut out: Vec<char> = to_chars(soa.primary_ns.as_str());
    let ghost done = seq![fields[0]];
    assert(out@ == joined(done, ' '));
    let party = to_chars(soa.responsible_party.as_str());
    push_field(&mut out, &party, Ghost(done));
    let ghost done = done.push(fields[1]);
    let mut number: Vec<char> = Vec::new();
    push_decimal(&mut number, soa.serial as u64);
    assert(number@ =~= fields[2]);
    push_field(&mut out, &number, Ghost(done));
    let ghost done = done.push(fields[2]);
    let mut number: Vec<char> = Vec::new();
    push_signed_decimal(&mut number, soa.refresh as i64);
    assert(number@ =~= fields[3]);
    push_field(&mut out, &number, Ghost(done));
    let ghost done = done.push(fields[3]);
    let mut number: Vec<char> = Vec::new();
    push_signed_decimal(&mut number, soa.retry as i64);
    assert(number@ =~= fields[4]);
    push_field(&mut out, &number, Ghost(done));
    let ghost done = done.push(fields[4]);
    let mut number: Vec<char> = Vec::new();
    push_signed_decimal(&mut number, soa.expire as i64);
    assert(number@ =~= fields[5]);
    push_field(&mut out, &number, Ghost(done));
    let ghost done = done.push(fields[5]);
    let mut number: Vec<char> = Vec::new();
    push_decimal(&mut number, soa.minimum as u64);
    assert(number@ =~= fields[6]);
    push_field(&mut out, &number, Ghost(done));
    assert(done.push(fields[6]) =~= fields);
    text_of(&out)
}

/// The MX records as text, in order.
pub fn format_mx_records(records: &Vec<MxRecord>) -> (r: Vec<String>)
    ensures
        r.deep_view() == mx_texts(records.deep_view()),
{
    let mut out: Vec<String> = Vec::new();
    let mut i: usize = 0;
    assert(out.deep_view() =~= mx_texts(records.deep_view()).take(0));
    while i < records.len()
        invariant
            i <= records.len(),
            out.deep_view() == mx_texts(records.deep_view()).take(i as int),
        decreases records.len() - i,
    {
        let line = format_mx(&records[i]);
        let ghost before = out;
        out.push(line);
        proof {
            lemma_deep_view_push(before, out, line);
            assert(mx_texts(records.deep_view()).take(i as int).push(line@) =~= mx_texts(
                records.deep_view(),
            ).take(i as int + 1));
        }
        i += 1;
    }
    assert(mx_texts(records.deep_view()).take(records@.len() as int) =~= mx_texts(
        records.deep_view(),
    ));
    out
}

/// Appends the entries of one record type to `out`.
pub fn push_records(out: &mut Vec<DnsRecord>, kind: &str, name: &str, values: &Vec<String>)
    ensures
        final(out).deep_view() == old(out).deep_view() + plain_records(
            kind@,
            name@,
            values.deep_view(),
        ),
{
    let ghost all = plain_records(kind@, name@, values.deep_view());
    let mut i: usize = 0;
    assert(out.deep_view() =~= old(out).deep_view() + all.take(0));
    while i < values.len()
        invariant
            i <= values.len(),
            all == plain_records(kind@, name@, values.deep_view()),
            out.deep_view() == old(out).deep_view() + all.take(i as int),
        decreases values.len() - i,
    {
        let record = DnsRecord {
            record_type: kind.to_owned(),
            name: name.to_owned(),
            value: values[i].clone(),
            ttl: None,
        };
        let ghost before = *out;
        out.push(record);
        proof {
            lemma_deep_view_push(before, *out, record);
            assert(record@ == all[i as int]);
            assert((old(out).deep_view() + all.take(i as int)).push(record@) =~= old(
                out,
            ).deep_view() + all.take(i as int + 1));
        }
        i += 1;
    }
    assert(all.take(values@.len() as int) =~= all);
}

/// The flat list of the record set `lookup_result`, each entry under the
/// name `domain`.
pub fn get_dns_records(domain: &str, lookup_result: &DnsLookupResult) -> (r: Vec<DnsRecord>)
    ensures
        r.deep_view() == flat_records(domain@, lookup_result@),
{
    let mut records: Vec<DnsRecord> = Vec::new();
    assert(records.deep_view() =~= Seq::<DnsRecordView>::empty());
    push_records(&mut records, "A", domain, &lookup_result.a_records);
    push_records(&mut records, "AAAA", domain, &lookup_result.aaaa_records);
    let mx = format_mx_records(&lookup_result.mx_records);
    push_records(&mut records, "MX", domain, &mx);
    push_records(&mut records, "TXT", domain, &lookup_result.txt_records);
    push_records(&mut records, "NS", domain, &lookup_result.ns_records);
    push_records(&mut records, "CNAME", domain, &lookup_result.cname_records);
    match &lookup_result.soa_record {
        Some(soa) => {
            let record = DnsRecord {
                record_type: "SOA".to_owned(),
                name: domain.to_owned(),
                value: format_soa(soa),
                ttl: None,
            };
            let ghost before = records;
            records.push(record);
            proof {
                lemma_deep_view_push(before, records, record);
                assert(before.deep_view().push(record@) =~= before.deep_view() + soa_records(
                    domain@,
                    lookup_result@.soa_record,
                ));
            }
        },
        None => {
            assert(records.deep_view() + soa_records(domain@, lookup_result@.soa_record)
                =~= records.deep_view());
        },
    }
    assert(records.deep_view() =~= flat_records(domain@, lookup_result@));
    records
}

/// A failed query empties its own part of the record set and leaves every
/// other part as it was, for each of the seven queries.
pub proof fn lemma_failure_is_isolated(domain: Seq<char>, responses: DnsResponses)
    ensures
        ({
            let ok = lookup_result(domain, responses);
            let a = lookup_result(domain, DnsResponses { a: None, ..responses });
            let aaaa = lookup_result(domain, DnsResponses { aaaa: None, ..responses });
            let mx = lookup_result(domain, DnsResponses { mx: None, ..responses });
            let txt = lookup_result(domain, DnsResponses { txt: None, ..responses });
            let ns = lookup_result(domain, DnsResponses { ns: None, ..responses });
            let cname = lookup_result(domain, DnsResponses { cname: None, ..responses });
            let soa = lookup_result(domain, DnsResponses { soa: None, ..responses });
            &&& a == DnsLookupResultView { a_records: Seq::empty(), ..ok }
            &&& aaaa == DnsLookupResultView { aaaa_records: Seq::empty(), ..ok }
            &&& mx == DnsLookupResultView { mx_records: Seq::empty(), ..ok }
            &&& txt == DnsLookupResultView { txt_records: Seq::empty(), ..ok }
            &&& ns == DnsLookupResultView { ns_records: Seq::empty(), ..ok }
            &&& cname == DnsLookupResultView { cname_records: Seq::empty(), ..ok }
            &&& soa == DnsLookupResultView { soa_record: None, ..ok }
        }),
{
    assert(mx_of_lines(Seq::<Seq<char>>::empty()) =~= Seq::<MxRecordView>::empty());
}

/// A data line with fewer than two tokens gives no MX record.
pub proof fn lemma_mx_needs_two_tokens(line: Seq<char>)
    requires
        tokens_of(line).len() < 2,
    ensures
        mx_of_line(line).is_none(),
{
}

/// A data line whose first token writes no unsigned 16-bit number gives no
/// MX record; every other line of two tokens or more gives the record of
/// its first two tokens.
pub proof fn lemma_mx_of_two_tokens(line: Seq<char>)
    requires
        tokens_of(line).len() >= 2,
    ensures
        match unsigned_value(tokens_of(line)[0], 0xFFFF) {
            Some(priority) => mx_of_line(line) == Some(
                MxRecordView { priority: priority as u16, exchange: tokens_of(line)[1] },
            ),
            None => mx_of_line(line).is_none(),
        },
{
}

/// SOA data gives an SOA record exactly when it holds seven tokens: with
/// fewer there is none, and with seven there always is one.
pub proof fn lemma_soa_needs_seven_tokens(line: Seq<char>)
    ensures
        soa_of_line(line).is_some() == (tokens_of(line).len() == 7),
{
}

/// A numeric SOA field that writes no number is zero, and the record
/// stands all the same.
pub proof fn lemma_soa_field_defaults_to_zero(token: Seq<char>)
    ensures
        unsigned_value(token, 0xFFFF_FFFF).is_none() ==> soa_unsigned(token) == 0,
        signed_value(token, -0x8000_0000, 0x7FFF_FFFF).is_none() ==> soa_signed(token) == 0,
{
}

/// A number written in decimal is a token.
pub proof fn lemma_decimal_is_token(n: nat)
    ensures
        is_token(decimal(n)),
{
    lemma_decimal(n);
    assert forall|k: int| 0 <= k < decimal(n).len() implies !crate::text::is_whitespace(
        #[trigger] decimal(n)[k],
    ) by {
        assert(is_digit(decimal(n)[k]));
    }
}

/// A signed number written in decimal is a token.
pub proof fn lemma_signed_decimal_is_token(n: int)
    ensures
        is_token(signed_decimal(n)),
{
    if n < 0 {
        let m = (-n) as nat;
        lemma_decimal_is_token(m);
        let s = seq!['-'] + decimal(m);
        assert forall|k: int| 0 <= k < s.len() implies !crate::text::is_whitespace(
            #[trigger] s[k],
        ) by {
            if k > 0 {
                assert(s[k] == decimal(m)[k - 1]);
            }
        }
    } else {
        lemma_decimal_is_token(n as nat);
    }
}

/// The text of an MX record reads back as the record, where the exchange
/// is a name without white space: what the flat list shows of a record set
/// is what the record set was read from.
pub proof fn lemma_mx_text_reads_back(mx: MxRecordView)
    requires
        is_token(mx.exchange),
    ensures
        mx_of_line(mx_text(mx)) == Some(mx),
{
    lemma_decimal_is_token(mx.priority as nat);
    lemma_decimal_reads_back(mx.priority as nat, 0xFFFF);
    lemma_tokens_of_joined(mx_fields(mx));
}

/// The text of an SOA record reads back as the record, where the primary
/// name server and the responsible party are names without white space.
pub proof fn lemma_soa_text_reads_back(soa: SoaRecordView)
    requires
        is_token(soa.primary_ns),
        is_token(soa.responsible_party),
    ensures
        soa_of_line(soa_text(soa)) == Some(soa),
{
    lemma_decimal_is_token(soa.serial as nat);
    lemma_signed_decimal_is_token(soa.refresh as int);
    lemma_signed_decimal_is_token(soa.retry as int);
    lemma_signed_decimal_is_token(soa.expire as int);
    lemma_decimal_is_token(soa.minimum as nat);
    lemma_tokens_of_joined(soa_fields(soa));
    lemma_decimal_reads_back(soa.serial as nat, 0xFFFF_FFFF);
    lemma_signed_decimal_reads_back(soa.refresh as int, -0x8000_0000, 0x7FFF_FFFF);
    lemma_signed_decimal_reads_back(soa.retry as int, -0x8000_0000, 0x7FFF_FFFF);
    lemma_signed_decimal_reads_back(soa.expire as int, -0x8000_0000, 0x7FFF_FFFF);
    lemma_decimal_reads_back(soa.minimum as nat, 0xFFFF_FFFF);
}

} // verus!
