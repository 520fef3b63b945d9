//! Certificate details, read from the text form of an X.509 certificate.

use crate::calendar::{datetime_of, days_between, instant_of, parse_datetime, whole_days_between, Instant};
use crate::text::{
    contains, contains_text, find, first_occurrence, lemma_chars_deep_view, lemma_deep_view_push,
    lines, lines_of, slice, split, split_on, starts_with, text_of, text_view, to_chars, to_text,
    trim, trimmed,
};
use vstd::prelude::*;

verus! {

/// The details of a certificate.
#[derive(Debug)]
pub struct SslCertificateInfo {
    pub domain: String,
    pub issuer: String,
    pub subject: String,
    pub serial_number: String,
    pub not_before: String,
    pub not_after: String,
    pub signature_algorithm: String,
    pub san_domains: Vec<String>,
    pub is_valid: bool,
    pub days_until_expiry: Option<i64>,
}

/// The first row at or after `from` that holds `field`.
pub open spec fn first_row_with(rows: Seq<Seq<char>>, field: Seq<char>, from: int) -> Option<
    Seq<char>,
>
    decreases rows.len() - from,
{
    if 0 <= from < rows.len() {
        if contains_text(rows[from], field) {
            Some(rows[from])
        } else {
            first_row_with(rows, field, from + 1)
        }
    } else {
        None
    }
}

/// The text of `line` between the first occurrence of `field` and the
/// next: whatever follows the first occurrence where there is no other,
/// and nothing where `field` does not occur. An empty `field` occurs before
/// every character, so that the text is then the first character.
pub open spec fn text_after(line: Seq<char>, field: Seq<char>) -> Seq<char> {
    if field.len() == 0 {
        if line.len() > 0 {
            line.subrange(0, 1)
        } else {
            line
        }
    } else {
        match first_occurrence(line, field, 0) {
            Some(at) => {
                let start = at + field.len();
                match first_occurrence(line, field, start) {
                    Some(next) => line.subrange(start, next),
                    None => line.subrange(start, line.len() as int),
                }
            },
            None => Seq::empty(),
        }
    }
}

/// The value of a field of the certificate text: in the first line that
/// holds the field's label, the text after the label, trimmed; empty where
/// no line holds the label.
pub open spec fn cert_field(text: Seq<char>, field: Seq<char>) -> Seq<char> {
    match first_row_with(lines_of(text), field, 0) {
        Some(line) => trimmed(text_after(line, field)),
        None => Seq::empty(),
    }
}

/// The text of `line` between the first occurrence of `field` and the
/// next.
pub fn after_label(line: &Vec<char>, field: &Vec<char>) -> (r: Vec<char>)
    ensures
        r@ == text_after(line@, field@),
{
    if field.len() == 0 {
        if line.len() > 0 {
            slice(line, 0, 1)
        } else {
            slice(line, 0, 0)
        }
    } else {
        match find(line, field, 0) {
            Some(at) => {
                proof {
                    crate::text::lemma_first_occurrence(line@, field@, 0);
                }
                let start = at + field.len();
                match find(line, field, start) {
                    Some(next) => {
                        proof {
                            crate::text::lemma_first_occurrence(line@, field@, start as int);
                        }
                        slice(line, start, next)
                    },
                    None => slice(line, start, line.len()),
                }
            },
            None => Vec::new(),
        }
    }
}

/// The value of the field labelled `field` in the certificate text.
pub fn extract_cert_field(text: &str, field: &str) -> (r: String)
    ensures
        r@ == cert_field(text@, field@),
{
    let chars = to_chars(text);
    let label = to_chars(field);
    let rows = lines(&chars);
    let mut i: usize = 0;
    while i < rows.len()
        invariant
            i <= rows.len(),
            rows.deep_view() == lines_of(text@),
            label@ == field@,
            first_row_with(lines_of(text@), field@, 0) == first_row_with(
                lines_of(text@),
                field@,
                i as int,
            ),
        decreases rows.len() - i,
    {
        proof {
            lemma_chars_deep_view(rows@[i as int]);
            assert(rows.deep_view()[i as int] == rows@[i as int]@);
        }
        if contains(&rows[i], &label) {
            let value = after_label(&rows[i], &label);
            return text_of(&trim(&value));
        }
        i += 1;
    }
    String::new()
}

/// The line that lists the alternative names: the first line at or after
/// `from` that begins with sixteen spaces and comes after a line with the
/// heading of the alternative names.
pub open spec fn san_row(rows: Seq<Seq<char>>, from: int, seen_heading: bool) -> Option<Seq<char>>
    decreases rows.len() - from,
{
    if 0 <= from < rows.len() {
        if contains_text(rows[from], "X509v3 Subject Alternative Name:"@) {
            san_row(rows, from + 1, true)
        } else if seen_heading && "                "@.is_prefix_of(rows[from]) {
            Some(rows[from])
        } else {
            san_row(rows, from + 1, seen_heading)
        }
    } else {
        None
    }
}

/// The DNS name that a piece of the list gives: the text after `DNS:`
/// where the trimmed piece begins with it.
pub open spec fn dns_name(piece: Seq<char>) -> Option<Seq<char>> {
    let plain = trimmed(piece);
    if "DNS:"@.is_prefix_of(plain) {
        Some(plain.subrange("DNS:"@.len() as int, plain.len() as int))
    } else {
        None
    }
}

/// The DNS names that the pieces give, in order.
pub open spec fn dns_names(pieces: Seq<Seq<char>>) -> Seq<Seq<char>>
    decreases pieces.len(),
{
    if pieces.len() == 0 {
        Seq::empty()
    } else {
        let front = dns_names(pieces.drop_last());
        match dns_name(pieces.last()) {
            Some(name) => front.push(name),
            None => front,
        }
    }
}

/// The alternative DNS names of the certificate text.
pub open spec fn san_domains(text: Seq<char>) -> Seq<Seq<char>> {
    match san_row(lines_of(text), 0, false) {
        Some(line) => dns_names(split_on(line, ',')),
        None => Seq::empty(),
    }
}

/// The DNS names in the line that lists the alternative names.
pub fn names_in_row(line: &Vec<char>) -> (r: Vec<String>)
    ensures
        r.deep_view() == dns_names(split_on(line@, ',')),
{
    let pieces = split(line, ',');
    let prefix = to_chars("DNS:");
    let mut domains: Vec<String> = Vec::new();
    let mut i: usize = 0;
    assert(domains.deep_view() =~= dns_names(pieces.deep_view().take(0)));
    while i < pieces.len()
        invariant
            i <= pieces.len(),
            prefix@ == "DNS:"@,
            domains.deep_view() == dns_names(pieces.deep_view().take(i as int)),
        decreases pieces.len() - i,
    {
        proof {
            lemma_chars_deep_view(pieces@[i as int]);
            let longer = pieces.deep_view().take(i as int + 1);
            assert(longer.drop_last() =~= pieces.deep_view().take(i as int));
            assert(longer.last() == pieces@[i as int]@);
        }
        let plain = trim(&pieces[i]);
        if starts_with(&plain, &prefix) {
            let name = to_text(&plain, prefix.len(), plain.len());
            let ghost before = domains;
            domains.push(name);
            proof {
                lemma_deep_view_push(before, domains, name);
            }
        }
        i += 1;
    }
    assert(pieces.deep_view().take(pieces@.len() as int) =~= pieces.deep_view());
    domains
}

/// The alternative DNS names of the certificate text: the names marked
/// `DNS:` in the line that follows the heading of the alternative names.
pub fn extract_san_domains(text: &str) -> (r: Vec<String>)
    ensures
        r.deep_view() == san_domains(text@),
{
    let chars = to_chars(text);
    let rows = lines(&chars);
    let heading = to_chars("X509v3 Subject Alternative Name:");
    let indent = to_chars("                ");
    let mut in_san_section = false;
    let mut i: usize = 0;
    while i < rows.len()
        invariant
            i <= rows.len(),
            rows.deep_view() == lines_of(text@),
            heading@ == "X509v3 Subject Alternative Name:"@,
            indent@ == "                "@,
            san_row(lines_of(text@), 0, false) == san_row(
                lines_of(text@),
                i as int,
                in_san_section,
            ),
        decreases rows.len() - i,
    {
        proof {
            lemma_chars_deep_view(rows@[i as int]);
            assert(rows.deep_view()[i as int] == rows@[i as int]@);
        }
        if contains(&rows[i], &heading) {
            in_san_section = true;
        } else if in_san_section && starts_with(&rows[i], &indent) {
            return names_in_row(&rows[i]);
        }
        i += 1;
    }
    let none: Vec<String> = Vec::new();
    assert(none.deep_view() =~= Seq::<Seq<char>>::empty());
    none
}

/// The first piece at or after `from` whose trimmed form begins with
/// `CN`.
pub open spec fn cn_piece(pieces: Seq<Seq<char>>, from: int) -> Option<Seq<char>>
    decreases pieces.len() - from,
{
    if 0 <= from < pieces.len() {
        if "CN"@.is_prefix_of(trimmed(pieces[from])) {
            Some(pieces[from])
        } else {
            cn_piece(pieces, from + 1)
        }
    } else {
        None
    }
}

/// The common name of a subject: in the first comma-separated piece that
/// begins with `CN`, the text between the first `=` and the next, trimmed;
/// nothing where no piece begins with `CN` or that piece holds no `=`.
pub open spec fn common_name(subject: Seq<char>) -> Option<Seq<char>> {
    match cn_piece(split_on(subject, ','), 0) {
        Some(piece) => {
            let sides = split_on(piece, '=');
            if sides.len() > 1 {
                Some(trimmed(sides[1]))
            } else {
                None
            }
        },
        None => None,
    }
}

/// The common name of a certificate subject.
pub fn extract_cn_from_subject(subject: &str) -> (r: Option<String>)
    ensures
        text_view(r) == common_name(subject@),
{
    let chars = to_chars(subject);
    let pieces = split(&chars, ',');
    let cn = to_chars("CN");
    let mut i: usize = 0;
    while i < pieces.len()
        invariant
            i <= pieces.len(),
            cn@ == "CN"@,
            pieces.deep_view() == split_on(subject@, ','),
            cn_piece(split_on(subject@, ','), 0) == cn_piece(split_on(subject@, ','), i as int),
        decreases pieces.len() - i,
    {
        proof {
            lemma_chars_deep_view(pieces@[i as int]);
            assert(pieces.deep_view()[i as int] == pieces@[i as int]@);
        }
        if starts_with(&trim(&pieces[i]), &cn) {
            let sides = split(&pieces[i], '=');
            if sides.len() > 1 {
                proof {
                    lemma_chars_deep_view(sides@[1]);
                    assert(sides.deep_view()[1] == sides@[1]@);
                }
                return Some(text_of(&trim(&sides[1])));
            } else {
                return None;
            }
        }
        i += 1;
    }
    None
}

/// The instant that the end of a validity period reads as: the month name
/// first, then the day, the time, the year and a zone name, with the day
/// either zero-padded or space-padded.
pub open spec fn expiry_instant(not_after: Seq<char>) -> Option<Instant> {
    if datetime_of(not_after, "%b %d %H:%M:%S %Y %Z"@).is_some() {
        instant_of(datetime_of(not_after, "%b %d %H:%M:%S %Y %Z"@))
    } else {
        instant_of(datetime_of(not_after, "%b %e %H:%M:%S %Y %Z"@))
    }
}

/// The days from `now` to the end of the validity period, given the
/// instant that the end reads as.
pub open spec fn days_left(now: Instant, expiry: Option<Instant>) -> Option<int> {
    match expiry {
        Some(expiry) => Some(days_between(expiry, now)),
        None => None,
    }
}

/// The view of an optional number of days.
pub open spec fn days_view(days: Option<i64>) -> Option<int> {
    match days {
        Some(days) => Some(days as int),
        None => None,
    }
}

/// The days from `now` to the instant `expiry`.
pub fn days_until(now: &Instant, expiry: Option<Instant>) -> (r: Option<i64>)
    ensures
        days_view(r) == days_left(*now, expiry),
{
    match expiry {
        Some(expiry) => Some(whole_days_between(&expiry, now)),
        None => None,
    }
}

/// The whole days from `now` to the end of the validity period
/// `not_after`, negative once it has passed; nothing where the text reads
/// as no date.
pub fn calculate_days_until_expiry(not_after: &str, now: &Instant) -> (r: Option<i64>)
    ensures
        days_view(r) == days_left(*now, expiry_instant(not_after@)),
{
    let padded = parse_datetime(not_after, "%b %d %H:%M:%S %Y %Z");
    if padded.is_some() {
        return days_until(now, padded);
    }
    days_until(now, parse_datetime(not_after, "%b %e %H:%M:%S %Y %Z"))
}

/// The details of a certificate from its text form, at the instant `now`.
/// The certificate is valid where more than zero whole days are left. The
/// domain is the common name of the subject, or empty without one.
pub fn parse_x509_certificate(cert_text: &str, now: &Instant) -> (r: SslCertificateInfo)
    ensures
        r.issuer@ == cert_field(cert_text@, "Issuer: "@),
        r.subject@ == cert_field(cert_text@, "Subject: "@),
        r.serial_number@ == cert_field(cert_text@, "Serial Number:"@),
        r.not_before@ == cert_field(cert_text@, "Not Before:"@),
        r.not_after@ == cert_field(cert_text@, "Not After :"@),
        r.signature_algorithm@ == cert_field(cert_text@, "Signature Algorithm: "@),
        r.san_domains.deep_view() == san_domains(cert_text@),
        days_view(r.days_until_expiry) == days_left(*now, expiry_instant(r.not_after@)),
        r.is_valid == (r.days_until_expiry.is_some() && r.days_until_expiry.unwrap() > 0),
        r.domain@ == match common_name(r.subject@) {
            Some(name) => name,
            None => Seq::empty(),
        },
{
    let issuer = extract_cert_field(cert_text, "Issuer: ");
    let subject = extract_cert_field(cert_text, "Subject: ");
    let serial = extract_cert_field(cert_text, "Serial Number:");
    let not_before = extract_cert_field(cert_text, "Not Before:");
    let not_after = extract_cert_field(cert_text, "Not After :");
    let sig_algo = extract_cert_field(cert_text, "Signature Algorithm: ");
    let san_domains = extract_san_domains(cert_text);
    let days_until_expiry = calculate_days_until_expiry(not_after.as_str(), now);
    let is_valid = match days_until_expiry {
        Some(days) => days > 0,
        None => false,
    };
    let domain = match extract_cn_from_subject(subject.as_str()) {
        Some(name) => name,
        None => String::new(),
    };
    SslCertificateInfo {
        domain,
        issuer,
        subject,
        serial_number: serial,
        not_before,
        not_after,
        signature_algorithm: sig_algo,
        san_domains,
        is_valid,
        days_until_expiry,
    }
}

} // verus!
