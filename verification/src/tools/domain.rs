//! Domain normalization, the availability verdict that fuses the WHOIS and
//! DNS signals, and the summary of a bulk check.

use crate::text::{
    contains, contains_text, lemma_deep_view_push, lowercase, lowercase_of, slice, starts_with,
    text_of, to_chars, trim, trimmed,
};
use crate::tools::dns::{DnsLookupResult, DnsLookupResultView};
use crate::tools::whois::{WhoisInfo, WhoisInfoView};
use vstd::prelude::*;

verus! {

/// The availability verdict on one domain.
#[derive(Debug)]
pub struct DomainAvailability {
    pub domain: String,
    pub available: bool,
    pub reason: String,
    pub whois_available: Option<bool>,
    pub dns_available: Option<bool>,
}

/// The verdicts of a bulk check with their summary.
#[derive(Debug)]
pub struct BulkCheckResult {
    pub domains: Vec<DomainAvailability>,
    pub summary: BulkCheckSummary,
}

/// The counts of a bulk check.
#[derive(Debug)]
pub struct BulkCheckSummary {
    pub total: usize,
    pub available: usize,
    pub taken: usize,
    pub errors: usize,
}

/// The mathematical value of a `DomainAvailability`.
pub struct DomainAvailabilityView {
    pub domain: Seq<char>,
    pub available: bool,
    pub reason: Seq<char>,
    pub whois_available: Option<bool>,
    pub dns_available: Option<bool>,
}

impl View for DomainAvailability {
    type V = DomainAvailabilityView;

    open spec fn view(&self) -> DomainAvailabilityView {
        DomainAvailabilityView {
            domain: self.domain@,
            available: self.available,
            reason: self.reason@,
            whois_available: self.whois_available,
            dns_available: self.dns_available,
        }
    }
}

impl DeepView for DomainAvailability {
    type V = DomainAvailabilityView;

    open spec fn deep_view(&self) -> DomainAvailabilityView {
        self@
    }
}

/// `s` without one leading `http://` or `https://`.
pub open spec fn strip_scheme(s: Seq<char>) -> Seq<char> {
    if "http://"@.is_prefix_of(s) {
        s.subrange("http://"@.len() as int, s.len() as int)
    } else if "https://"@.is_prefix_of(s) {
        s.subrange("https://"@.len() as int, s.len() as int)
    } else {
        s
    }
}

/// `s` without one leading `www.`.
pub open spec fn strip_www(s: Seq<char>) -> Seq<char> {
    if "www."@.is_prefix_of(s) {
        s.subrange("www."@.len() as int, s.len() as int)
    } else {
        s
    }
}

/// `s` without one trailing `/`.
pub open spec fn strip_slash(s: Seq<char>) -> Seq<char> {
    if s.len() > 0 && s.last() == '/' {
        s.drop_last()
    } else {
        s
    }
}

/// The normal form of a domain as a user wrote it: trimmed, in lowercase,
/// and without one leading scheme, one leading `www.` and one trailing `/`,
/// taken off in this order.
pub open spec fn normalized(s: Seq<char>) -> Seq<char> {
    stripped(lowercase_of(trimmed(s)))
}

/// Whether a text is a fixed point of every step of the normalization: no
/// white space around it, already in lowercase, no scheme or `www.` in
/// front and no `/` at the end.
pub open spec fn is_normal(s: Seq<char>) -> bool {
    &&& trimmed(s) == s
    &&& lowercase_of(s) == s
    &&& !"http://"@.is_prefix_of(s)
    &&& !"https://"@.is_prefix_of(s)
    &&& !"www."@.is_prefix_of(s)
    &&& !(s.len() > 0 && s.last() == '/')
}

/// `v` without the prefix `p`, where it begins with `p`.
fn without_prefix(v: Vec<char>, p: &str) -> (r: Vec<char>)
    ensures
        r@ == if p@.is_prefix_of(v@) {
            v@.subrange(p@.len() as int, v@.len() as int)
        } else {
            v@
        },
{
    let prefix = to_chars(p);
    if starts_with(&v, &prefix) {
        slice(&v, prefix.len(), v.len())
    } else {
        v
    }
}

/// `s` without one leading scheme, one leading `www.` and one trailing
/// `/`, taken off in this order.
pub open spec fn stripped(s: Seq<char>) -> Seq<char> {
    strip_slash(strip_www(strip_scheme(s)))
}

/// `text` without one leading `http://` or `https://`, one leading `www.`
/// and one trailing `/`, taken off in this order. The text is compared as
/// it stands: an upper-case `HTTP://` is no scheme here.
pub fn strip_affixes(text: &Vec<char>) -> (r: String)
    ensures
        r@ == stripped(text@),
{
    proof {
        reveal_strlit("http://");
        reveal_strlit("https://");
    }
    let http = to_chars("http://");
    let rest = if starts_with(text, &http) {
        slice(text, http.len(), text.len())
    } else {
        without_prefix(slice(text, 0, text.len()), "https://")
    };
    assert(text@.subrange(0, text@.len() as int) =~= text@);
    assert(rest@ == strip_scheme(text@));
    let rest = without_prefix(rest, "www.");
    let n = rest.len();
    if n > 0 && rest[n - 1] == '/' {
        assert(rest@.drop_last() =~= rest@.subrange(0, n - 1));
        crate::text::to_text(&rest, 0, n - 1)
    } else {
        text_of(&rest)
    }
}

/// The normal form of `domain`. No input is refused: text that is no
/// domain name passes through with the same steps applied.
pub fn normalize_domain(domain: &str) -> (r: String)
    ensures
        r@ == normalized(domain@),
{
    let chars = to_chars(domain);
    let plain = trim(&chars);
    let lower = lowercase(&plain);
    strip_affixes(&lower)
}

/// Normalizing twice gives what normalizing once gives, for every input
/// whose normal form is a fixed point of each step. The law fails without
/// that condition: taking off one scheme, one `www.` or one `/` can uncover
/// another, or white space.
pub proof fn lemma_normalize_idempotent(s: Seq<char>)
    ensures
        is_normal(normalized(s)) ==> normalized(normalized(s)) == normalized(s),
{
}

/// Normalization takes no notice of case or of white space around the
/// text: two inputs that agree once trimmed and put in lowercase have the
/// same normal form, so that a scheme or a `www.` is taken off in whatever
/// case it is written.
pub proof fn lemma_normalize_ignores_case(a: Seq<char>, b: Seq<char>)
    requires
        lowercase_of(trimmed(a)) == lowercase_of(trimmed(b)),
    ensures
        normalized(a) == normalized(b),
{
}

/// A text that is in normal form is what its normalization returns.
pub proof fn lemma_normal_is_fixed(s: Seq<char>)
    requires
        is_normal(s),
    ensures
        normalized(s) == s,
{
}

/// Whether the WHOIS side speaks for availability: the payload holds one
/// of the phrases by which registries report a name as not found, or no
/// registrar was found. Without a record at all the signal is set.
pub open spec fn whois_signal(whois: Option<WhoisInfoView>) -> bool {
    match whois {
        Some(info) => {
            ||| contains_text(info.raw_data, "No matching record"@)
            ||| contains_text(info.raw_data, "NOT FOUND"@)
            ||| contains_text(info.raw_data, "No Data Found"@)
            ||| contains_text(info.raw_data, "domain name not known"@)
            ||| info.registrar.is_none()
        },
        None => true,
    }
}

/// Whether the DNS side speaks for availability: the record set holds no
/// A, AAAA or NS record. Without a record set at all the signal is set.
pub open spec fn dns_signal(dns: Option<DnsLookupResultView>) -> bool {
    match dns {
        Some(set) => set.a_records.len() == 0 && set.aaaa_records.len() == 0
            && set.ns_records.len() == 0,
        None => true,
    }
}

/// The reason that goes with the two signals.
pub open spec fn reason_of(whois_available: bool, dns_available: bool) -> Seq<char> {
    if whois_available && dns_available {
        "no WHOIS or DNS records"@
    } else if whois_available {
        "no WHOIS record but has DNS entries"@
    } else if dns_available {
        "WHOIS record present but no DNS entries"@
    } else {
        "registered and active"@
    }
}

/// The verdict on a domain given the two signals: available where either
/// signal is set.
pub open spec fn verdict_of(domain: Seq<char>, whois_available: bool, dns_available: bool)
    -> DomainAvailabilityView {
    DomainAvailabilityView {
        domain,
        available: whois_available || dns_available,
        reason: reason_of(whois_available, dns_available),
        whois_available: Some(whois_available),
        dns_available: Some(dns_available),
    }
}

/// The view of an optional record.
pub open spec fn whois_view(whois: Option<&WhoisInfo>) -> Option<WhoisInfoView> {
    match whois {
        Some(info) => Some(info@),
        None => None,
    }
}

/// The view of an optional record set.
pub open spec fn dns_view(dns: Option<&DnsLookupResult>) -> Option<DnsLookupResultView> {
    match dns {
        Some(set) => Some(set@),
        None => None,
    }
}

/// Whether the WHOIS side speaks for availability.
pub fn whois_speaks_for(whois: Option<&WhoisInfo>) -> (r: bool)
    ensures
        r == whois_signal(whois_view(whois)),
{
    match whois {
        Some(info) => {
            let raw = to_chars(info.raw_data.as_str());
            contains(&raw, &to_chars("No matching record")) || contains(
                &raw,
                &to_chars("NOT FOUND"),
            ) || contains(&raw, &to_chars("No Data Found")) || contains(
                &raw,
                &to_chars("domain name not known"),
            ) || info.registrar.is_none()
        },
        None => true,
    }
}

/// Whether the DNS side speaks for availability.
pub fn dns_speaks_for(dns: Option<&DnsLookupResult>) -> (r: bool)
    ensures
        r == dns_signal(dns_view(dns)),
{
    match dns {
        Some(set) => {
            assert(set@.a_records.len() == set.a_records@.len());
            assert(set@.aaaa_records.len() == set.aaaa_records@.len());
            assert(set@.ns_records.len() == set.ns_records@.len());
            set.a_records.len() == 0 && set.aaaa_records.len() == 0 && set.ns_records.len() == 0
        },
        None => true,
    }
}

/// The verdict on `domain` from the outcomes of its WHOIS and DNS lookups;
/// `None` stands for a lookup that failed altogether. The verdict names the
/// domain in its normal form and always carries both signals.
pub fn check_availability(
    domain: &str,
    whois: Option<&WhoisInfo>,
    dns: Option<&DnsLookupResult>,
) -> (r: DomainAvailability)
    ensures
        r@ == verdict_of(
            normalized(domain@),
            whois_signal(whois_view(whois)),
            dns_signal(dns_view(dns)),
        ),
{
    let domain = normalize_domain(domain);
    let whois_available = whois_speaks_for(whois);
    let dns_available = dns_speaks_for(dns);
    let available = whois_available || dns_available;
    let reason = if available {
        if whois_available && dns_available {
            "no WHOIS or DNS records".to_owned()
        } else if whois_available {
            "no WHOIS record but has DNS entries".to_owned()
        } else {
            "WHOIS record present but no DNS entries".to_owned()
        }
    } else {
        "registered and active".to_owned()
    };
    DomainAvailability {
        domain,
        available,
        reason,
        whois_available: Some(whois_available),
        dns_available: Some(dns_available),
    }
}

/// A payload that reports the name as not found, together with a record
/// set without A, AAAA and NS records, makes the domain available for want
/// of both WHOIS and DNS records.
pub proof fn lemma_not_found_and_no_dns(
    domain: Seq<char>,
    whois: WhoisInfoView,
    dns: DnsLookupResultView,
)
    requires
        contains_text(whois.raw_data, "No matching record"@),
        dns.a_records.len() == 0,
        dns.aaaa_records.len() == 0,
        dns.ns_records.len() == 0,
    ensures
        ({
            let v = verdict_of(domain, whois_signal(Some(whois)), dns_signal(Some(dns)));
            v.available && v.reason
                == "no WHOIS or DNS records"@
        }),
{
}

/// A record with a registrar whose payload holds none of the not-found
/// phrases, together with a record set with an A record, makes the domain
/// registered and active.
pub proof fn lemma_registered_and_active(
    domain: Seq<char>,
    whois: WhoisInfoView,
    dns: DnsLookupResultView,
)
    requires
        whois.registrar.is_some(),
        !contains_text(whois.raw_data, "No matching record"@),
        !contains_text(whois.raw_data, "NOT FOUND"@),
        !contains_text(whois.raw_data, "No Data Found"@),
        !contains_text(whois.raw_data, "domain name not known"@),
        dns.a_records.len() > 0,
    ensures
        ({
            let v = verdict_of(domain, whois_signal(Some(whois)), dns_signal(Some(dns)));
            !v.available && v.reason == "registered and active"@
        }),
{
}

/// The outcome of the check of one domain of a batch: the domain as it was
/// given, and the verdict, or `None` where the check failed.
#[derive(Debug)]
pub struct DomainCheck {
    pub domain: String,
    pub outcome: Option<DomainAvailability>,
}

/// The verdict that stands for a failed check.
pub open spec fn error_verdict(domain: Seq<char>) -> DomainAvailabilityView {
    DomainAvailabilityView {
        domain,
        available: false,
        reason: "Error checking domain"@,
        whois_available: None,
        dns_available: None,
    }
}

/// The entry of the result list for one outcome: its verdict, or the
/// placeholder for the domain.
pub open spec fn entry_of(check: DomainCheck) -> DomainAvailabilityView {
    match check.outcome {
        Some(verdict) => verdict@,
        None => error_verdict(check.domain@),
    }
}

/// The entries of the result list: one for each outcome, in order.
pub open spec fn entries_of(checks: Seq<DomainCheck>) -> Seq<DomainAvailabilityView> {
    Seq::new(checks.len(), |i: int| entry_of(checks[i]))
}

/// Whether the check succeeded and found the domain available.
pub open spec fn is_available(check: DomainCheck) -> bool {
    check.outcome.is_some() && check.outcome.unwrap().available
}

/// Whether the check succeeded and found the domain taken.
pub open spec fn is_taken(check: DomainCheck) -> bool {
    check.outcome.is_some() && !check.outcome.unwrap().available
}

/// Whether the check failed.
pub open spec fn is_error(check: DomainCheck) -> bool {
    check.outcome.is_none()
}

/// The number of outcomes that satisfy `what`.
pub open spec fn count(checks: Seq<DomainCheck>, what: spec_fn(DomainCheck) -> bool) -> nat
    decreases checks.len(),
{
    if checks.len() == 0 {
        0
    } else {
        count(checks.drop_last(), what) + if what(checks.last()) {
            1nat
        } else {
            0nat
        }
    }
}

/// Every outcome is counted exactly once: as available, as taken or as an
/// error.
pub proof fn lemma_counts_are_exhaustive(checks: Seq<DomainCheck>)
    ensures
        count(checks, |c: DomainCheck| is_available(c)) + count(
            checks,
            |c: DomainCheck| is_taken(c),
        ) + count(checks, |c: DomainCheck| is_error(c)) == checks.len(),
    decreases checks.len(),
{
    if checks.len() > 0 {
        lemma_counts_are_exhaustive(checks.drop_last());
    }
}

/// A copy of a verdict.
fn copy_verdict(verdict: &DomainAvailability) -> (r: DomainAvailability)
    ensures
        r@ == verdict@,
{
    DomainAvailability {
        domain: verdict.domain.clone(),
        available: verdict.available,
        reason: verdict.reason.clone(),
        whois_available: verdict.whois_available,
        dns_available: verdict.dns_available,
    }
}

/// The result of a bulk check from the outcomes of its checks.
///
/// The list holds one entry for each outcome, in the order given; a failed
/// check is entered as a placeholder and fails nothing else. The summary
/// counts each outcome once: `total` is the number of outcomes, and
/// `available`, `taken` and `errors` add up to it.
pub fn bulk_check(checks: Vec<DomainCheck>) -> (r: BulkCheckResult)
    ensures
        r.domains.deep_view() == entries_of(checks@),
        r.summary.total == checks@.len(),
        r.summary.available == count(checks@, |c: DomainCheck| is_available(c)),
        r.summary.taken == count(checks@, |c: DomainCheck| is_taken(c)),
        r.summary.errors == count(checks@, |c: DomainCheck| is_error(c)),
        r.summary.total == r.summary.available + r.summary.taken + r.summary.errors,
{
    let mut available_count: usize = 0;
    let mut taken_count: usize = 0;
    let mut error_count: usize = 0;
    let mut domain_results: Vec<DomainAvailability> = Vec::new();
    let mut i: usize = 0;
    assert(domain_results.deep_view() =~= entries_of(checks@).take(0));
    assert(checks@.take(0) =~= Seq::<DomainCheck>::empty());
    while i < checks.len()
        invariant
            i <= checks.len(),
            domain_results.deep_view() == entries_of(checks@).take(i as int),
            available_count == count(checks@.take(i as int), |c: DomainCheck| is_available(c)),
            taken_count == count(checks@.take(i as int), |c: DomainCheck| is_taken(c)),
            error_count == count(checks@.take(i as int), |c: DomainCheck| is_error(c)),
        decreases checks.len() - i,
    {
        proof {
            lemma_counts_are_exhaustive(checks@.take(i as int));
            assert(checks@.take(i as int + 1).drop_last() =~= checks@.take(i as int));
        }
        let entry = match &checks[i].outcome {
            Some(availability) => {
                if availability.available {
                    available_count += 1;
                } else {
                    taken_count += 1;
                }
                copy_verdict(availability)
            },
            None => {
                error_count += 1;
                DomainAvailability {
                    domain: checks[i].domain.clone(),
                    available: false,
                    reason: "Error checking domain".to_owned(),
                    whois_available: None,
                    dns_available: None,
                }
            },
        };
        let ghost before = domain_results;
        domain_results.push(entry);
        proof {
            lemma_deep_view_push(before, domain_results, entry);
            assert(entries_of(checks@).take(i as int).push(entry@) =~= entries_of(checks@).take(
                i as int + 1,
            ));
        }
        i += 1;
    }
    proof {
        assert(checks@.take(checks@.len() as int) =~= checks@);
        assert(entries_of(checks@).take(checks@.len() as int) =~= entries_of(checks@));
        lemma_counts_are_exhaustive(checks@);
    }
    BulkCheckResult {
        domains: domain_results,
        summary: BulkCheckSummary {
            total: checks.len(),
            available: available_count,
            taken: taken_count,
            errors: error_count,
        },
    }
}

} // verus!
