use domain_mcp::tools::dns::DnsLookupResult;
use domain_mcp::tools::domain::{
    bulk_check, check_availability, dns_speaks_for, normalize_domain, strip_affixes,
    whois_speaks_for, BulkCheckResult, BulkCheckSummary, DomainAvailability, DomainCheck,
};
use domain_mcp::tools::whois::WhoisInfo;

fn whois(registrar: Option<&str>, raw_data: &str) -> WhoisInfo {
    WhoisInfo {
        domain: "example.com".to_string(),
        registrar: registrar.map(|r| r.to_string()),
        registrant: None,
        creation_date: None,
        expiry_date: None,
        updated_date: None,
        name_servers: Vec::new(),
        status: Vec::new(),
        raw_data: raw_data.to_string(),
        rdap_available: false,
    }
}

fn dns(a: &[&str], aaaa: &[&str], ns: &[&str]) -> DnsLookupResult {
    DnsLookupResult {
        domain: "example.com".to_string(),
        a_records: a.iter().map(|s| s.to_string()).collect(),
        aaaa_records: aaaa.iter().map(|s| s.to_string()).collect(),
        mx_records: Vec::new(),
        txt_records: vec!["v=spf1 -all".to_string()],
        ns_records: ns.iter().map(|s| s.to_string()).collect(),
        cname_records: Vec::new(),
        soa_record: None,
    }
}

fn verdict(domain: &str, available: bool) -> DomainAvailability {
    DomainAvailability {
        domain: domain.to_string(),
        available,
        reason: "checked".to_string(),
        whois_available: Some(available),
        dns_available: Some(false),
    }
}

#[test]
fn normalize_domain_test() {
    assert_eq!(normalize_domain("example.com"), "example.com");
    assert_eq!(normalize_domain("EXAMPLE.COM"), "example.com");
    assert_eq!(normalize_domain("  example.com  "), "example.com");
    assert_eq!(normalize_domain("http://example.com"), "example.com");
    assert_eq!(normalize_domain("https://example.com"), "example.com");
    assert_eq!(normalize_domain("www.example.com"), "example.com");
    assert_eq!(normalize_domain("example.com/"), "example.com");
    assert_eq!(normalize_domain("https://www.example.com/"), "example.com");
    assert_eq!(normalize_domain("HTTP://WWW.EXAMPLE.COM/"), "example.com");
    assert_eq!(
        normalize_domain("  https://www.example.com/  "),
        "example.com"
    );
}

#[test]
fn bulk_check_summary_calculation_test() {
    let summary = BulkCheckSummary {
        total: 5,
        available: 2,
        taken: 2,
        errors: 1,
    };

    assert_eq!(
        summary.total,
        summary.available + summary.taken + summary.errors
    );
}

#[test]
fn normalize_strips_one_of_each() {
    assert_eq!(normalize_domain("http://http://example.com"), "http://example.com");
    assert_eq!(normalize_domain("http://https://example.com"), "https://example.com");
    assert_eq!(normalize_domain("www.www.example.com"), "www.example.com");
    assert_eq!(normalize_domain("example.com//"), "example.com/");
    assert_eq!(normalize_domain("https://http://x"), "http://x");
}

#[test]
fn normalize_passes_malformed_input_through() {
    assert_eq!(normalize_domain(""), "");
    assert_eq!(normalize_domain("   "), "");
    assert_eq!(normalize_domain("/"), "");
    assert_eq!(normalize_domain("www."), "");
    assert_eq!(normalize_domain("HTTPS://"), "");
    assert_eq!(normalize_domain("Not A Domain"), "not a domain");
    assert_eq!(normalize_domain("ftp://Example.com"), "ftp://example.com");
    assert_eq!(normalize_domain("example.com/Path/"), "example.com/path");
    assert_eq!(normalize_domain("WWW.ÉCOLE.fr"), "école.fr");
}

#[test]
fn normalize_is_idempotent_on_normal_forms() {
    for input in [
        "example.com",
        "HTTP://WWW.EXAMPLE.COM/",
        "  https://www.example.com/  ",
        "sub.Example.org/path",
        "",
    ] {
        let once = normalize_domain(input);
        assert_eq!(normalize_domain(&once), once);
    }
}

#[test]
fn normalize_twice_can_differ_where_a_step_uncovers_another() {
    let once = normalize_domain("http://http://example.com");
    assert_eq!(once, "http://example.com");
    assert_eq!(normalize_domain(&once), "example.com");
}

#[test]
fn no_whois_and_no_dns_is_available() {
    let w = whois(Some("Example Registrar"), "No matching record for example.com");
    let d = dns(&[], &[], &[]);
    let v = check_availability("Example.com", Some(&w), Some(&d));
    assert_eq!(v.domain, "example.com");
    assert!(v.available);
    assert_eq!(
        v.reason,
        "no WHOIS or DNS records"
    );
    assert_eq!(v.whois_available, Some(true));
    assert_eq!(v.dns_available, Some(true));
}

#[test]
fn registrar_and_a_record_is_registered() {
    let w = whois(Some("Example Registrar"), "Domain Name: EXAMPLE.COM");
    let d = dns(&["192.0.2.1"], &[], &[]);
    let v = check_availability("example.com", Some(&w), Some(&d));
    assert!(!v.available);
    assert_eq!(v.reason, "registered and active");
    assert_eq!(v.whois_available, Some(false));
    assert_eq!(v.dns_available, Some(false));
}

#[test]
fn one_signal_is_enough() {
    let w = whois(None, "Domain Name: EXAMPLE.COM");
    let d = dns(&[], &["2001:db8::1"], &[]);
    let v = check_availability("example.com", Some(&w), Some(&d));
    assert!(v.available);
    assert_eq!(v.reason, "no WHOIS record but has DNS entries");
    assert_eq!(v.whois_available, Some(true));
    assert_eq!(v.dns_available, Some(false));

    let w = whois(Some("Example Registrar"), "Domain Name: EXAMPLE.COM");
    let d = dns(&[], &[], &[]);
    let v = check_availability("example.com", Some(&w), Some(&d));
    assert!(v.available);
    assert_eq!(v.reason, "WHOIS record present but no DNS entries");
    assert_eq!(v.whois_available, Some(false));
    assert_eq!(v.dns_available, Some(true));
}

#[test]
fn each_not_found_phrase_sets_the_whois_signal() {
    let d = dns(&["192.0.2.1"], &[], &["ns1.example.com"]);
    for phrase in ["No matching record", "NOT FOUND", "No Data Found", "domain name not known"] {
        let w = whois(Some("Example Registrar"), &format!("% {} %", phrase));
        let v = check_availability("example.com", Some(&w), Some(&d));
        assert_eq!(v.whois_available, Some(true), "{}", phrase);
    }
    let w = whois(Some("Example Registrar"), "not found");
    let v = check_availability("example.com", Some(&w), Some(&d));
    assert_eq!(v.whois_available, Some(false));
}

#[test]
fn ns_records_alone_clear_the_dns_signal() {
    let w = whois(Some("Example Registrar"), "Domain Name: EXAMPLE.COM");
    let d = dns(&[], &[], &["ns1.example.com"]);
    let v = check_availability("example.com", Some(&w), Some(&d));
    assert_eq!(v.dns_available, Some(false));
    assert!(!v.available);
}

#[test]
fn failed_lookups_count_as_signals() {
    let v = check_availability("example.com", None, None);
    assert!(v.available);
    assert_eq!(v.whois_available, Some(true));
    assert_eq!(v.dns_available, Some(true));
    let d = dns(&["192.0.2.1"], &[], &[]);
    let v = check_availability("example.com", None, Some(&d));
    assert!(v.available);
    assert_eq!(v.reason, "no WHOIS record but has DNS entries");
}

#[test]
fn bulk_check_counts_every_outcome_once() {
    let checks = vec![
        DomainCheck { domain: "a.com".to_string(), outcome: Some(verdict("a.com", true)) },
        DomainCheck { domain: "b.com".to_string(), outcome: None },
        DomainCheck { domain: "c.com".to_string(), outcome: Some(verdict("c.com", false)) },
        DomainCheck { domain: "a.com".to_string(), outcome: Some(verdict("a.com", true)) },
        DomainCheck { domain: "d.com".to_string(), outcome: None },
    ];
    let result: BulkCheckResult = bulk_check(checks);
    assert_eq!(result.summary.total, 5);
    assert_eq!(result.summary.available, 2);
    assert_eq!(result.summary.taken, 1);
    assert_eq!(result.summary.errors, 2);
    assert_eq!(
        result.summary.available + result.summary.taken + result.summary.errors,
        result.summary.total
    );
    let names: Vec<&str> = result.domains.iter().map(|d| d.domain.as_str()).collect();
    assert_eq!(names, vec!["a.com", "b.com", "c.com", "a.com", "d.com"]);
    assert!(result.domains[0].available);
    assert_eq!(result.domains[0].reason, "checked");
    assert!(!result.domains[1].available);
    assert_eq!(result.domains[1].reason, "Error checking domain");
    assert_eq!(result.domains[1].whois_available, None);
    assert_eq!(result.domains[1].dns_available, None);
    assert_eq!(result.domains[2].whois_available, Some(false));
}

#[test]
fn bulk_check_of_nothing_is_empty() {
    let result = bulk_check(Vec::new());
    assert_eq!(result.summary.total, 0);
    assert_eq!(result.summary.available, 0);
    assert_eq!(result.summary.taken, 0);
    assert_eq!(result.summary.errors, 0);
    assert!(result.domains.is_empty());
}

#[test]
fn affixes_are_taken_off_as_they_stand() {
    let strip = |s: &str| strip_affixes(&s.chars().collect());
    assert_eq!(strip("https://www.example.com/"), "example.com");
    assert_eq!(strip("http://example.com"), "example.com");
    assert_eq!(strip("www.example.com"), "example.com");
    assert_eq!(strip("example.com/"), "example.com");
    assert_eq!(strip("HTTP://WWW.EXAMPLE.COM/"), "HTTP://WWW.EXAMPLE.COM");
    assert_eq!(strip("www.http://example.com"), "http://example.com");
    assert_eq!(strip("http://"), "");
    assert_eq!(strip("https:/"), "https:");
    assert_eq!(strip(""), "");
}

#[test]
fn signals_follow_the_records() {
    assert!(whois_speaks_for(None));
    assert!(whois_speaks_for(Some(&whois(None, ""))));
    assert!(!whois_speaks_for(Some(&whois(Some("R"), ""))));
    assert!(whois_speaks_for(Some(&whois(Some("R"), "NOT FOUND"))));
    assert!(dns_speaks_for(None));
    assert!(dns_speaks_for(Some(&dns(&[], &[], &[]))));
    assert!(!dns_speaks_for(Some(&dns(&[], &["::1"], &[]))));
}
