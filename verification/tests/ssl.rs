use chrono::{Datelike, Timelike, Utc};
use domain_mcp::calendar::Instant;
use domain_mcp::tools::ssl::{
    after_label, calculate_days_until_expiry, extract_cert_field, extract_cn_from_subject,
    extract_san_domains, parse_x509_certificate,
};

fn now() -> Instant {
    let t = Utc::now().naive_utc();
    Instant {
        day: t.date().num_days_from_ce(),
        secs: t.time().num_seconds_from_midnight(),
        frac: t.time().nanosecond(),
    }
}

fn at(y: i32, m: u32, d: u32, h: u32) -> Instant {
    let date = chrono::NaiveDate::from_ymd_opt(y, m, d).unwrap();
    Instant { day: date.num_days_from_ce(), secs: h * 3600, frac: 0 }
}

#[test]
fn extract_cert_field_test() {
    let sample_cert_text = r#"Certificate:
    Data:
        Version: 3 (0x2)
        Serial Number: 12345
        Signature Algorithm: sha256WithRSAEncryption
        Issuer: CN=Test CA, O=Test Organization
        Validity
            Not Before: Jan  1 12:00:00 2024 GMT
            Not After : Jan  1 12:00:00 2025 GMT
        Subject: CN=example.com, O=Example Organization
"#;

    assert_eq!(
        extract_cert_field(sample_cert_text, "Issuer: "),
        "CN=Test CA, O=Test Organization"
    );
    assert_eq!(
        extract_cert_field(sample_cert_text, "Subject: "),
        "CN=example.com, O=Example Organization"
    );
    assert_eq!(
        extract_cert_field(sample_cert_text, "Serial Number:"),
        "12345"
    );
    assert_eq!(
        extract_cert_field(sample_cert_text, "Not Before:"),
        "Jan  1 12:00:00 2024 GMT"
    );
    assert_eq!(
        extract_cert_field(sample_cert_text, "Not After :"),
        "Jan  1 12:00:00 2025 GMT"
    );
    assert_eq!(
        extract_cert_field(sample_cert_text, "Signature Algorithm: "),
        "sha256WithRSAEncryption"
    );

    assert_eq!(extract_cert_field(sample_cert_text, "NonExistent: "), "");
}

#[test]
fn calculate_days_until_expiry_test() {
    let future_date = "Jan  1 12:00:00 2030 GMT";
    let days = calculate_days_until_expiry(future_date, &now());
    assert!(days.is_some());
    assert!(days.unwrap() > 0);

    let past_date = "Jan  1 12:00:00 2020 GMT";
    let days = calculate_days_until_expiry(past_date, &now());
    assert!(days.is_some());
    assert!(days.unwrap() < 0);

    let future_date_alt = "Jan 15 12:00:00 2030 GMT";
    let days = calculate_days_until_expiry(future_date_alt, &now());
    assert!(days.is_some());
    assert!(days.unwrap() > 0);

    let invalid_date = "Invalid Date Format";
    let days = calculate_days_until_expiry(invalid_date, &now());
    assert!(days.is_none());
}

#[test]
fn extract_san_domains_test() {
    let sample_cert_text = r#"Certificate:
    Data:
        Version: 3 (0x2)
        Serial Number: 12345
        X509v3 extensions:
            X509v3 Subject Alternative Name:
                DNS:example.com, DNS:www.example.com, DNS:api.example.com
            X509v3 Key Usage: critical
                Digital Signature, Key Encipherment
"#;

    let domains = extract_san_domains(sample_cert_text);
    assert_eq!(domains.len(), 3);
    assert!(domains.contains(&"example.com".to_string()));
    assert!(domains.contains(&"www.example.com".to_string()));
    assert!(domains.contains(&"api.example.com".to_string()));

    let no_san_cert = r#"Certificate:
    Data:
        Version: 3 (0x2)
        Serial Number: 12345
        X509v3 extensions:
            X509v3 Key Usage: critical
                Digital Signature, Key Encipherment
"#;

    let no_domains = extract_san_domains(no_san_cert);
    assert_eq!(no_domains.len(), 0);
}

#[test]
fn extract_cn_from_subject_test() {
    let subject = "CN=example.com, O=Example Organization, C=US";
    assert_eq!(
        extract_cn_from_subject(subject),
        Some("example.com".to_string())
    );

    let subject_no_cn = "O=Example Organization, C=US";
    assert_eq!(extract_cn_from_subject(subject_no_cn), None);

    let subject_different_order = "O=Example Organization, CN=test.com, C=US";
    assert_eq!(
        extract_cn_from_subject(subject_different_order),
        Some("test.com".to_string())
    );

    let empty_subject = "";
    assert_eq!(extract_cn_from_subject(empty_subject), None);
}

fn field_by_std(text: &str, field: &str) -> String {
    text.lines()
        .find(|line| line.contains(field))
        .map(|line| line.split(field).nth(1).unwrap_or("").trim().to_string())
        .unwrap_or_default()
}

#[test]
fn cert_field_agrees_with_the_standard_library() {
    let texts = [
        "",
        "Issuer: A\nIssuer: B\n",
        "x Issuer: first Issuer: second Issuer: third",
        "Issuer: ",
        "no label here\r\n  Issuer:   padded  \r\n",
        "aaa",
        "\n\nabc",
    ];
    for text in texts {
        for field in ["Issuer: ", "a", "aa", "", "abc", "Issuer: A"] {
            assert_eq!(
                extract_cert_field(text, field),
                field_by_std(text, field),
                "{:?} {:?}",
                text,
                field
            );
        }
    }
}

#[test]
fn text_after_a_label_ends_at_its_next_occurrence() {
    let line: Vec<char> = "k=v1 k=v2".chars().collect();
    let label: Vec<char> = "k=".chars().collect();
    let got: String = after_label(&line, &label).iter().collect();
    assert_eq!(got, "v1 ");
    let missing: Vec<char> = "zz".chars().collect();
    assert!(after_label(&line, &missing).is_empty());
}

#[test]
fn san_names_need_the_heading_and_the_indent() {
    let indent = " ".repeat(16);
    let text = format!(
        "{}DNS:early.example.com\nX509v3 Subject Alternative Name:\nnot indented\n{}DNS:a.example.com, IP Address:192.0.2.1,DNS:b.example.com ,  dns:c.example.com\n{}DNS:late.example.com\n",
        indent, indent, indent
    );
    assert_eq!(extract_san_domains(&text), vec!["a.example.com", "b.example.com"]);
    let short = format!("X509v3 Subject Alternative Name:\n{}DNS:a.example.com\n", " ".repeat(15));
    assert!(extract_san_domains(&short).is_empty());
}

#[test]
fn common_name_is_taken_from_the_first_cn_piece() {
    assert_eq!(extract_cn_from_subject("CN"), None);
    assert_eq!(extract_cn_from_subject("CN = a.example.com = b"), Some("a.example.com".to_string()));
    assert_eq!(extract_cn_from_subject("O=x,  CNAME=y, CN=z"), Some("y".to_string()));
    assert_eq!(extract_cn_from_subject("CN, CN=z"), None);
    assert_eq!(extract_cn_from_subject("CN="), Some(String::new()));
}

#[test]
fn days_until_expiry_are_exact_at_a_fixed_instant() {
    let t = at(2024, 12, 31, 12);
    assert_eq!(calculate_days_until_expiry("Jan  1 12:00:00 2025 GMT", &t), Some(1));
    assert_eq!(calculate_days_until_expiry("Jan 01 12:00:00 2025 GMT", &t), Some(1));
    assert_eq!(calculate_days_until_expiry("Jan  1 11:59:59 2025 GMT", &t), Some(0));
    assert_eq!(calculate_days_until_expiry("Dec 30 12:00:00 2024 GMT", &t), Some(-1));
    assert_eq!(calculate_days_until_expiry("2025-01-01", &t), None);
}

#[test]
fn certificate_text_gives_every_detail() {
    let text = format!(
        "Certificate:\n    Data:\n        Serial Number: 12345\n        Signature Algorithm: sha256WithRSAEncryption\n        Issuer: CN=Test CA, O=Test Organization\n        Validity\n            Not Before: Jan  1 12:00:00 2024 GMT\n            Not After : Jan  1 12:00:00 2025 GMT\n        Subject: O=Example Organization, CN=example.com\n            X509v3 Subject Alternative Name:\n{}DNS:example.com, DNS:www.example.com\n",
        " ".repeat(16)
    );
    let info = parse_x509_certificate(&text, &at(2024, 12, 1, 12));
    assert_eq!(info.domain, "example.com");
    assert_eq!(info.issuer, "CN=Test CA, O=Test Organization");
    assert_eq!(info.subject, "O=Example Organization, CN=example.com");
    assert_eq!(info.serial_number, "12345");
    assert_eq!(info.not_before, "Jan  1 12:00:00 2024 GMT");
    assert_eq!(info.not_after, "Jan  1 12:00:00 2025 GMT");
    assert_eq!(info.signature_algorithm, "sha256WithRSAEncryption");
    assert_eq!(info.san_domains, vec!["example.com", "www.example.com"]);
    assert_eq!(info.days_until_expiry, Some(31));
    assert!(info.is_valid);

    let expired = parse_x509_certificate(&text, &at(2025, 1, 1, 12));
    assert_eq!(expired.days_until_expiry, Some(0));
    assert!(!expired.is_valid);

    let empty = parse_x509_certificate("", &at(2025, 1, 1, 12));
    assert_eq!(empty.domain, "");
    assert_eq!(empty.days_until_expiry, None);
    assert!(!empty.is_valid);
}
