use domain_mcp::tools::rdap::{
    bootstrap_server, extract_creation_date, extract_expiry_date, extract_nameservers,
    extract_registrar, extract_status, extract_updated_date, query_url, top_level_domain,
    JsonValue, RdapBootstrapResponse, RdapClient, RdapDomain, RdapEntity, RdapEvent,
    RdapNameserver, RdapPhase, RdapProgress, RdapReply,
};

fn empty_document() -> RdapDomain {
    RdapDomain {
        object_class_name: None,
        handle: None,
        ldh_name: None,
        status: None,
        events: None,
        entities: None,
        nameservers: None,
        secure_dns: None,
        links: None,
        notices: None,
    }
}

fn event(action: Option<&str>, date: Option<&str>) -> RdapEvent {
    RdapEvent {
        event_action: action.map(|s| s.to_string()),
        event_date: date.map(|s| s.to_string()),
        event_actor: None,
    }
}

fn entity(roles: Option<&[&str]>, handle: Option<&str>, vcard: Option<JsonValue>) -> RdapEntity {
    RdapEntity {
        object_class_name: None,
        handle: handle.map(|s| s.to_string()),
        vcard_array: vcard,
        roles: roles.map(|r| r.iter().map(|s| s.to_string()).collect()),
        public_ids: None,
        links: None,
        events: None,
        entities: None,
    }
}

fn text(s: &str) -> JsonValue {
    JsonValue::Text(s.to_string())
}

fn entry(key: &str, value: JsonValue) -> JsonValue {
    JsonValue::List(vec![text(key), JsonValue::Record(Vec::new()), text("text"), value])
}

fn vcard(entries: Vec<JsonValue>) -> JsonValue {
    JsonValue::List(vec![text("vcard"), JsonValue::List(entries)])
}

fn request(progress: RdapProgress) -> (RdapPhase, String) {
    match progress {
        RdapProgress::Request { phase, url } => (phase, url),
        other => panic!("no request: {:?}", other),
    }
}

fn services(first: JsonValue) -> RdapBootstrapResponse {
    RdapBootstrapResponse { services: Some(vec![vec![first]]), description: None }
}

#[test]
fn dates_come_from_the_first_matching_event() {
    let mut d = empty_document();
    d.events = Some(vec![
        event(None, Some("0000")),
        event(Some("expiration"), Some("2024-08-13T04:00:00Z")),
        event(Some("last changed"), Some("2023-08-14T07:01:38Z")),
        event(Some("registration"), Some("1995-08-14T04:00:00Z")),
        event(Some("expiration"), Some("2099-01-01T00:00:00Z")),
        event(Some("last update of RDAP database"), Some("2024-01-01T00:00:00Z")),
    ]);
    assert_eq!(extract_creation_date(&d).as_deref(), Some("2023-08-14T07:01:38Z"));
    assert_eq!(extract_expiry_date(&d).as_deref(), Some("2024-08-13T04:00:00Z"));
    assert_eq!(extract_updated_date(&d).as_deref(), Some("2023-08-14T07:01:38Z"));
}

#[test]
fn event_actions_match_exactly() {
    let mut d = empty_document();
    d.events = Some(vec![
        event(Some("Registration"), Some("1")),
        event(Some("registration "), Some("2")),
        event(Some("EXPIRATION"), Some("3")),
    ]);
    assert_eq!(extract_creation_date(&d), None);
    assert_eq!(extract_expiry_date(&d), None);
    assert_eq!(extract_updated_date(&d), None);
}

#[test]
fn matching_event_without_a_date_ends_the_search() {
    let mut d = empty_document();
    d.events = Some(vec![
        event(Some("registration"), None),
        event(Some("registration"), Some("1995-08-14T04:00:00Z")),
    ]);
    assert_eq!(extract_creation_date(&d), None);
    assert_eq!(extract_creation_date(&empty_document()), None);
}

#[test]
fn registrar_name_comes_from_the_contact_or_the_handle() {
    let mut d = empty_document();
    d.entities = Some(vec![
        entity(Some(&["registrant"]), Some("REG-1"), Some(vcard(vec![entry("fn", text("Someone"))]))),
        entity(None, Some("NOROLE"), None),
        entity(
            Some(&["abuse", "registrar"]),
            Some("292"),
            Some(vcard(vec![
                entry("version", text("4.0")),
                entry("fn", JsonValue::Null),
                entry("fn", text("MarkMonitor Inc.")),
                entry("fn", text("Second Name")),
            ])),
        ),
    ]);
    assert_eq!(extract_registrar(&d).as_deref(), Some("MarkMonitor Inc."));

    d.entities = Some(vec![
        entity(Some(&["registrar"]), None, Some(vcard(vec![entry("org", text("No Name"))]))),
        entity(Some(&["registrar"]), Some("HANDLE-2"), Some(text("not a list"))),
    ]);
    assert_eq!(extract_registrar(&d).as_deref(), Some("HANDLE-2"));

    d.entities = Some(vec![entity(
        Some(&["registrar"]),
        Some("HANDLE-3"),
        Some(JsonValue::List(vec![
            text("vcard"),
            JsonValue::List(vec![JsonValue::List(vec![text("fn"), text("short"), text("x")])]),
        ])),
    )]);
    assert_eq!(extract_registrar(&d).as_deref(), Some("HANDLE-3"));

    d.entities = Some(vec![entity(Some(&["Registrar"]), Some("HANDLE-4"), None)]);
    assert_eq!(extract_registrar(&d), None);
    assert_eq!(extract_registrar(&empty_document()), None);
}

#[test]
fn name_servers_and_status_are_taken_as_they_stand() {
    let mut d = empty_document();
    d.nameservers = Some(vec![
        RdapNameserver { object_class_name: None, ldh_name: Some("NS1.EXAMPLE.COM".to_string()), ip_addresses: None },
        RdapNameserver { object_class_name: None, ldh_name: None, ip_addresses: None },
        RdapNameserver { object_class_name: None, ldh_name: Some("ns2.example.com".to_string()), ip_addresses: None },
    ]);
    d.status = Some(vec!["client delete prohibited".to_string(), "active".to_string(), "active".to_string()]);
    assert_eq!(extract_nameservers(&d), vec!["NS1.EXAMPLE.COM", "ns2.example.com"]);
    assert_eq!(extract_status(&d), vec!["client delete prohibited", "active", "active"]);
    assert!(extract_nameservers(&empty_document()).is_empty());
    assert!(extract_status(&empty_document()).is_empty());
}

#[test]
fn directory_knows_the_well_known_registries() {
    let client = RdapClient::new();
    let expected = [
        ("com", "https://rdap.verisign.com/com/v1"),
        ("net", "https://rdap.verisign.com/net/v1"),
        ("org", "https://rdap.publicinterestregistry.org/rdap"),
        ("info", "https://rdap.afilias.net/rdap"),
        ("io", "https://rdap.nic.io"),
        ("co", "https://rdap.nic.co"),
        ("me", "https://rdap.nic.me"),
        ("tv", "https://rdap.nic.tv"),
        ("app", "https://rdap.nic.google"),
        ("dev", "https://rdap.nic.google"),
        ("cloud", "https://rdap.nic.google"),
    ];
    for (tld, url) in expected {
        assert_eq!(client.base_url(tld).as_deref(), Some(url), "{}", tld);
    }
    assert_eq!(client.base_url("de"), None);
    assert_eq!(client.base_url("COM"), None);
    assert_eq!(client.base_url(""), None);
}

#[test]
fn top_level_domain_is_the_last_label() {
    assert_eq!(top_level_domain("example.com"), "com");
    assert_eq!(top_level_domain("a.b.example.co.uk"), "uk");
    assert_eq!(top_level_domain("localhost"), "localhost");
    assert_eq!(top_level_domain("example.com."), "");
    assert_eq!(top_level_domain(""), "");
}

#[test]
fn query_url_joins_base_and_domain() {
    assert_eq!(
        query_url("https://rdap.verisign.com/com/v1", "example.com"),
        "https://rdap.verisign.com/com/v1/domain/example.com"
    );
}

#[test]
fn discovery_answer_gives_its_first_server() {
    let answer = services(JsonValue::List(vec![text("https://rdap.example/"), text("https://b/")]));
    assert_eq!(bootstrap_server(&answer).as_deref(), Some("https://rdap.example/"));
    assert_eq!(bootstrap_server(&services(text("https://rdap.example/"))), None);
    assert_eq!(bootstrap_server(&services(JsonValue::List(Vec::new()))), None);
    assert_eq!(bootstrap_server(&services(JsonValue::List(vec![JsonValue::Null]))), None);
    let none = RdapBootstrapResponse { services: None, description: None };
    assert_eq!(bootstrap_server(&none), None);
    let empty = RdapBootstrapResponse { services: Some(Vec::new()), description: None };
    assert_eq!(bootstrap_server(&empty), None);
    let hollow = RdapBootstrapResponse { services: Some(vec![Vec::new()]), description: None };
    assert_eq!(bootstrap_server(&hollow), None);
}

#[test]
fn lookup_starts_at_the_directory_or_at_discovery() {
    let client = RdapClient::new();
    let (phase, url) = request(client.start("example.com"));
    assert_eq!(phase, RdapPhase::Directory);
    assert_eq!(url, "https://rdap.verisign.com/com/v1/domain/example.com");
    let (phase, url) = request(client.start("example.de"));
    assert_eq!(phase, RdapPhase::Discovery);
    assert_eq!(url, "https://rdap-bootstrap.arin.net/bootstrap/domain/example.de");
}

#[test]
fn lookup_ends_with_the_document() {
    let client = RdapClient::new();
    let mut d = empty_document();
    d.handle = Some("H".to_string());
    let r = client.lookup_domain("example.com", RdapPhase::Directory, RdapReply::Document(d));
    assert!(matches!(r, RdapProgress::Found(found) if found.handle.as_deref() == Some("H")));
    let r = client.lookup_domain(
        "example.com",
        RdapPhase::Discovered,
        RdapReply::Document(empty_document()),
    );
    assert!(matches!(r, RdapProgress::Found(_)));
}

#[test]
fn failed_directory_query_turns_to_discovery() {
    let client = RdapClient::new();
    let (phase, url) =
        request(client.lookup_domain("example.com", RdapPhase::Directory, RdapReply::Failure));
    assert_eq!(phase, RdapPhase::Discovery);
    assert_eq!(url, "https://rdap-bootstrap.arin.net/bootstrap/domain/example.com");
}

#[test]
fn discovery_turns_to_the_advertised_server_or_fails() {
    let client = RdapClient::new();
    let answer = services(JsonValue::List(vec![text("https://rdap.denic.de")]));
    let (phase, url) = request(client.lookup_domain(
        "example.de",
        RdapPhase::Discovery,
        RdapReply::Services(answer),
    ));
    assert_eq!(phase, RdapPhase::Discovered);
    assert_eq!(url, "https://rdap.denic.de/domain/example.de");

    let nothing = RdapBootstrapResponse { services: None, description: None };
    let r = client.lookup_domain("example.de", RdapPhase::Discovery, RdapReply::Services(nothing));
    assert!(matches!(r, RdapProgress::Failed(m) if m == "RDAP lookup failed for domain: example.de"));
    let r = client.lookup_domain("example.de", RdapPhase::Discovery, RdapReply::Failure);
    assert!(matches!(r, RdapProgress::Failed(m) if m == "RDAP lookup failed for domain: example.de"));
    let r = client.lookup_domain(
        "example.de",
        RdapPhase::Discovery,
        RdapReply::Document(empty_document()),
    );
    assert!(matches!(r, RdapProgress::Failed(_)));
}

#[test]
fn failed_query_at_the_discovered_server_ends_the_lookup() {
    let client = RdapClient::new();
    let r = client.lookup_domain("example.de", RdapPhase::Discovered, RdapReply::Failure);
    assert!(matches!(r, RdapProgress::Failed(m) if m == "RDAP lookup failed for domain: example.de"));
}
