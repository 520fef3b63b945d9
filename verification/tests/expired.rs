use domain_mcp::tools::expired::{
    consult, domainsdb_query, holds_name, namejet_wants_second, read_entry, read_line,
    reportable, scan_lines, search_domainsdb, search_dynadot, search_expired_domains,
    search_namejet, search_snapnames, Aggregator, DomainsDbDomain, DomainsDbResponse,
    ExpiredDomain, ExpiredFeeds, FeedFetch, LineFeed, Source, RESULT_CAP,
};

fn chars(s: &str) -> Vec<char> {
    s.chars().collect()
}

fn entry(domain: Option<&str>, is_dead: Option<&str>) -> DomainsDbDomain {
    DomainsDbDomain {
        domain: domain.map(|s| s.to_string()),
        create_date: Some("2020-01-01".to_string()),
        update_date: None,
        is_dead: is_dead.map(|s| s.to_string()),
        a_records: None,
        ns_records: None,
    }
}

fn found(domain: &str, source: &str) -> ExpiredDomain {
    ExpiredDomain {
        domain: domain.to_string(),
        status: "expired".to_string(),
        source: source.to_string(),
        created: None,
        updated: None,
        end_time: None,
        appraisal: None,
        starting_price: None,
        has_dns: None,
    }
}

fn numbered(prefix: &str, n: usize, source: &str) -> Vec<ExpiredDomain> {
    (0..n).map(|i| found(&format!("{}{}.com", prefix, i), source)).collect()
}

fn names(results: &[ExpiredDomain]) -> Vec<String> {
    results.iter().map(|r| r.domain.clone()).collect()
}

fn no_feeds() -> ExpiredFeeds {
    ExpiredFeeds {
        domainsdb: None,
        dynadot: None,
        namejet_first: FeedFetch::Unavailable,
        namejet_second: FeedFetch::Unavailable,
        snapnames: None,
    }
}

fn csv(header: &str, n: usize, prefix: &str) -> String {
    let mut text = String::from(header);
    text.push('\n');
    for i in 0..n {
        text.push_str(&format!("{}{}.com,2024-01-0{},x,$10,$5\n", prefix, i, i % 9 + 1));
    }
    text
}

#[test]
fn filters_are_inclusive() {
    assert!(reportable(&chars("MyShop.com"), "shop", "com"));
    assert!(reportable(&chars("myshop.com"), "SHOP", ""));
    assert!(reportable(&chars("myshop.com"), "", "com"));
    assert!(reportable(&chars("myshop.com"), "", ""));
    assert!(!reportable(&chars("myshop.com"), "store", ""));
    assert!(!reportable(&chars("myshop.com"), "", "net"));
    assert!(!reportable(&chars("myshop.com"), "", "COM"));
    assert!(!reportable(&chars("myshopcom"), "", "com"));
    assert!(!reportable(&chars("localhost"), "", ""));
    assert!(reportable(&chars("a.co.uk"), "", "co.uk"));
    assert!(!reportable(&chars("a.com"), "", "om"));
}

#[test]
fn registry_entry_is_tagged_by_its_dead_flag() {
    let mut e = entry(Some("dead.com"), Some("True"));
    e.a_records = Some(Vec::new());
    let r = read_entry(&e, "", "").unwrap();
    assert_eq!(r.domain, "dead.com");
    assert_eq!(r.status, "expired");
    assert_eq!(r.source, "DomainsDB");
    assert_eq!(r.created.as_deref(), Some("2020-01-01"));
    assert_eq!(r.updated, None);
    assert_eq!(r.has_dns, Some(true));
    assert_eq!(r.end_time, None);

    let r = read_entry(&entry(Some("dead.com"), Some("true")), "", "").unwrap();
    assert_eq!(r.status, "unknown");
    assert_eq!(r.has_dns, Some(false));
    let r = read_entry(&entry(Some("dead.com"), None), "", "").unwrap();
    assert_eq!(r.status, "unknown");
    assert!(read_entry(&entry(None, Some("True")), "", "").is_none());
    assert!(read_entry(&entry(Some("nodot"), Some("True")), "", "").is_none());
    assert!(read_entry(&entry(Some("dead.com"), Some("True")), "alive", "").is_none());
}

#[test]
fn registry_query_names_keyword_and_tld_when_given() {
    let pair = |a: &str, b: &str| (a.to_string(), b.to_string());
    assert_eq!(domainsdb_query("", ""), vec![pair("isDead", "true"), pair("limit", "50")]);
    assert_eq!(
        domainsdb_query("shop", ""),
        vec![pair("isDead", "true"), pair("limit", "50"), pair("domain", "shop")]
    );
    assert_eq!(
        domainsdb_query("shop", "com"),
        vec![
            pair("isDead", "true"),
            pair("limit", "50"),
            pair("domain", "shop"),
            pair("zone", "com")
        ]
    );
    assert_eq!(
        domainsdb_query("", "com"),
        vec![pair("isDead", "true"), pair("limit", "50"), pair("zone", "com")]
    );
}

#[test]
fn registry_snapshot_is_cut_at_the_cap() {
    let entries: Vec<DomainsDbDomain> =
        (0..25).map(|i| entry(Some(&format!("d{}.com", i)), Some("True"))).collect();
    let response = DomainsDbResponse { domains: Some(entries) };
    let results = search_domainsdb("", "", &response);
    assert_eq!(results.len(), RESULT_CAP);
    assert_eq!(results[0].domain, "d0.com");
    assert_eq!(results[9].domain, "d9.com");
    let filtered = search_domainsdb("d2", "", &response);
    assert_eq!(
        names(&filtered),
        vec!["d2.com", "d20.com", "d21.com", "d22.com", "d23.com", "d24.com"]
    );
    assert!(search_domainsdb("", "", &DomainsDbResponse { domains: None }).is_empty());
}

#[test]
fn backorder_line_maps_its_columns() {
    let r = read_line(
        LineFeed::Dynadot,
        &chars(" shop.com , 2024-01-05 , skipped , $1200 , $99 , more"),
        "",
        "",
    )
    .unwrap();
    assert_eq!(r.domain, "shop.com");
    assert_eq!(r.status, "pending delete");
    assert_eq!(r.source, "Dynadot");
    assert_eq!(r.end_time.as_deref(), Some("2024-01-05"));
    assert_eq!(r.appraisal.as_deref(), Some("$1200"));
    assert_eq!(r.starting_price.as_deref(), Some("$99"));
    assert_eq!(r.has_dns, None);
    assert_eq!(r.created, None);

    let r = read_line(LineFeed::Dynadot, &chars("shop.com,2024-01-05"), "", "").unwrap();
    assert_eq!(r.end_time.as_deref(), Some("2024-01-05"));
    assert_eq!(r.appraisal, None);
    assert_eq!(r.starting_price, None);
    let r = read_line(LineFeed::Dynadot, &chars("shop.com,a,b,c"), "", "").unwrap();
    assert_eq!(r.appraisal.as_deref(), Some("c"));
    assert_eq!(r.starting_price, None);

    assert!(read_line(LineFeed::Dynadot, &chars("shop.com"), "", "").is_none());
    assert!(read_line(LineFeed::Dynadot, &chars("   "), "", "").is_none());
    assert!(read_line(LineFeed::Dynadot, &chars(""), "", "").is_none());
    assert!(read_line(LineFeed::Dynadot, &chars("nodot,2024"), "", "").is_none());
    assert!(read_line(LineFeed::Dynadot, &chars("shop.com,2024"), "", "net").is_none());
}

#[test]
fn inventory_line_gives_its_first_column() {
    let r = read_line(LineFeed::NameJet, &chars("  \"Auction.com\" , 12 bids"), "auction", "com")
        .unwrap();
    assert_eq!(r.domain, "Auction.com");
    assert_eq!(r.status, "auction/pending");
    assert_eq!(r.source, "NameJet");
    assert_eq!(r.end_time, None);
    let r = read_line(LineFeed::NameJet, &chars("plain.net"), "", "").unwrap();
    assert_eq!(r.domain, "plain.net");
    assert!(read_line(LineFeed::NameJet, &chars("# comment.com"), "", "").is_none());
    assert!(read_line(LineFeed::NameJet, &chars("\"#hidden.com\""), "", "").is_none());
    assert!(read_line(LineFeed::NameJet, &chars(" #indented.com"), "", "").is_none());
    assert!(read_line(LineFeed::NameJet, &chars(""), "", "").is_none());
    assert!(read_line(LineFeed::NameJet, &chars("nodot"), "", "").is_none());
}

#[test]
fn deletion_line_gives_its_unquoted_first_column() {
    let r = read_line(LineFeed::SnapNames, &chars("\"drop.org\",\"2024-01-01\""), "", "org")
        .unwrap();
    assert_eq!(r.domain, "drop.org");
    assert_eq!(r.status, "pending delete");
    assert_eq!(r.source, "SnapNames");
    let r = read_line(LineFeed::SnapNames, &chars("# kept.org"), "", "").unwrap();
    assert_eq!(r.domain, "# kept.org");
    assert!(read_line(LineFeed::SnapNames, &chars("\"\",x.org"), "", "").is_none());
}

#[test]
fn feeds_with_a_header_skip_their_first_line() {
    let text = "header.com,date\nfirst.com,2024-01-01\n\nsecond.com,2024-01-02\r\n";
    assert_eq!(names(&search_dynadot("", "", text)), vec!["first.com", "second.com"]);
    let text = "\"header.com\"\n\"first.com\"\n   \n\"second.net\"\n";
    assert_eq!(names(&search_snapnames("", "", text)), vec!["first.com", "second.net"]);
    assert_eq!(names(&search_snapnames("", "net", text)), vec!["second.net"]);
    assert!(search_dynadot("", "", "").is_empty());
    assert!(search_dynadot("", "", "only.com,header").is_empty());
}

#[test]
fn feeds_are_cut_at_the_cap() {
    let text = csv("domain,end,x,appraisal,price", 30, "n");
    let results = search_dynadot("", "", &text);
    assert_eq!(results.len(), RESULT_CAP);
    assert_eq!(results[0].domain, "n0.com");
    assert_eq!(results[9].domain, "n9.com");
    assert_eq!(search_snapnames("", "", &text).len(), RESULT_CAP);
}

#[test]
fn scan_lines_fills_the_room_that_is_left() {
    let rows: Vec<Vec<char>> = (0..20).map(|i| chars(&format!("r{}.com", i))).collect();
    let mut results = numbered("held", 7, "X");
    scan_lines(LineFeed::NameJet, &rows, 2, "", "", &mut results);
    assert_eq!(results.len(), RESULT_CAP);
    assert_eq!(results[6].domain, "held6.com");
    assert_eq!(results[7].domain, "r2.com");
    assert_eq!(results[9].domain, "r4.com");
    let mut results = Vec::new();
    scan_lines(LineFeed::NameJet, &rows, 18, "", "", &mut results);
    assert_eq!(names(&results), vec!["r18.com", "r19.com"]);
    scan_lines(LineFeed::NameJet, &rows, 40, "", "", &mut results);
    assert_eq!(results.len(), 2);
}

#[test]
fn second_inventory_file_is_read_only_when_the_first_gave_nothing() {
    let first = FeedFetch::Body("# inventory\none.com\ntwo.com\n".to_string());
    let second = FeedFetch::Body("three.com\n".to_string());
    assert!(!namejet_wants_second("", "", &first));
    assert_eq!(
        names(&search_namejet("", "", &first, &second).unwrap()),
        vec!["one.com", "two.com"]
    );
    assert_eq!(
        names(&search_namejet("", "", &first, &FeedFetch::Unreadable).unwrap()),
        vec!["one.com", "two.com"]
    );

    assert!(namejet_wants_second("three", "", &first));
    assert_eq!(names(&search_namejet("three", "", &first, &second).unwrap()), vec!["three.com"]);

    assert!(namejet_wants_second("", "", &FeedFetch::Unavailable));
    assert_eq!(
        names(&search_namejet("", "", &FeedFetch::Unavailable, &second).unwrap()),
        vec!["three.com"]
    );
    assert!(search_namejet("", "", &FeedFetch::Unavailable, &FeedFetch::Unavailable)
        .unwrap()
        .is_empty());

    assert!(!namejet_wants_second("", "", &FeedFetch::Unreadable));
    assert!(search_namejet("", "", &FeedFetch::Unreadable, &second).is_none());
    assert!(search_namejet("", "", &FeedFetch::Unavailable, &FeedFetch::Unreadable).is_none());
}

#[test]
fn aggregation_asks_the_sources_in_order() {
    let a = Aggregator::new();
    assert_eq!(a.next_source(), Some(Source::DomainsDb));
    let a = a.absorb(None);
    assert_eq!(a.next_source(), Some(Source::Dynadot));
    let a = a.absorb(Some(numbered("a", 3, "Dynadot")));
    assert_eq!(a.next_source(), Some(Source::NameJet));
    let a = a.absorb(Some(Vec::new()));
    assert_eq!(a.next_source(), Some(Source::SnapNames));
    let a = a.absorb(Some(numbered("b", 2, "SnapNames")));
    assert_eq!(a.next_source(), None);
    let a = a.absorb(Some(numbered("c", 2, "Late")));
    assert_eq!(a.next_source(), None);
    assert_eq!(
        names(&a.into_results()),
        vec!["a0.com", "a1.com", "a2.com", "b0.com", "b1.com"]
    );
}

#[test]
fn full_first_source_ends_the_aggregation() {
    let a = Aggregator::new().absorb(Some(numbered("a", 12, "DomainsDB")));
    assert_eq!(a.next_source(), None);
    let a = a.absorb(Some(numbered("b", 3, "Dynadot")));
    let results = a.into_results();
    assert_eq!(results.len(), RESULT_CAP);
    assert!(results.iter().all(|r| r.source == "DomainsDB"));
    assert_eq!(results[9].domain, "a9.com");
}

#[test]
fn first_source_that_repeats_itself_does_not_end_the_aggregation() {
    let same: Vec<ExpiredDomain> = (0..10).map(|_| found("same.com", "DomainsDB")).collect();
    let a = Aggregator::new().absorb(Some(same));
    assert_eq!(a.next_source(), Some(Source::Dynadot));
    assert_eq!(names(&a.into_results()), vec!["same.com"]);
}

#[test]
fn name_of_an_earlier_source_is_not_taken_again() {
    let a = Aggregator::new().absorb(Some(vec![found("x.com", "DomainsDB"), found("y.com", "DomainsDB")]));
    let a = a.absorb(Some(vec![
        found("y.com", "Dynadot"),
        found("z.com", "Dynadot"),
        found("X.com", "Dynadot"),
        found("z.com", "Dynadot"),
    ]));
    let results = a.into_results();
    assert_eq!(names(&results), vec!["x.com", "y.com", "z.com", "X.com"]);
    assert_eq!(results[1].source, "DomainsDB");
    assert_eq!(results[2].source, "Dynadot");
    assert!(holds_name(&results, "z.com"));
    assert!(!holds_name(&results, "Z.com"));
}

#[test]
fn aggregation_stops_in_the_middle_of_a_source() {
    let a = Aggregator::new().absorb(Some(numbered("a", 8, "DomainsDB")));
    let a = a.absorb(Some(numbered("b", 5, "Dynadot")));
    assert_eq!(a.next_source(), None);
    let results = a.into_results();
    assert_eq!(results.len(), RESULT_CAP);
    assert_eq!(results[8].domain, "b0.com");
    assert_eq!(results[9].domain, "b1.com");
}

#[test]
fn search_merges_the_four_feeds() {
    let feeds = ExpiredFeeds {
        domainsdb: Some(DomainsDbResponse {
            domains: Some(vec![
                entry(Some("one.com"), Some("True")),
                entry(Some("shared.com"), Some("False")),
            ]),
        }),
        dynadot: Some("domain,end\nshared.com,2024-01-01\ntwo.com,2024-01-02\n".to_string()),
        namejet_first: FeedFetch::Unavailable,
        namejet_second: FeedFetch::Body("two.com\nthree.com\n".to_string()),
        snapnames: Some("domain\n\"four.com\"\n\"one.com\"\n".to_string()),
    };
    let results = search_expired_domains("", "com", &feeds);
    assert_eq!(
        names(&results),
        vec!["one.com", "shared.com", "two.com", "three.com", "four.com"]
    );
    let tags: Vec<(&str, &str)> =
        results.iter().map(|r| (r.source.as_str(), r.status.as_str())).collect();
    assert_eq!(
        tags,
        vec![
            ("DomainsDB", "expired"),
            ("DomainsDB", "unknown"),
            ("Dynadot", "pending delete"),
            ("NameJet", "auction/pending"),
            ("SnapNames", "pending delete"),
        ]
    );
    assert_eq!(names(&search_expired_domains("t", "", &feeds)), vec!["two.com", "three.com"]);
}

#[test]
fn search_survives_the_failure_of_every_source() {
    assert!(search_expired_domains("", "", &no_feeds()).is_empty());
    let mut feeds = no_feeds();
    feeds.namejet_first = FeedFetch::Unreadable;
    feeds.snapnames = Some("h\nlast.com\n".to_string());
    assert_eq!(names(&search_expired_domains("", "", &feeds)), vec!["last.com"]);
}

#[test]
fn search_never_reports_more_than_the_cap_nor_a_name_twice() {
    let feeds = ExpiredFeeds {
        domainsdb: Some(DomainsDbResponse {
            domains: Some((0..4).map(|i| entry(Some(&format!("n{}.com", i)), None)).collect()),
        }),
        dynadot: Some(csv("h", 6, "n")),
        namejet_first: FeedFetch::Body(csv("n1.com", 9, "m")),
        namejet_second: FeedFetch::Unavailable,
        snapnames: Some(csv("h", 30, "s")),
    };
    let results = search_expired_domains("", "", &feeds);
    assert_eq!(
        names(&results),
        vec![
            "n0.com", "n1.com", "n2.com", "n3.com", "n4.com", "n5.com", "m0.com", "m1.com",
            "m2.com", "m3.com"
        ]
    );
    let mut unique = names(&results);
    unique.sort();
    unique.dedup();
    assert_eq!(unique.len(), results.len());
}

#[test]
fn consult_leaves_a_finished_aggregation_alone() {
    let feeds = ExpiredFeeds {
        domainsdb: Some(DomainsDbResponse {
            domains: Some((0..12).map(|i| entry(Some(&format!("n{}.com", i)), None)).collect()),
        }),
        dynadot: Some(csv("h", 6, "d")),
        namejet_first: FeedFetch::Unavailable,
        namejet_second: FeedFetch::Unavailable,
        snapnames: None,
    };
    let a = consult(Aggregator::new(), "", "", &feeds);
    assert_eq!(a.next_source(), None);
    let a = consult(a, "", "", &feeds);
    let results = a.into_results();
    assert_eq!(results.len(), RESULT_CAP);
    assert!(results.iter().all(|r| r.source == "DomainsDB"));
}
