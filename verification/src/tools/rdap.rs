//! RDAP: the registry directory, the steps of a lookup, and the extraction
//! of registration fields from an RDAP document.

use crate::text::{holds, join_text, same, split, text_of, text_view, to_chars};
use vstd::prelude::*;

verus! {

/// A JSON value, as far as the extraction reads one: texts and lists are
/// held as they are, a number by its text, an object by its members in
/// order.
#[derive(Debug)]
pub enum JsonValue {
    Null,
    Bool(bool),
    Number(String),
    Text(String),
    List(Vec<JsonValue>),
    Record(Vec<(String, JsonValue)>),
}

/// An RDAP domain document.
#[derive(Debug)]
pub struct RdapDomain {
    pub object_class_name: Option<String>,
    pub handle: Option<String>,
    pub ldh_name: Option<String>,
    pub status: Option<Vec<String>>,
    pub events: Option<Vec<RdapEvent>>,
    pub entities: Option<Vec<RdapEntity>>,
    pub nameservers: Option<Vec<RdapNameserver>>,
    pub secure_dns: Option<RdapSecureDns>,
    pub links: Option<Vec<RdapLink>>,
    pub notices: Option<Vec<RdapNotice>>,
}

/// An event in the life of a registration.
#[derive(Debug)]
pub struct RdapEvent {
    pub event_action: Option<String>,
    pub event_date: Option<String>,
    pub event_actor: Option<String>,
}

/// A party to a registration.
#[derive(Debug)]
pub struct RdapEntity {
    pub object_class_name: Option<String>,
    pub handle: Option<String>,
    pub vcard_array: Option<JsonValue>,
    pub roles: Option<Vec<String>>,
    pub public_ids: Option<Vec<RdapPublicId>>,
    pub links: Option<Vec<RdapLink>>,
    pub events: Option<Vec<RdapEvent>>,
    pub entities: Option<Vec<RdapEntity>>,
}

/// A public identifier of an entity.
#[derive(Debug)]
pub struct RdapPublicId {
    pub id_type: Option<String>,
    pub identifier: Option<String>,
}

/// A name server of a domain.
#[derive(Debug)]
pub struct RdapNameserver {
    pub object_class_name: Option<String>,
    pub ldh_name: Option<String>,
    pub ip_addresses: Option<RdapIpAddresses>,
}

/// The addresses of a name server.
#[derive(Debug)]
pub struct RdapIpAddresses {
    pub v4: Option<Vec<String>>,
    pub v6: Option<Vec<String>>,
}

/// The DNSSEC state of a domain.
#[derive(Debug)]
pub struct RdapSecureDns {
    pub zone_signed: Option<bool>,
    pub delegation_signed: Option<bool>,
}

/// A link of an RDAP object.
#[derive(Debug)]
pub struct RdapLink {
    pub value: Option<String>,
    pub rel: Option<String>,
    pub href: Option<String>,
    pub hreflang: Option<Vec<String>>,
    pub title: Option<String>,
    pub media: Option<String>,
    pub link_type: Option<String>,
}

/// A notice of an RDAP response.
#[derive(Debug)]
pub struct RdapNotice {
    pub title: Option<String>,
    pub description: Option<Vec<String>>,
    pub links: Option<Vec<RdapLink>>,
}

/// The answer of the bootstrap discovery service.
#[derive(Debug)]
pub struct RdapBootstrapResponse {
    pub services: Option<Vec<Vec<JsonValue>>>,
    pub description: Option<String>,
}

/// Whether the event's action is one of `actions`.
pub open spec fn event_matches(event: RdapEvent, actions: Seq<Seq<char>>) -> bool {
    match event.event_action {
        Some(action) => actions.contains(action@),
        None => false,
    }
}

/// The date of the first event at or after `from` whose action is one of
/// `actions`; nothing when there is no such event or when that event
/// carries no date.
pub open spec fn first_event_date(events: Seq<RdapEvent>, actions: Seq<Seq<char>>, from: int)
    -> Option<Seq<char>>
    decreases events.len() - from,
{
    if 0 <= from < events.len() {
        if event_matches(events[from], actions) {
            text_view(events[from].event_date)
        } else {
            first_event_date(events, actions, from + 1)
        }
    } else {
        None
    }
}

/// The date of the first event of the document whose action is one of
/// `actions`.
pub open spec fn event_date(document: RdapDomain, actions: Seq<Seq<char>>) -> Option<Seq<char>> {
    match document.events {
        Some(events) => first_event_date(events@, actions, 0),
        None => None,
    }
}

/// The actions that date the creation of a registration.
pub open spec fn creation_actions() -> Seq<Seq<char>> {
    seq!["registration"@, "last changed"@]
}

/// The actions that date the expiry of a registration.
pub open spec fn expiry_actions() -> Seq<Seq<char>> {
    seq!["expiration"@]
}

/// The actions that date the last update of a registration.
pub open spec fn updated_actions() -> Seq<Seq<char>> {
    seq!["last changed"@, "last update of RDAP database"@]
}

/// The date of the first event whose action is `first` or `second`.
fn find_event_date(document: &RdapDomain, first: &str, second: &str) -> (r: Option<String>)
    ensures
        text_view(r) == event_date(*document, seq![first@, second@]),
{
    let ghost actions = seq![first@, second@];
    match &document.events {
        Some(events) => {
            let mut i: usize = 0;
            while i < events.len()
                invariant
                    i <= events.len(),
                    document.events == Some(*events),
                    actions == seq![first@, second@],
                    first_event_date(events@, actions, 0) == first_event_date(
                        events@,
                        actions,
                        i as int,
                    ),
                decreases events.len() - i,
            {
                let hit = match &events[i].event_action {
                    Some(action) => same(action.as_str(), first) || same(action.as_str(), second),
                    None => false,
                };
                proof {
                    assert(actions[0] == first@ && actions[1] == second@);
                }
                if hit {
                    return match &events[i].event_date {
                        Some(date) => Some(date.clone()),
                        None => None,
                    };
                }
                i += 1;
            }
            None
        },
        None => None,
    }
}

/// The creation date of the registration: the date of the first event
/// whose action is `registration` or `last changed`.
pub fn extract_creation_date(rdap_domain: &RdapDomain) -> (r: Option<String>)
    ensures
        text_view(r) == event_date(*rdap_domain, creation_actions()),
{
    find_event_date(rdap_domain, "registration", "last changed")
}

/// The expiry date of the registration: the date of the first event whose
/// action is `expiration`.
pub fn extract_expiry_date(rdap_domain: &RdapDomain) -> (r: Option<String>)
    ensures
        text_view(r) == event_date(*rdap_domain, expiry_actions()),
{
    let r = find_event_date(rdap_domain, "expiration", "expiration");
    proof {
        let twice = seq!["expiration"@, "expiration"@];
        assert forall|e: RdapEvent| event_matches(e, twice) == event_matches(
            e,
            expiry_actions(),
        ) by {
            if e.event_action.is_some() {
                let action = e.event_action.unwrap()@;
                if twice.contains(action) {
                    assert(expiry_actions()[0] == action);
                }
                if expiry_actions().contains(action) {
                    assert(twice[0] == action);
                }
            }
        }
        if rdap_domain.events.is_some() {
            lemma_same_matches(rdap_domain.events.unwrap()@, twice, expiry_actions(), 0);
        }
    }
    r
}

/// Two vocabularies that match the same events date the same event.
proof fn lemma_same_matches(
    events: Seq<RdapEvent>,
    a: Seq<Seq<char>>,
    b: Seq<Seq<char>>,
    from: int,
)
    requires
        forall|e: RdapEvent| event_matches(e, a) == event_matches(e, b),
    ensures
        first_event_date(events, a, from) == first_event_date(events, b, from),
    decreases events.len() - from,
{
    if 0 <= from < events.len() {
        if !event_matches(events[from], a) {
            lemma_same_matches(events, a, b, from + 1);
        }
    }
}

/// The date of the last update of the registration: the date of the first
/// event whose action is `last changed` or `last update of RDAP database`.
pub fn extract_updated_date(rdap_domain: &RdapDomain) -> (r: Option<String>)
    ensures
        text_view(r) == event_date(*rdap_domain, updated_actions()),
{
    find_event_date(rdap_domain, "last changed", "last update of RDAP database")
}

/// The formatted name that a contact entry gives: the fourth field of an
/// entry of at least four fields whose first field is the text `fn`, where
/// that fourth field is a text.
pub open spec fn entry_formatted_name(entry: JsonValue) -> Option<Seq<char>> {
    match entry {
        JsonValue::List(fields) => {
            if fields@.len() >= 4 {
                match (fields@[0], fields@[3]) {
                    (JsonValue::Text(key), JsonValue::Text(name)) => {
                        if key@ == "fn"@ {
                            Some(name@)
                        } else {
                            None
                        }
                    },
                    _ => None,
                }
            } else {
                None
            }
        },
        _ => None,
    }
}

/// The formatted name of the first entry at or after `from` that gives
/// one.
pub open spec fn first_formatted_name(entries: Seq<JsonValue>, from: int) -> Option<Seq<char>>
    decreases entries.len() - from,
{
    if 0 <= from < entries.len() {
        match entry_formatted_name(entries[from]) {
            Some(name) => Some(name),
            None => first_formatted_name(entries, from + 1),
        }
    } else {
        None
    }
}

/// The formatted name in a structured contact: a list whose second item
/// is the list of contact entries.
pub open spec fn vcard_name(vcard: JsonValue) -> Option<Seq<char>> {
    match vcard {
        JsonValue::List(items) => {
            if items@.len() > 1 {
                match items@[1] {
                    JsonValue::List(entries) => first_formatted_name(entries@, 0),
                    _ => None,
                }
            } else {
                None
            }
        },
        _ => None,
    }
}

/// Whether the entity has the role `registrar`.
pub open spec fn is_registrar(entity: RdapEntity) -> bool {
    match entity.roles {
        Some(roles) => roles.deep_view().contains("registrar"@),
        None => false,
    }
}

/// The registrar name that an entity gives: for an entity with the role
/// `registrar`, the formatted name of its contact, or its handle where the
/// contact gives no name.
pub open spec fn entity_registrar(entity: RdapEntity) -> Option<Seq<char>> {
    if is_registrar(entity) {
        let name = match entity.vcard_array {
            Some(vcard) => vcard_name(vcard),
            None => None,
        };
        match name {
            Some(name) => Some(name),
            None => text_view(entity.handle),
        }
    } else {
        None
    }
}

/// The registrar name of the first entity at or after `from` that gives
/// one.
pub open spec fn first_registrar(entities: Seq<RdapEntity>, from: int) -> Option<Seq<char>>
    decreases entities.len() - from,
{
    if 0 <= from < entities.len() {
        match entity_registrar(entities[from]) {
            Some(name) => Some(name),
            None => first_registrar(entities, from + 1),
        }
    } else {
        None
    }
}

/// The registrar name of a document.
pub open spec fn registrar_of(document: RdapDomain) -> Option<Seq<char>> {
    match document.entities {
        Some(entities) => first_registrar(entities@, 0),
        None => None,
    }
}

/// The formatted name that a contact entry gives.
fn formatted_name_of_entry(entry: &JsonValue) -> (r: Option<String>)
    ensures
        text_view(r) == entry_formatted_name(*entry),
{
    match entry {
        JsonValue::List(fields) => {
            if fields.len() >= 4 {
                match (&fields[0], &fields[3]) {
                    (JsonValue::Text(key), JsonValue::Text(name)) => {
                        if same(key.as_str(), "fn") {
                            Some(name.clone())
                        } else {
                            None
                        }
                    },
                    _ => None,
                }
            } else {
                None
            }
        },
        _ => None,
    }
}

/// The formatted name in a structured contact.
fn name_of_vcard(vcard: &JsonValue) -> (r: Option<String>)
    ensures
        text_view(r) == vcard_name(*vcard),
{
    match vcard {
        JsonValue::List(items) => {
            if items.len() > 1 {
                match &items[1] {
                    JsonValue::List(entries) => {
                        let mut i: usize = 0;
                        while i < entries.len()
                            invariant
                                i <= entries.len(),
                                vcard_name(*vcard) == first_formatted_name(entries@, 0),
                                first_formatted_name(entries@, 0) == first_formatted_name(
                                    entries@,
                                    i as int,
                                ),
                            decreases entries.len() - i,
                        {
                            match formatted_name_of_entry(&entries[i]) {
                                Some(name) => {
                                    return Some(name);
                                },
                                None => {},
                            }
                            i += 1;
                        }
                        None
                    },
                    _ => None,
                }
            } else {
                None
            }
        },
        _ => None,
    }
}

/// The registrar name that an entity gives.
fn registrar_of_entity(entity: &RdapEntity) -> (r: Option<String>)
    ensures
        text_view(r) == entity_registrar(*entity),
{
    let has_role = match &entity.roles {
        Some(roles) => holds(roles, "registrar"),
        None => false,
    };
    if has_role {
        let name = match &entity.vcard_array {
            Some(vcard) => name_of_vcard(vcard),
            None => None,
        };
        match name {
            Some(name) => Some(name),
            None => match &entity.handle {
                Some(handle) => Some(handle.clone()),
                None => None,
            },
        }
    } else {
        None
    }
}

/// The registrar of the registration: the name that the first entity
/// gives which has the role `registrar` and a formatted name or a handle.
pub fn extract_registrar(rdap_domain: &RdapDomain) -> (r: Option<String>)
    ensures
        text_view(r) == registrar_of(*rdap_domain),
{
    match &rdap_domain.entities {
        Some(entities) => {
            let mut i: usize = 0;
            while i < entities.len()
                invariant
                    i <= entities.len(),
                    rdap_domain.entities == Some(*entities),
                    first_registrar(entities@, 0) == first_registrar(entities@, i as int),
                decreases entities.len() - i,
            {
                match registrar_of_entity(&entities[i]) {
                    Some(name) => {
                        return Some(name);
                    },
                    None => {},
                }
                i += 1;
            }
            None
        },
        None => None,
    }
}

/// The host names of the name servers that carry one, in order.
pub open spec fn nameserver_names(servers: Seq<RdapNameserver>) -> Seq<Seq<char>>
    decreases servers.len(),
{
    if servers.len() == 0 {
        Seq::empty()
    } else {
        let front = nameserver_names(servers.drop_last());
        match servers.last().ldh_name {
            Some(name) => front.push(name@),
            None => front,
        }
    }
}

/// The name servers of a document.
pub open spec fn nameservers_of(document: RdapDomain) -> Seq<Seq<char>> {
    match document.nameservers {
        Some(servers) => nameserver_names(servers@),
        None => Seq::empty(),
    }
}

/// The host names of the name servers of the registration.
pub fn extract_nameservers(rdap_domain: &RdapDomain) -> (r: Vec<String>)
    ensures
        r.deep_view() == nameservers_of(*rdap_domain),
{
    let mut out: Vec<String> = Vec::new();
    match &rdap_domain.nameservers {
        Some(servers) => {
            let mut i: usize = 0;
            assert(out.deep_view() =~= nameserver_names(servers@.take(0)));
            while i < servers.len()
                invariant
                    i <= servers.len(),
                    out.deep_view() == nameserver_names(servers@.take(i as int)),
                decreases servers.len() - i,
            {
                assert(servers@.take(i as int + 1).drop_last() =~= servers@.take(i as int));
                match &servers[i].ldh_name {
                    Some(name) => {
                        let ghost before = out;
                        let copy = name.clone();
                        out.push(copy);
                        proof {
                            crate::text::lemma_deep_view_push(before, out, copy);
                        }
                    },
                    None => {},
                }
                i += 1;
            }
            assert(servers@.take(servers@.len() as int) =~= servers@);
        },
        None => {
            assert(out.deep_view() =~= Seq::<Seq<char>>::empty());
        },
    }
    out
}

/// The status list of a document, as it stands.
pub open spec fn status_of(document: RdapDomain) -> Seq<Seq<char>> {
    match document.status {
        Some(status) => status.deep_view(),
        None => Seq::empty(),
    }
}

/// The status list of the registration.
pub fn extract_status(rdap_domain: &RdapDomain) -> (r: Vec<String>)
    ensures
        r.deep_view() == status_of(*rdap_domain),
{
    let mut out: Vec<String> = Vec::new();
    match &rdap_domain.status {
        Some(status) => {
            let mut i: usize = 0;
            assert(out.deep_view() =~= status.deep_view().take(0));
            while i < status.len()
                invariant
                    i <= status.len(),
                    out.deep_view() == status.deep_view().take(i as int),
                decreases status.len() - i,
            {
                let ghost before = out;
                let copy = status[i].clone();
                out.push(copy);
                proof {
                    crate::text::lemma_deep_view_push(before, out, copy);
                    assert(status.deep_view().take(i as int).push(copy@)
                        =~= status.deep_view().take(i as int + 1));
                }
                i += 1;
            }
            assert(status.deep_view().take(status@.len() as int) =~= status.deep_view());
        },
        None => {
            assert(out.deep_view() =~= Seq::<Seq<char>>::empty());
        },
    }
    out
}

/// The directory of well-known registries: each top-level domain with the
/// base URL of its RDAP server.
pub open spec fn registry_directory() -> Seq<(Seq<char>, Seq<char>)> {
    seq![
        ("com"@, "https://rdap.verisign.com/com/v1"@),
        ("net"@, "https://rdap.verisign.com/net/v1"@),
        ("org"@, "https://rdap.publicinterestregistry.org/rdap"@),
        ("info"@, "https://rdap.afilias.net/rdap"@),
        ("io"@, "https://rdap.nic.io"@),
        ("co"@, "https://rdap.nic.co"@),
        ("me"@, "https://rdap.nic.me"@),
        ("tv"@, "https://rdap.nic.tv"@),
        ("app"@, "https://rdap.nic.google"@),
        ("dev"@, "https://rdap.nic.google"@),
        ("cloud"@, "https://rdap.nic.google"@),
    ]
}

/// The directory names no top-level domain twice, so that it is a mapping
/// from top-level domains to base URLs.
pub proof fn lemma_directory_names_each_tld_once()
    ensures
        forall|i: int, j: int|
            0 <= i < j < registry_directory().len() ==> (#[trigger] registry_directory()[i]).0 != (
            #[trigger] registry_directory()[j]).0,
{
    reveal_strlit("com");
    reveal_strlit("net");
    reveal_strlit("org");
    reveal_strlit("info");
    reveal_strlit("io");
    reveal_strlit("co");
    reveal_strlit("me");
    reveal_strlit("tv");
    reveal_strlit("app");
    reveal_strlit("dev");
    reveal_strlit("cloud");
    let d = registry_directory();
    assert(d[0].0[0] == 'c' && d[0].0[2] == 'm');
    assert(d[1].0[0] == 'n');
    assert(d[2].0[0] == 'o');
    assert(d[3].0.len() == 4);
    assert(d[4].0[0] == 'i' && d[4].0.len() == 2);
    assert(d[5].0[0] == 'c' && d[5].0.len() == 2);
    assert(d[6].0[0] == 'm' && d[6].0.len() == 2);
    assert(d[7].0[0] == 't' && d[7].0.len() == 2);
    assert(d[8].0[0] == 'a' && d[8].0.len() == 3);
    assert(d[9].0[0] == 'd' && d[9].0.len() == 3);
    assert(d[10].0.len() == 5);
}

/// The base URL that the first entry at or after `from` gives for `tld`.
pub open spec fn directory_entry(entries: Seq<(Seq<char>, Seq<char>)>, tld: Seq<char>, from: int)
    -> Option<Seq<char>>
    decreases entries.len() - from,
{
    if 0 <= from < entries.len() {
        if entries[from].0 == tld {
            Some(entries[from].1)
        } else {
            directory_entry(entries, tld, from + 1)
        }
    } else {
        None
    }
}

/// The base URL of the RDAP server of a top-level domain, where the
/// directory knows it.
pub open spec fn directory_url(tld: Seq<char>) -> Option<Seq<char>> {
    directory_entry(registry_directory(), tld, 0)
}

/// The top-level domain of a name: its last label, the text after the last
/// dot, or the whole name where it holds no dot.
pub open spec fn tld_of(domain: Seq<char>) -> Seq<char> {
    crate::text::split_on(domain, '.').last()
}

/// The URL of the domain query at an RDAP server.
pub open spec fn domain_url(base: Seq<char>, domain: Seq<char>) -> Seq<char> {
    base + "/domain/"@ + domain
}

/// The URL of the bootstrap discovery query for a domain.
pub open spec fn bootstrap_url(domain: Seq<char>) -> Seq<char> {
    "https://rdap-bootstrap.arin.net/bootstrap/domain/"@ + domain
}

/// The message of a lookup that found no document.
pub open spec fn lookup_failure(domain: Seq<char>) -> Seq<char> {
    "RDAP lookup failed for domain: "@ + domain
}

/// The first RDAP base URL that a discovery answer advertises: the first
/// item of the first service, where that is a list whose first item is a
/// text.
pub open spec fn advertised_server(answer: RdapBootstrapResponse) -> Option<Seq<char>> {
    match answer.services {
        Some(services) => {
            if services@.len() > 0 && services@[0]@.len() > 0 {
                match services@[0]@[0] {
                    JsonValue::List(urls) => {
                        if urls@.len() > 0 {
                            match urls@[0] {
                                JsonValue::Text(url) => Some(url@),
                                _ => None,
                            }
                        } else {
                            None
                        }
                    },
                    _ => None,
                }
            } else {
                None
            }
        },
        None => None,
    }
}

/// The first RDAP base URL that a discovery answer advertises.
pub fn bootstrap_server(answer: &RdapBootstrapResponse) -> (r: Option<String>)
    ensures
        text_view(r) == advertised_server(*answer),
{
    match &answer.services {
        Some(services) => {
            if services.len() > 0 && services[0].len() > 0 {
                match &services[0][0] {
                    JsonValue::List(urls) => {
                        if urls.len() > 0 {
                            match &urls[0] {
                                JsonValue::Text(url) => Some(url.clone()),
                                _ => None,
                            }
                        } else {
                            None
                        }
                    },
                    _ => None,
                }
            } else {
                None
            }
        },
        None => None,
    }
}

/// The top-level domain of a name.
pub fn top_level_domain(domain: &str) -> (r: String)
    ensures
        r@ == tld_of(domain@),
{
    let chars = to_chars(domain);
    let labels = split(&chars, '.');
    let last = &labels[labels.len() - 1];
    proof {
        crate::text::lemma_chars_deep_view(*last);
        assert(labels.deep_view().last() == labels@[labels@.len() - 1].deep_view());
    }
    text_of(last)
}

/// The URL of the domain query at the RDAP server `base_url`.
pub fn query_url(base_url: &str, domain: &str) -> (r: String)
    ensures
        r@ == domain_url(base_url@, domain@),
{
    let front = join_text(base_url, "/domain/");
    join_text(front.as_str(), domain)
}

/// The request of a lookup that is in flight.
#[derive(Debug, Clone, Copy, PartialEq, Eq)]
pub enum RdapPhase {
    /// The domain query at the server that the directory names.
    Directory,
    /// The query at the bootstrap discovery service.
    Discovery,
    /// The domain query at the server that the discovery advertised.
    Discovered,
}

/// What came back for the request in flight.
#[derive(Debug)]
pub enum RdapReply {
    /// A success status with a body that decoded as a domain document.
    Document(RdapDomain),
    /// A success status with a body that decoded as a discovery answer.
    Services(RdapBootstrapResponse),
    /// A transport error, another status, or a body that did not decode.
    Failure,
}

/// Where a lookup stands after a step.
#[derive(Debug)]
pub enum RdapProgress {
    /// The next request to make: a GET of `url`.
    Request { phase: RdapPhase, url: String },
    /// The lookup ended with a document.
    Found(RdapDomain),
    /// The lookup ended without one; the text is the error message.
    Failed(String),
}

/// The place of a phase in the order of a lookup.
pub open spec fn phase_rank(phase: RdapPhase) -> nat {
    match phase {
        RdapPhase::Directory => 0,
        RdapPhase::Discovery => 1,
        RdapPhase::Discovered => 2,
    }
}

/// The resolver of registration data, with its directory of well-known
/// registries. The directory is fixed when the resolver is made.
pub struct RdapClient {
    rdap_base_urls: Vec<(String, String)>,
}

impl RdapClient {
    /// The entries of the directory, in order.
    pub closed spec fn directory(&self) -> Seq<(Seq<char>, Seq<char>)> {
        Seq::new(
            self.rdap_base_urls@.len(),
            |i: int| (self.rdap_base_urls@[i].0@, self.rdap_base_urls@[i].1@),
        )
    }

    /// Every resolver holds the directory of well-known registries.
    #[verifier::type_invariant]
    pub closed spec fn well_formed(&self) -> bool {
        self.directory() == registry_directory()
    }

    /// A resolver with the directory of well-known registries.
    pub fn new() -> (r: Self)
        ensures
            r.directory() == registry_directory(),
    {
        let mut urls: Vec<(String, String)> = Vec::new();
        urls.push(("com".to_owned(), "https://rdap.verisign.com/com/v1".to_owned()));
        urls.push(("net".to_owned(), "https://rdap.verisign.com/net/v1".to_owned()));
        urls.push(("org".to_owned(), "https://rdap.publicinterestregistry.org/rdap".to_owned()));
        urls.push(("info".to_owned(), "https://rdap.afilias.net/rdap".to_owned()));
        urls.push(("io".to_owned(), "https://rdap.nic.io".to_owned()));
        urls.push(("co".to_owned(), "https://rdap.nic.co".to_owned()));
        urls.push(("me".to_owned(), "https://rdap.nic.me".to_owned()));
        urls.push(("tv".to_owned(), "https://rdap.nic.tv".to_owned()));
        urls.push(("app".to_owned(), "https://rdap.nic.google".to_owned()));
        urls.push(("dev".to_owned(), "https://rdap.nic.google".to_owned()));
        urls.push(("cloud".to_owned(), "https://rdap.nic.google".to_owned()));
        assert(Seq::new(urls@.len(), |i: int| (urls@[i].0@, urls@[i].1@))
            =~= registry_directory());
        RdapClient { rdap_base_urls: urls }
    }

    /// The base URL of the RDAP server of `tld`, where the directory knows
    /// it.
    pub fn base_url(&self, tld: &str) -> (r: Option<String>)
        ensures
            text_view(r) == directory_url(tld@),
    {
        proof {
            use_type_invariant(self);
        }
        let mut i: usize = 0;
        while i < self.rdap_base_urls.len()
            invariant
                i <= self.rdap_base_urls.len(),
                self.directory() == registry_directory(),
                directory_url(tld@) == directory_entry(self.directory(), tld@, i as int),
            decreases self.rdap_base_urls.len() - i,
        {
            assert(self.directory()[i as int].0 == self.rdap_base_urls@[i as int].0@);
            if same(self.rdap_base_urls[i].0.as_str(), tld) {
                return Some(self.rdap_base_urls[i].1.clone());
            }
            i += 1;
        }
        None
    }

    /// The first request of a lookup: the domain query at the server that
    /// the directory names for the top-level domain, or the discovery query
    /// where it names none.
    pub fn start(&self, domain: &str) -> (r: RdapProgress)
        ensures
            match directory_url(tld_of(domain@)) {
                Some(base) => r matches RdapProgress::Request { phase, url }
                    && phase == RdapPhase::Directory && url@ == domain_url(base, domain@),
                None => r matches RdapProgress::Request { phase, url }
                    && phase == RdapPhase::Discovery && url@ == bootstrap_url(domain@),
            },
    {
        let tld = top_level_domain(domain);
        match self.base_url(tld.as_str()) {
            Some(base) => RdapProgress::Request {
                phase: RdapPhase::Directory,
                url: query_url(base.as_str(), domain),
            },
            None => RdapProgress::Request {
                phase: RdapPhase::Discovery,
                url: join_text("https://rdap-bootstrap.arin.net/bootstrap/domain/", domain),
            },
        }
    }

    /// The step of a lookup after the reply to the request in flight.
    ///
    /// A document ends the lookup. A failed directory query turns to the
    /// discovery service; a discovery answer that advertises a server turns
    /// to that server; every other reply ends the lookup with the failure
    /// message for the domain. A next request is always of a later phase,
    /// so a lookup makes three requests at most.
    pub fn lookup_domain(&self, domain: &str, phase: RdapPhase, reply: RdapReply) -> (r:
        RdapProgress)
        ensures
            match (phase, reply) {
                (RdapPhase::Directory, RdapReply::Document(document)) => r == RdapProgress::Found(
                    document,
                ),
                (RdapPhase::Discovered, RdapReply::Document(document)) => r == RdapProgress::Found(
                    document,
                ),
                (RdapPhase::Directory, _) => r matches RdapProgress::Request { phase: next, url }
                    && next == RdapPhase::Discovery && url@ == bootstrap_url(domain@),
                (RdapPhase::Discovery, RdapReply::Services(answer)) => match advertised_server(
                    answer,
                ) {
                    Some(base) => r matches RdapProgress::Request { phase: next, url } && next
                        == RdapPhase::Discovered && url@ == domain_url(base, domain@),
                    None => r matches RdapProgress::Failed(message) && message@ == lookup_failure(
                        domain@,
                    ),
                },
                _ => r matches RdapProgress::Failed(message) && message@ == lookup_failure(
                    domain@,
                ),
            },
            r matches RdapProgress::Request { phase: next, .. } ==> phase_rank(next) > phase_rank(
                phase,
            ),
    {
        match phase {
            RdapPhase::Directory => match reply {
                RdapReply::Document(document) => RdapProgress::Found(document),
                _ => RdapProgress::Request {
                    phase: RdapPhase::Discovery,
                    url: join_text("https://rdap-bootstrap.arin.net/bootstrap/domain/", domain),
                },
            },
            RdapPhase::Discovery => match reply {
                RdapReply::Services(answer) => match bootstrap_server(&answer) {
                    Some(base) => RdapProgress::Request {
                        phase: RdapPhase::Discovered,
                        url: query_url(base.as_str(), domain),
                    },
                    None => RdapProgress::Failed(join_text("RDAP lookup failed for domain: ", domain)),
                },
                _ => RdapProgress::Failed(join_text("RDAP lookup failed for domain: ", domain)),
            },
            RdapPhase::Discovered => match reply {
                RdapReply::Document(document) => RdapProgress::Found(document),
                _ => RdapProgress::Failed(join_text("RDAP lookup failed for domain: ", domain)),
            },
        }
    }
}

impl Default for RdapClient {
    /// A resolver with the directory of well-known registries.
    fn default() -> (r: Self)
        ensures
            r.directory() == registry_directory(),
    {
        RdapClient::new()
    }
}

} // verus!
