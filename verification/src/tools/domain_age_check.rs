//! The age of a domain, from the creation date of its registration record.

use crate::calendar::{
    date_of, datetime_of, days_between, instant_of, midnight_of, parse_date, parse_datetime,
    whole_days_between, Instant,
};
use crate::text::text_view;
use crate::tools::domain::normalized;
use crate::tools::whois::WhoisInfo;
use vstd::prelude::*;

verus! {

/// The age of a domain. The creation date is the text of the registration
/// record; the age is absent where that text is absent or reads as no
/// date.
#[derive(Debug)]
pub struct DomainAge {
    pub domain: String,
    pub creation_date: Option<String>,
    pub age_days: Option<i64>,
}

/// The normal form of `domain`.
pub fn normalize_domain(domain: &str) -> (r: String)
    ensures
        r@ == normalized(domain@),
{
    crate::tools::domain::normalize_domain(domain)
}

/// The instant that a creation date reads as. Four formats are tried in
/// order and the first that fits decides: a date and time with fractional
/// seconds and a `Z`, a date and time separated by a space, a plain date,
/// and a date with the day first and an abbreviated month name. A plain
/// date stands for its midnight.
pub open spec fn creation_instant(text: Seq<char>) -> Option<Instant> {
    if datetime_of(text, "%Y-%m-%dT%H:%M:%S%.fZ"@).is_some() {
        instant_of(datetime_of(text, "%Y-%m-%dT%H:%M:%S%.fZ"@))
    } else if datetime_of(text, "%Y-%m-%d %H:%M:%S"@).is_some() {
        instant_of(datetime_of(text, "%Y-%m-%d %H:%M:%S"@))
    } else if date_of(text, "%Y-%m-%d"@).is_some() {
        midnight_of(date_of(text, "%Y-%m-%d"@))
    } else {
        midnight_of(date_of(text, "%d-%b-%Y"@))
    }
}

/// The age in days at `now` of what was created at `created`: the whole
/// days between the two, rounded toward zero, and negative for a creation
/// that lies a day or more ahead.
pub open spec fn age_at(now: Instant, created: Option<Instant>) -> Option<int> {
    match created {
        Some(created) => Some(days_between(now, created)),
        None => None,
    }
}

/// The age in days at `now` of a creation date given as text.
pub open spec fn age_of(text: Seq<char>, now: Instant) -> Option<int> {
    age_at(now, creation_instant(text))
}

/// The view of an optional number of days.
pub open spec fn days_view(days: Option<i64>) -> Option<int> {
    match days {
        Some(days) => Some(days as int),
        None => None,
    }
}

/// Midnight at the start of a day.
fn midnight(day: Option<i32>) -> (r: Option<Instant>)
    ensures
        r == match day {
            Some(day) => Some(Instant { day, secs: 0, frac: 0 }),
            None => None,
        },
{
    match day {
        Some(day) => Some(Instant { day, secs: 0, frac: 0 }),
        None => None,
    }
}

/// Reads a creation date.
pub fn parse_creation_date(date_str: &str) -> (r: Option<Instant>)
    ensures
        r == creation_instant(date_str@),
{
    let with_fraction = parse_datetime(date_str, "%Y-%m-%dT%H:%M:%S%.fZ");
    if with_fraction.is_some() {
        return with_fraction;
    }
    let with_space = parse_datetime(date_str, "%Y-%m-%d %H:%M:%S");
    if with_space.is_some() {
        return with_space;
    }
    let plain = parse_date(date_str, "%Y-%m-%d");
    if plain.is_some() {
        return midnight(plain);
    }
    midnight(parse_date(date_str, "%d-%b-%Y"))
}

/// The age in days at `now` of what was created at `created`.
pub fn age_in_days(now: &Instant, created: Option<Instant>) -> (r: Option<i64>)
    ensures
        days_view(r) == age_at(*now, created),
{
    match created {
        Some(created) => Some(whole_days_between(now, &created)),
        None => None,
    }
}

/// The age in days at `now` of the creation date `date_str`; nothing where
/// the text reads as no date.
pub fn parse_date_and_calculate_age(date_str: &str, now: &Instant) -> (r: Option<i64>)
    ensures
        days_view(r) == age_of(date_str@, *now),
{
    age_in_days(now, parse_creation_date(date_str))
}

/// The age at `now` of the domain whose registration record is
/// `whois_info`. The result names the domain in its normal form and
/// carries the creation date of the record as it stands.
pub fn check_age(domain: &str, whois_info: &WhoisInfo, now: &Instant) -> (r: DomainAge)
    ensures
        r.domain@ == normalized(domain@),
        text_view(r.creation_date) == whois_info@.creation_date,
        days_view(r.age_days) == match whois_info@.creation_date {
            Some(text) => age_of(text, *now),
            None => None,
        },
{
    let domain = normalize_domain(domain);
    match &whois_info.creation_date {
        Some(text) => {
            let age_days = parse_date_and_calculate_age(text.as_str(), now);
            DomainAge { domain, creation_date: Some(text.clone()), age_days }
        },
        None => DomainAge { domain, creation_date: None, age_days: None },
    }
}

/// A creation date that reads as no date has no age, whatever the instant
/// at which it is asked for.
pub proof fn lemma_unreadable_date_has_no_age(text: Seq<char>, now: Instant)
    requires
        creation_instant(text).is_none(),
    ensures
        age_of(text, now).is_none(),
{
}

/// What was created a day before `now`, at the same time of day, is one
/// day old.
pub proof fn lemma_day_before_is_one_day_old(now: Instant, created: Instant)
    requires
        created.day + 1 == now.day,
        created.secs == now.secs,
        created.frac == now.frac,
    ensures
        age_at(now, Some(created)) == Some(1int),
{
    crate::calendar::lemma_same_time_of_day(now, created);
}

} // verus!
