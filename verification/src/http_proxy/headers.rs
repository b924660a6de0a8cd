//! What the headers of a response say about caching it.

use crate::cache::{cache_control_of, control_of, now_unix, pairs, CacheControl};
use crate::header_map::{
    header_contents, header_list, header_map_clone, values_named, values_under, HeaderContents,
};
use crate::headers::{
    first_text, header_text, known_names_are_names, passed_on, strip_hop_by_hop, value_chars,
    value_text,
};
use crate::numbers::{bounded_sum, lesser, lesser_of, signed, sum_bounded, to_signed};
use crate::text::{lower, parse_u64, text_of, u64_number};
use hyper::HeaderMap;
use std::time::UNIX_EPOCH;
use vstd::prelude::*;

verus! {

// ---------------------------------------------------------------------------
// Headers to be stored
// ---------------------------------------------------------------------------

/// The values that are text, as text.
pub open spec fn text_values(values: Seq<Seq<u8>>) -> Seq<Seq<char>>
    decreases values.len(),
{
    if values.len() == 0 {
        Seq::empty()
    } else {
        let before = text_values(values.drop_last());
        match value_text(values.last()) {
            Some(text) => before.push(text),
            None => before,
        }
    }
}

/// The texts that a list of headers gives for `name`, in order.
pub open spec fn texts_named(
    list: Seq<(Seq<char>, Seq<char>)>,
    name: Seq<char>,
) -> Seq<Seq<char>>
    decreases list.len(),
{
    if list.len() == 0 {
        Seq::empty()
    } else {
        let before = texts_named(list.drop_last(), name);
        if list.last().0 == name {
            before.push(list.last().1)
        } else {
            before
        }
    }
}

/// Whether the names are in small letters.
pub open spec fn are_lower(list: Seq<(Seq<char>, Seq<char>)>) -> bool {
    forall|i: int| 0 <= i < list.len() ==> lower((#[trigger] list[i]).0) == list[i].0
}

/// Whether the list holds the headers of a response that are stored: those that
/// are passed on, and of their values those that are text, in their order. How
/// the names follow each other does not matter.
pub open spec fn is_storage_of(list: Seq<(Seq<char>, Seq<char>)>, c: HeaderContents) -> bool {
    &&& are_lower(list)
    &&& forall|name: Seq<char>| #[trigger]
        texts_named(list, name) == text_values(values_under(passed_on(c), name))
}

/// The headers of a response that are stored with it.
pub fn headers_for_storage(headers: &HeaderMap) -> (r: Vec<(String, String)>)
    ensures
        is_storage_of(pairs(r@), header_contents(*headers)),
{
    let mut sanitized = header_map_clone(headers);
    strip_hop_by_hop(&mut sanitized);
    let ghost c = passed_on(header_contents(*headers));
    let list = header_list(&sanitized);
    let mut stored: Vec<(String, String)> = Vec::new();
    let mut i: usize = 0;
    while i < list.len()
        invariant
            i <= list.len(),
            forall|j: int| 0 <= j < list@.len() ==> lower((#[trigger] list@[j]).0@) == list@[j].0@,
            are_lower(pairs(stored@)),
            forall|name: Seq<char>| #[trigger]
                texts_named(pairs(stored@), name) == text_values(
                    values_named(list@.take(i as int), name),
                ),
        decreases list.len() - i,
    {
        let ghost before = list@.take(i as int);
        let ghost now = list@.take(i + 1);
        let ghost old_pairs = pairs(stored@);
        assert(now.drop_last() =~= before);
        assert(now.last() == list@[i as int]);
        if let Some(value) = value_chars(&list[i].1) {
            let name = list[i].0.clone();
            stored.push((name, text_of(&value)));
            assert(pairs(stored@) =~= old_pairs.push((name@, value@)));
            assert(pairs(stored@).drop_last() =~= old_pairs);
        }
        i += 1;
        assert forall|name: Seq<char>| #[trigger]
            texts_named(pairs(stored@), name) == text_values(values_named(now, name)) by {
            let old_values = values_named(before, name);
            assert(texts_named(old_pairs, name) == text_values(old_values));
            if list@[i - 1].0@ == name {
                assert(values_named(now, name) == old_values.push(list@[i - 1].1@));
                assert(values_named(now, name).drop_last() =~= old_values);
            }
        }
    }
    assert(list@.take(i as int) =~= list@);
    assert forall|name: Seq<char>| #[trigger]
        texts_named(pairs(stored@), name) == text_values(values_under(c, name)) by {
        assert(values_named(list@, name) == values_under(c, name));
    }
    stored
}

// ---------------------------------------------------------------------------
// Length
// ---------------------------------------------------------------------------

/// The length of the body that the headers announce.
pub open spec fn content_length(c: HeaderContents) -> Option<u64> {
    match first_text(c, "content-length"@) {
        Some(value) => u64_number(value),
        None => None,
    }
}

/// The length of the body that the headers announce.
pub fn parse_content_length(headers: &HeaderMap) -> (r: Option<u64>)
    ensures
        r == content_length(header_contents(*headers)),
{
    proof {
        known_names_are_names();
    }
    match header_text(headers, "content-length") {
        Some(value) => parse_u64(&value),
        None => None,
    }
}

// ---------------------------------------------------------------------------
// Expiry
// ---------------------------------------------------------------------------

/// The seconds since the start of 1970 that `httpdate` reads from a date, if it
/// reads one.
pub uninterp spec fn http_date_seconds(text: Seq<char>) -> Option<u64>;

/// `httpdate::parse_http_date`, its result in seconds since the start of 1970.
#[verifier::external_body]
fn parse_http_date(text: &str) -> (r: Option<u64>)
    ensures
        r == http_date_seconds(text@),
{
    match httpdate::parse_http_date(text) {
        Ok(date) => Some(date.duration_since(UNIX_EPOCH).unwrap_or_default().as_secs()),
        Err(_) => None,
    }
}

/// When a response expires that came at `now`, given what its `Cache-Control`
/// header says and the date of its `Expires` header: after the time to live, or
/// sooner if one of the headers says so. None if it must not be cached.
pub open spec fn expiry_given(
    control: Option<CacheControl>,
    expires: Option<u64>,
    ttl_seconds: u64,
    now: i64,
) -> Option<i64> {
    let by_ttl = bounded_sum(now, signed(ttl_seconds));
    let by_age = match control {
        Some(CacheControl { no_store, no_cache, max_age: Some(age) }) => lesser(
            by_ttl,
            bounded_sum(now, signed(age)),
        ),
        _ => by_ttl,
    };
    let by_date = match expires {
        Some(date) => lesser(by_age, signed(date)),
        None => by_age,
    };
    match control {
        Some(control) => if control.no_store || control.no_cache {
            None
        } else {
            Some(by_date)
        },
        None => Some(by_date),
    }
}

/// What the `Cache-Control` header says, if there is one that is text.
pub open spec fn control_in(c: HeaderContents) -> Option<CacheControl> {
    match first_text(c, "cache-control"@) {
        Some(value) => Some(control_of(value)),
        None => None,
    }
}

/// The date of the `Expires` header, if there is one that can be read.
pub open spec fn expires_in(c: HeaderContents) -> Option<u64> {
    match first_text(c, "expires"@) {
        Some(value) => http_date_seconds(value),
        None => None,
    }
}

/// When a response with the headers expires that came at `now`.
pub open spec fn expiry(c: HeaderContents, ttl_seconds: u64, now: i64) -> Option<i64> {
    expiry_given(control_in(c), expires_in(c), ttl_seconds, now)
}

/// When a response expires that came at `now`, given what its headers say.
pub fn expiry_from(
    control: Option<CacheControl>,
    expires: Option<u64>,
    ttl_seconds: u64,
    now: i64,
) -> (r: Option<i64>)
    ensures
        r == expiry_given(control, expires, ttl_seconds, now),
{
    let mut expires_at = sum_bounded(now, to_signed(ttl_seconds));
    if let Some(control) = control {
        if control.no_store || control.no_cache {
            return None;
        }
        if let Some(age) = control.max_age {
            expires_at = lesser_of(expires_at, sum_bounded(now, to_signed(age)));
        }
    }
    if let Some(date) = expires {
        expires_at = lesser_of(expires_at, to_signed(date));
    }
    Some(expires_at)
}

/// When a response with the headers expires that came at `now`.
pub fn expiry_at(headers: &HeaderMap, ttl_seconds: u64, now: i64) -> (r: Option<i64>)
    ensures
        r == expiry(header_contents(*headers), ttl_seconds, now),
{
    proof {
        known_names_are_names();
    }
    let control = match header_text(headers, "cache-control") {
        Some(value) => Some(cache_control_of(&value)),
        None => None,
    };
    let expires = match header_text(headers, "expires") {
        Some(value) => parse_http_date(text_of(&value).as_str()),
        None => None,
    };
    expiry_from(control, expires, ttl_seconds, now)
}

/// When a response with the headers expires that comes now.
pub fn compute_expiry(headers: &HeaderMap, ttl_seconds: u64) -> (r: Option<i64>)
    ensures
        exists|now: i64| r == #[trigger] expiry(header_contents(*headers), ttl_seconds, now),
{
    let now = now_unix();
    expiry_at(headers, ttl_seconds, now)
}

/// A response that says `no-store` or `no-cache` is not cached. Any other
/// expires no later than the time to live, its `max-age` and its `Expires` date
/// allow, and at one of these times.
pub proof fn the_earliest_limit_counts(
    control: Option<CacheControl>,
    expires: Option<u64>,
    ttl_seconds: u64,
    now: i64,
)
    ensures
        ({
            let at = expiry_given(control, expires, ttl_seconds, now);
            let forbidden = control matches Some(c) && (c.no_store || c.no_cache);
            &&& at is None <==> forbidden
            &&& at matches Some(t) ==> {
                &&& t <= bounded_sum(now, signed(ttl_seconds))
                &&& control matches Some(c) ==> c.max_age matches Some(age) ==> t <= bounded_sum(
                    now,
                    signed(age),
                )
                &&& expires matches Some(date) ==> t <= signed(date)
                &&& {
                    ||| t == bounded_sum(now, signed(ttl_seconds))
                    ||| control matches Some(c) && c.max_age matches Some(age) && t == bounded_sum(
                        now,
                        signed(age),
                    )
                    ||| expires matches Some(date) && t == signed(date)
                }
            }
        }),
{
}

} // verus!
