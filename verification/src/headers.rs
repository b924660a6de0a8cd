//! Hop-by-hop headers, and header values read as text.

use crate::header_map::{
    header_contents, header_first, header_name_accepted, header_remove, is_header_name,
    is_name_char, HeaderContents,
};
use crate::text::{lower, split, split_chars, text_of, texts, trim, trim_chars};
use hyper::HeaderMap;
use vstd::prelude::*;

verus! {

/// Whether a byte of a header value is visible ASCII, a space or a tab.
pub open spec fn is_visible(b: u8) -> bool {
    (32 <= b && b < 127) || b == 9
}

/// A header value as text, if all of it is visible ASCII, spaces and tabs.
pub open spec fn value_text(v: Seq<u8>) -> Option<Seq<char>> {
    if forall|i: int| 0 <= i < v.len() ==> is_visible(#[trigger] v[i]) {
        Some(Seq::new(v.len(), |i: int| v[i] as char))
    } else {
        None
    }
}

/// The first value under `name` as text, if it is there and is text.
pub open spec fn first_text(c: HeaderContents, name: Seq<char>) -> Option<Seq<char>> {
    if c.contains_key(name) {
        value_text(c[name][0])
    } else {
        None
    }
}

/// A header value as text, if all of it is visible ASCII, spaces and tabs.
pub fn value_chars(v: &Vec<u8>) -> (r: Option<Vec<char>>)
    ensures
        match value_text(v@) {
            Some(t) => r matches Some(chars) && chars@ == t,
            None => r is None,
        },
{
    let mut chars: Vec<char> = Vec::new();
    let mut i: usize = 0;
    while i < v.len()
        invariant
            i <= v.len(),
            chars@ == Seq::new(i as nat, |j: int| v@[j] as char),
            forall|j: int| 0 <= j < i ==> is_visible(#[trigger] v@[j]),
        decreases v.len() - i,
    {
        let b = v[i];
        if !((32 <= b && b < 127) || b == 9) {
            assert(!is_visible(v@[i as int]));
            return None;
        }
        chars.push(b as char);
        i += 1;
    }
    Some(chars)
}

/// The first value under `name` as text, if it is there and is text.
pub fn header_text(m: &HeaderMap, name: &str) -> (r: Option<Vec<char>>)
    requires
        is_header_name(name@),
    ensures
        match first_text(header_contents(*m), lower(name@)) {
            Some(t) => r matches Some(chars) && chars@ == t,
            None => r is None,
        },
{
    match header_first(m, name) {
        Some(v) => value_chars(&v),
        None => None,
    }
}

/// Whether `name` is among the comma-separated names of a `Connection` value,
/// without regard to case.
pub open spec fn is_listed(value: Seq<char>, name: Seq<char>) -> bool {
    &&& is_header_name(name)
    &&& exists|i: int|
        0 <= i < split(value, ',').len() && lower(trim(#[trigger] split(value, ',')[i])) == name
}

/// The headers that concern one connection only, whatever it lists.
pub open spec fn is_hop_by_hop(name: Seq<char>) -> bool {
    ||| name == "connection"@
    ||| name == "proxy-connection"@
    ||| name == "keep-alive"@
    ||| name == "te"@
    ||| name == "trailer"@
    ||| name == "transfer-encoding"@
    ||| name == "upgrade"@
}

/// Whether the header `name` stays behind when a message is passed on: the
/// message's own `Connection` header lists it, it is hop-by-hop by nature, or
/// it holds the credentials for this proxy.
pub open spec fn is_dropped(c: HeaderContents, name: Seq<char>) -> bool {
    ||| first_text(c, "connection"@) matches Some(value) && is_listed(value, name)
    ||| is_hop_by_hop(name)
    ||| name == "proxy-authorization"@
}

/// The headers of a message without those that stay behind.
pub open spec fn passed_on(c: HeaderContents) -> HeaderContents {
    c.remove_keys(Set::new(|name: Seq<char>| is_dropped(c, name)))
}

/// Whether `name` is a header name in small letters.
pub open spec fn is_lower_name(name: Seq<char>) -> bool {
    is_header_name(name) && lower(name) == name
}

/// The names of the headers that the proxy looks at.
pub(crate) proof fn known_names_are_names()
    ensures
        is_lower_name("connection"@),
        is_lower_name("proxy-connection"@),
        is_lower_name("keep-alive"@),
        is_lower_name("te"@),
        is_lower_name("trailer"@),
        is_lower_name("transfer-encoding"@),
        is_lower_name("upgrade"@),
        is_lower_name("proxy-authorization"@),
        is_lower_name("host"@),
        is_lower_name("range"@),
        is_lower_name("content-length"@),
        is_lower_name("cache-control"@),
        is_lower_name("expires"@),
{
    reveal_strlit("connection");
    reveal_strlit("proxy-connection");
    reveal_strlit("keep-alive");
    reveal_strlit("te");
    reveal_strlit("trailer");
    reveal_strlit("transfer-encoding");
    reveal_strlit("upgrade");
    reveal_strlit("proxy-authorization");
    reveal_strlit("host");
    reveal_strlit("range");
    reveal_strlit("content-length");
    reveal_strlit("cache-control");
    reveal_strlit("expires");
    assert(lower("connection"@) =~= "connection"@);
    assert(lower("proxy-connection"@) =~= "proxy-connection"@);
    assert(lower("keep-alive"@) =~= "keep-alive"@);
    assert(lower("te"@) =~= "te"@);
    assert(lower("trailer"@) =~= "trailer"@);
    assert(lower("transfer-encoding"@) =~= "transfer-encoding"@);
    assert(lower("upgrade"@) =~= "upgrade"@);
    assert(lower("proxy-authorization"@) =~= "proxy-authorization"@);
    assert(lower("host"@) =~= "host"@);
    assert(lower("range"@) =~= "range"@);
    assert(lower("content-length"@) =~= "content-length"@);
    assert(lower("cache-control"@) =~= "cache-control"@);
    assert(lower("expires"@) =~= "expires"@);
}

proof fn case_does_not_make_a_name(s: Seq<char>)
    ensures
        is_header_name(lower(s)) <==> is_header_name(s),
{
    if is_header_name(s) {
        assert forall|i: int| 0 <= i < lower(s).len() implies is_name_char(
            #[trigger] lower(s)[i],
        ) by {
            assert(is_name_char(s[i]));
        }
    }
    if is_header_name(lower(s)) {
        assert forall|i: int| 0 <= i < s.len() implies is_name_char(#[trigger] s[i]) by {
            assert(is_name_char(lower(s)[i]));
        }
    }
}

/// Removes the headers named in a `Connection` value.
fn remove_listed(headers: &mut HeaderMap, value: &Vec<char>)
    ensures
        header_contents(*final(headers)) == header_contents(*old(headers)).remove_keys(
            Set::new(|name: Seq<char>| is_listed(value@, name)),
        ),
{
    let ghost c = header_contents(*headers);
    let pieces = split_chars(value, ',');
    let mut i: usize = 0;
    while i < pieces.len()
        invariant
            i <= pieces.len(),
            texts(pieces@) == split(value@, ','),
            c == header_contents(*old(headers)),
            forall|name: Seq<char>| #[trigger]
                header_contents(*headers).contains_key(name) <==> c.contains_key(name) && !(
                is_header_name(name) && exists|j: int|
                    0 <= j < i && lower(trim(#[trigger] split(value@, ',')[j])) == name),
            forall|name: Seq<char>|
                header_contents(*headers).contains_key(name) ==> #[trigger] header_contents(
                    *headers,
                )[name] == c[name],
        decreases pieces.len() - i,
    {
        let name = trim_chars(&pieces[i]);
        assert(pieces@[i as int]@ == texts(pieces@)[i as int]);
        let ghost before = header_contents(*headers);
        let text = text_of(&name);
        if header_name_accepted(text.as_str()) {
            header_remove(headers, text.as_str());
        }
        i += 1;
        assert forall|n: Seq<char>| #[trigger]
            header_contents(*headers).contains_key(n) <==> c.contains_key(n) && !(is_header_name(n)
            && exists|j: int|
            0 <= j < i && lower(trim(#[trigger] split(value@, ',')[j])) == n) by {
            let listed_before = exists|j: int|
                0 <= j < i - 1 && lower(trim(#[trigger] split(value@, ',')[j])) == n;
            let listed_now = exists|j: int|
                0 <= j < i && lower(trim(#[trigger] split(value@, ',')[j])) == n;
            assert(before.contains_key(n) <==> c.contains_key(n) && !(is_header_name(n)
                && listed_before));
            if listed_now && !listed_before {
                let j = choose|j: int|
                    0 <= j < i && lower(trim(#[trigger] split(value@, ',')[j])) == n;
                assert(j == i - 1);
            }
            assert(lower(trim(split(value@, ',')[i - 1])) == lower(name@));
            case_does_not_make_a_name(name@);
        }
    }
    assert(header_contents(*headers) =~= c.remove_keys(
        Set::new(|name: Seq<char>| is_listed(value@, name)),
    ));
}

/// Takes out of a message the headers that stay behind when it is passed on.
pub fn strip_hop_by_hop(headers: &mut HeaderMap)
    ensures
        header_contents(*final(headers)) == passed_on(header_contents(*old(headers))),
{
    let ghost c = header_contents(*headers);
    proof {
        known_names_are_names();
    }
    if let Some(value) = header_text(headers, "connection") {
        remove_listed(headers, &value);
    }
    header_remove(headers, "connection");
    header_remove(headers, "proxy-connection");
    header_remove(headers, "keep-alive");
    header_remove(headers, "te");
    header_remove(headers, "trailer");
    header_remove(headers, "transfer-encoding");
    header_remove(headers, "upgrade");
    header_remove(headers, "proxy-authorization");
    assert(header_contents(*headers) =~= passed_on(c));
}

/// No hop-by-hop header, no header that `Connection` lists and no
/// `Proxy-Authorization` is passed on, and every other header is, unchanged.
pub proof fn exactly_the_other_headers_are_passed_on(c: HeaderContents, name: Seq<char>)
    ensures
        passed_on(c).contains_key(name) <==> c.contains_key(name) && !is_dropped(c, name),
        passed_on(c).contains_key(name) ==> passed_on(c)[name] == c[name],
        !passed_on(c).contains_key("connection"@),
        !passed_on(c).contains_key("proxy-authorization"@),
{
}

/// Stripping a message that has been stripped changes nothing.
pub proof fn passing_on_twice_is_passing_on_once(c: HeaderContents)
    ensures
        passed_on(passed_on(c)) == passed_on(c),
{
    assert(passed_on(passed_on(c)) =~= passed_on(c));
}

} // verus!
