//! The header collection of a request or a response, as a map from header
//! names in small letters to the values under each name, in order.

use crate::text::lower;
use hyper::header::{HeaderName, HeaderValue};
use hyper::HeaderMap;
use vstd::prelude::*;
use vstd::utf8::encode_utf8;

verus! {

/// The header collection of the `http` crate, which `hyper` hands out.
#[verifier::external_type_specification]
#[verifier::external_body]
#[verifier::reject_recursive_types(T)]
pub struct ExHeaderMap<T>(hyper::HeaderMap<T>);

/// A header value of the `http` crate.
#[verifier::external_type_specification]
#[verifier::external_body]
pub struct ExHeaderValue(hyper::header::HeaderValue);

/// Headers: under each name, in small letters, its values in order.
pub type HeaderContents = Map<Seq<char>, Seq<Seq<u8>>>;

/// What a header collection holds: under each name, in small letters, its
/// values in the order in which they were added.
pub uninterp spec fn header_contents(m: HeaderMap) -> Map<Seq<char>, Seq<Seq<u8>>>;

/// The values under `name`; none where the name is absent.
pub open spec fn values_under(c: HeaderContents, name: Seq<char>) -> Seq<Seq<u8>> {
    if c.contains_key(name) {
        c[name]
    } else {
        Seq::empty()
    }
}

/// The values that a list of headers gives for `name`, in order.
pub open spec fn values_named(list: Seq<(String, Vec<u8>)>, name: Seq<char>) -> Seq<Seq<u8>>
    decreases list.len(),
{
    if list.len() == 0 {
        Seq::empty()
    } else {
        let before = values_named(list.drop_last(), name);
        if list.last().0@ == name {
            before.push(list.last().1@)
        } else {
            before
        }
    }
}

/// A collection with fewer names than this takes one more in any case.
pub const ROOM_FOR_NAMES: usize = 6554;

/// Whether `c` may stand in a header name.
pub open spec fn is_name_char(c: char) -> bool {
    ||| 'a' <= c && c <= 'z'
    ||| 'A' <= c && c <= 'Z'
    ||| '0' <= c && c <= '9'
    ||| c == '!' || c == '#' || c == '$' || c == '%' || c == '&' || c == '\''
    ||| c == '*' || c == '+' || c == '-' || c == '.' || c == '^' || c == '_'
    ||| c == '`' || c == '|' || c == '~'
}

/// Whether `s` is a header name: from one to 65535 characters, each of which
/// may stand in one.
pub open spec fn is_header_name(s: Seq<char>) -> bool {
    &&& 0 < s.len() <= 65535
    &&& forall|i: int| 0 <= i < s.len() ==> is_name_char(#[trigger] s[i])
}

/// Whether `s` can be a header value: no control character but the tab.
pub open spec fn is_header_value(s: Seq<char>) -> bool {
    forall|i: int|
        0 <= i < s.len() ==> ((#[trigger] s[i]) >= ' ' && s[i] != '\u{7f}') || s[i] == '\t'
}

/// `HeaderMap::new`: a collection without headers.
#[verifier::external_body]
pub(crate) fn header_map_new() -> (m: HeaderMap)
    ensures
        header_contents(m) == HeaderContents::empty(),
{
    HeaderMap::new()
}

/// `HeaderMap::clone`: a collection that holds the same headers.
#[verifier::external_body]
pub(crate) fn header_map_clone(m: &HeaderMap) -> (r: HeaderMap)
    ensures
        header_contents(r) == header_contents(*m),
{
    m.clone()
}

/// `HeaderMap::get`: the first value under a name, which is looked up without
/// regard to case.
#[verifier::external_body]
pub(crate) fn header_first(m: &HeaderMap, name: &str) -> (r: Option<Vec<u8>>)
    requires
        is_header_name(name@),
    ensures
        r is Some <==> header_contents(*m).contains_key(lower(name@)),
        r matches Some(v) ==> header_contents(*m)[lower(name@)].len() > 0
            && header_contents(*m)[lower(name@)][0] == v@,
{
    m.get(name).map(|value| value.as_bytes().to_vec())
}

/// `HeaderMap::remove`: takes out all the values under a name, which is looked
/// up without regard to case.
#[verifier::external_body]
pub(crate) fn header_remove(m: &mut HeaderMap, name: &str)
    requires
        is_header_name(name@),
    ensures
        header_contents(*final(m)) == header_contents(*old(m)).remove(lower(name@)),
{
    m.remove(name);
}

/// `HeaderName::from_bytes`: whether it takes the text for a header name.
#[verifier::external_body]
pub(crate) fn header_name_accepted(name: &str) -> (r: bool)
    ensures
        r == is_header_name(name@),
{
    HeaderName::from_bytes(name.as_bytes()).is_ok()
}

/// `HeaderValue::from_str`: whether it takes the text for a header value.
#[verifier::external_body]
pub(crate) fn header_value_accepted(value: &str) -> (r: bool)
    ensures
        r == is_header_value(value@),
{
    HeaderValue::from_str(value).is_ok()
}

/// `HeaderMap::try_insert`: puts one value under a name, in place of all that
/// were there. It refuses, and changes nothing, only where the collection
/// cannot grow, which a collection of fewer than `ROOM_FOR_NAMES` names always
/// can. When a larger collection refuses is left open: it depends on how the
/// names collide in its table.
#[verifier::external_body]
pub(crate) fn header_insert(m: &mut HeaderMap, name: &str, value: &str) -> (r: bool)
    requires
        is_header_name(name@),
        is_header_value(value@),
    ensures
        r ==> header_contents(*final(m)) == header_contents(*old(m)).insert(
            lower(name@),
            seq![encode_utf8(value@)],
        ),
        !r ==> header_contents(*final(m)) == header_contents(*old(m))
            && header_contents(*old(m)).len() >= ROOM_FOR_NAMES,
{
    match (HeaderName::from_bytes(name.as_bytes()), HeaderValue::from_str(value)) {
        (Ok(name), Ok(value)) => m.try_insert(name, value).is_ok(),
        _ => false,
    }
}

/// `HeaderMap::iter`: every header, one pair for each value. The names are in
/// small letters. The values under one name come in their order; how the names
/// follow each other is left open.
#[verifier::external_body]
pub(crate) fn header_list(m: &HeaderMap) -> (r: Vec<(String, Vec<u8>)>)
    ensures
        forall|name: Seq<char>|
            #[trigger] values_named(r@, name) == values_under(header_contents(*m), name),
        forall|i: int| 0 <= i < r@.len() ==> lower((#[trigger] r@[i]).0@) == r@[i].0@,
{
    m.iter().map(|(name, value)| (name.as_str().to_string(), value.as_bytes().to_vec())).collect()
}

} // verus!
