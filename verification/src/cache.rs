//! What the cache keeps of a response, under which key, and for how long.

use crate::numbers::to_signed;
use crate::text::{
    chars_of, joined, lower, parse_u64, same_ignoring_case, split, split_chars, starts_with,
    sub_chars, texts, trim, trim_chars, u64_number,
};
use std::time::{SystemTime, UNIX_EPOCH};
use vstd::prelude::*;

verus! {

/// The directory that holds everything the cache keeps.
pub const CACHE_DIR: &'static str = ".cache";

/// The directory of the response bodies, in the cache directory.
pub const OBJECTS_DIR: &'static str = "objects";

/// The metadata file, in the cache directory.
pub const DB_FILE: &'static str = "cache.sqlite";

/// A response that the cache holds. Times are in seconds since the start of
/// 1970. A response without a body has no body path.
#[derive(Debug, Clone)]
pub struct CacheEntry {
    pub key: String,
    pub method: String,
    pub url: String,
    pub status: u16,
    pub headers: Vec<(String, String)>,
    pub body_path: Option<String>,
    pub body_size: u64,
    pub created_at: i64,
    pub expires_at: i64,
    pub last_access: i64,
}

/// A response that the cache is to hold.
#[derive(Debug, Clone)]
pub struct CacheStoreRequest {
    pub key: String,
    pub method: String,
    pub url: String,
    pub status: u16,
    pub headers: Vec<(String, String)>,
    pub body_path: Option<String>,
    pub body_size: u64,
    pub created_at: i64,
    pub expires_at: i64,
}

/// Names and values of headers, as texts.
pub open spec fn pairs(v: Seq<(String, String)>) -> Seq<(Seq<char>, Seq<char>)> {
    Seq::new(v.len(), |i: int| (v[i].0@, v[i].1@))
}

/// An optional string as text.
pub open spec fn optional_text(s: Option<String>) -> Option<Seq<char>> {
    match s {
        Some(s) => Some(s@),
        None => None,
    }
}

/// What an entry says.
#[verifier::ext_equal]
pub struct EntryView {
    pub key: Seq<char>,
    pub method: Seq<char>,
    pub url: Seq<char>,
    pub status: u16,
    pub headers: Seq<(Seq<char>, Seq<char>)>,
    pub body_path: Option<Seq<char>>,
    pub body_size: u64,
    pub created_at: i64,
    pub expires_at: i64,
    pub last_access: i64,
}

impl View for CacheEntry {
    type V = EntryView;

    open spec fn view(&self) -> EntryView {
        EntryView {
            key: self.key@,
            method: self.method@,
            url: self.url@,
            status: self.status,
            headers: pairs(self.headers@),
            body_path: optional_text(self.body_path),
            body_size: self.body_size,
            created_at: self.created_at,
            expires_at: self.expires_at,
            last_access: self.last_access,
        }
    }
}

impl View for CacheStoreRequest {
    type V = EntryView;

    /// The entry that the request asks for: it counts as used when it is made.
    open spec fn view(&self) -> EntryView {
        EntryView {
            key: self.key@,
            method: self.method@,
            url: self.url@,
            status: self.status,
            headers: pairs(self.headers@),
            body_path: optional_text(self.body_path),
            body_size: self.body_size,
            created_at: self.created_at,
            expires_at: self.expires_at,
            last_access: self.created_at,
        }
    }
}

// ---------------------------------------------------------------------------
// Keys, times and places
// ---------------------------------------------------------------------------

/// The key of a response: the method and the URL, with a space between them.
pub open spec fn key_of(method: Seq<char>, url: Seq<char>) -> Seq<char> {
    method + " "@ + url
}

/// The key under which the response to a request is kept.
pub fn cache_key(method: &str, url: &str) -> (r: String)
    ensures
        r@ == key_of(method@, url@),
{
    let mut key = joined(method, " ");
    key.append(url);
    key
}

/// Requests that differ in method or URL have different keys: a method holds no
/// space.
pub proof fn keys_tell_requests_apart(
    method1: Seq<char>,
    url1: Seq<char>,
    method2: Seq<char>,
    url2: Seq<char>,
)
    requires
        !method1.contains(' '),
        !method2.contains(' '),
        key_of(method1, url1) == key_of(method2, url2),
    ensures
        method1 == method2,
        url1 == url2,
{
    reveal_strlit(" ");
    let key1 = key_of(method1, url1);
    let key2 = key_of(method2, url2);
    assert(key1[method1.len() as int] == ' ');
    assert(key2[method2.len() as int] == ' ');
    if method1.len() < method2.len() {
        assert(method2[method1.len() as int] == key2[method1.len() as int]);
        assert(method2.contains(' '));
    }
    if method2.len() < method1.len() {
        assert(method1[method2.len() as int] == key1[method2.len() as int]);
        assert(method1.contains(' '));
    }
    assert(method1 =~= key1.take(method1.len() as int));
    assert(method2 =~= key2.take(method2.len() as int));
    assert(url1 =~= key1.skip(method1.len() as int + 1));
    assert(url2 =~= key2.skip(method2.len() as int + 1));
}

/// `SystemTime::now`: the seconds since the start of 1970, or 0 where the clock
/// stands before. Nothing is claimed of it: it is what the clock says.
#[verifier::external_body]
fn clock_seconds() -> (r: u64) {
    SystemTime::now().duration_since(UNIX_EPOCH).unwrap_or_default().as_secs()
}

/// The seconds since the start of 1970, by the clock of the machine, as
/// `to_signed` reads them. Nothing is claimed of them.
pub fn now_unix() -> (r: i64) {
    to_signed(clock_seconds())
}

/// A file or directory `name` in the directory `dir`. An absolute name stands
/// for itself.
pub open spec fn path_in(dir: Seq<char>, name: Seq<char>) -> Seq<char> {
    if "/"@.is_prefix_of(name) {
        name
    } else if dir.len() == 0 || "/"@.is_suffix_of(dir) {
        dir + name
    } else {
        dir + "/"@ + name
    }
}

/// A file or directory `name` in the directory `dir`.
pub fn path_join(dir: &str, name: &str) -> (r: String)
    ensures
        r@ == path_in(dir@, name@),
{
    if starts_with(&chars_of(name), "/") {
        return String::from_str(name);
    }
    let d = chars_of(dir);
    if d.len() == 0 || crate::text::ends_with(&d, &chars_of("/")) {
        return joined(dir, name);
    }
    let mut r = joined(dir, "/");
    r.append(name);
    r
}

/// The directory of the response bodies.
pub fn cache_objects_dir(cache_dir: &str) -> (r: String)
    ensures
        r@ == path_in(cache_dir@, OBJECTS_DIR@),
{
    path_join(cache_dir, OBJECTS_DIR)
}

// ---------------------------------------------------------------------------
// The Cache-Control header
// ---------------------------------------------------------------------------

/// What a `Cache-Control` header says, as far as this cache heeds it.
#[derive(Debug, Clone, Copy, PartialEq, Eq, Structural)]
pub struct CacheControl {
    pub no_store: bool,
    pub no_cache: bool,
    pub max_age: Option<u64>,
}

/// Whether one of the directives is `name`, without regard to case.
pub open spec fn has_directive(directives: Seq<Seq<char>>, name: Seq<char>) -> bool {
    exists|i: int| 0 <= i < directives.len() && lower(trim(#[trigger] directives[i])) == name
}

/// The age that a directive sets: `max-age=` in small letters and a number of
/// seconds.
pub open spec fn age_set(directive: Seq<char>) -> Option<u64> {
    if "max-age="@.is_prefix_of(directive) {
        u64_number(directive.skip(8))
    } else {
        None
    }
}

/// The age that the last directive to set one sets.
pub open spec fn last_age(directives: Seq<Seq<char>>) -> Option<u64>
    decreases directives.len(),
{
    if directives.len() == 0 {
        None
    } else if age_set(trim(directives.last())) is Some {
        age_set(trim(directives.last()))
    } else {
        last_age(directives.drop_last())
    }
}

/// What the value of a `Cache-Control` header says.
pub open spec fn control_of(value: Seq<char>) -> CacheControl {
    let directives = split(value, ',');
    CacheControl {
        no_store: has_directive(directives, "no-store"@),
        no_cache: has_directive(directives, "no-cache"@),
        max_age: last_age(directives),
    }
}

proof fn a_directive_is_of_one_kind(d: Seq<char>)
    ensures
        lower("no-store"@) == "no-store"@,
        lower("no-cache"@) == "no-cache"@,
        lower(d) == "no-store"@ ==> lower(d) != "no-cache"@ && age_set(d) is None,
        lower(d) == "no-cache"@ ==> age_set(d) is None,
        "max-age="@.len() == 8,
{
    reveal_strlit("no-store");
    reveal_strlit("no-cache");
    reveal_strlit("max-age=");
    assert(lower("no-store"@) =~= "no-store"@);
    assert(lower("no-cache"@) =~= "no-cache"@);
    assert("no-store"@[3] == 's');
    assert("no-cache"@[3] == 'c');
    if "max-age="@.is_prefix_of(d) {
        assert(d[0] == "max-age="@[0]);
        assert(lower(d)[0] == 'm');
        assert("no-store"@[0] == 'n');
        assert("no-cache"@[0] == 'n');
    }
}

/// Reads the value of a `Cache-Control` header. What it does not know it passes
/// over.
pub fn parse_cache_control(value: &str) -> (r: CacheControl)
    ensures
        r == control_of(value@),
{
    cache_control_of(&chars_of(value))
}

/// Reads the value of a `Cache-Control` header.
pub fn cache_control_of(value: &Vec<char>) -> (r: CacheControl)
    ensures
        r == control_of(value@),
{
    let directives = split_chars(value, ',');
    let ghost all = split(value@, ',');
    let mut control = CacheControl { no_store: false, no_cache: false, max_age: None };
    let mut i: usize = 0;
    while i < directives.len()
        invariant
            i <= directives.len(),
            texts(directives@) == all,
            control.no_store == has_directive(all.take(i as int), "no-store"@),
            control.no_cache == has_directive(all.take(i as int), "no-cache"@),
            control.max_age == last_age(all.take(i as int)),
        decreases directives.len() - i,
    {
        let directive = trim_chars(&directives[i]);
        let ghost before = all.take(i as int);
        let ghost now = all.take(i + 1);
        proof {
            assert(all[i as int] == directives@[i as int]@);
            a_directive_is_of_one_kind(directive@);
            assert(now.drop_last() =~= before);
            assert(now.last() == all[i as int]);
            a_longer_list(before, now, "no-store"@);
            a_longer_list(before, now, "no-cache"@);
        }
        if same_ignoring_case(&directive, "no-store") {
            control.no_store = true;
        } else if same_ignoring_case(&directive, "no-cache") {
            control.no_cache = true;
        } else if starts_with(&directive, "max-age=") {
            let rest = sub_chars(&directive, 8, directive.len());
            assert(rest@ =~= directive@.skip(8));
            if let Some(age) = parse_u64(&rest) {
                control.max_age = Some(age);
            }
        }
        i += 1;
    }
    assert(all.take(i as int) =~= all);
    control
}

proof fn a_longer_list(before: Seq<Seq<char>>, now: Seq<Seq<char>>, name: Seq<char>)
    requires
        now.len() > 0,
        now.drop_last() == before,
    ensures
        has_directive(now, name) <==> has_directive(before, name) || lower(trim(now.last()))
            == name,
{
    if has_directive(before, name) {
        let i = choose|i: int|
            0 <= i < before.len() && lower(trim(#[trigger] before[i])) == name;
        assert(now[i] == before[i]);
    }
    if has_directive(now, name) && lower(trim(now.last())) != name {
        let i = choose|i: int| 0 <= i < now.len() && lower(trim(#[trigger] now[i])) == name;
        assert(before[i] == now[i]);
    }
    if lower(trim(now.last())) == name {
        assert(now[now.len() - 1] == now.last());
    }
}

} // verus!
