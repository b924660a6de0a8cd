//! Answering from the cache, where the body of a response is kept, and which
//! responses are being written.

use crate::cache::{
    cache_objects_dir, pairs, path_in, path_join, CacheEntry, EntryView, OBJECTS_DIR,
};
use crate::errors::ProxyError;
use crate::header_map::{
    header_contents, header_first, header_insert, header_map_new, header_name_accepted,
    header_value_accepted, is_header_name, is_header_value, HeaderContents, ROOM_FOR_NAMES,
};
use crate::headers::{known_names_are_names, passed_on, strip_hop_by_hop};
use crate::text::{decimal, decimal_text, is_digit, joined, lower, same};
use hyper::HeaderMap;
use sha2::{Digest, Sha256};
use uuid::Uuid;
use vstd::prelude::*;
use vstd::utf8::encode_utf8;

verus! {

// ---------------------------------------------------------------------------
// Answering from the cache
// ---------------------------------------------------------------------------

/// The body of an answer from the cache.
#[derive(Debug, Clone)]
pub enum CachedBody {
    /// No body.
    Empty,
    /// What the file holds.
    File(String),
}

/// An answer from the cache.
#[derive(Debug)]
pub struct CachedReply {
    pub status: u16,
    pub headers: HeaderMap,
    pub body: CachedBody,
}

/// The headers that a list sets one after the other, each in place of one with
/// the same name. What is no header is passed over.
pub open spec fn headers_set(list: Seq<(Seq<char>, Seq<char>)>) -> HeaderContents
    decreases list.len(),
{
    if list.len() == 0 {
        HeaderContents::empty()
    } else {
        let before = headers_set(list.drop_last());
        let (name, value) = list.last();
        if is_header_name(name) && is_header_value(value) {
            before.insert(lower(name), seq![encode_utf8(value)])
        } else {
            before
        }
    }
}

/// The headers of an answer from the cache: those that were stored, and the
/// length of the body. The answer to HEAD has no body to measure, so the length
/// that was stored stands.
pub open spec fn cached_headers(method: Seq<char>, entry: EntryView) -> HeaderContents {
    let stored = passed_on(headers_set(entry.headers));
    if method == "HEAD"@ && stored.contains_key("content-length"@) {
        stored
    } else {
        stored.insert("content-length"@, seq![encode_utf8(decimal(entry.body_size as nat))])
    }
}

/// The status of an answer from the cache; 200 where what was stored is none.
pub open spec fn cached_status(status: u16) -> u16 {
    if 100 <= status < 1000 {
        status
    } else {
        200
    }
}

proof fn finitely_many_headers_are_set(list: Seq<(Seq<char>, Seq<char>)>)
    ensures
        headers_set(list).dom().finite(),
    decreases list.len(),
{
    if list.len() > 0 {
        finitely_many_headers_are_set(list.drop_last());
    }
}

proof fn what_is_set_stays_set(list: Seq<(Seq<char>, Seq<char>)>, k: int)
    requires
        0 <= k <= list.len(),
    ensures
        headers_set(list.take(k)).dom().subset_of(headers_set(list).dom()),
        headers_set(list.take(k)).len() <= headers_set(list).len(),
    decreases list.len(),
{
    if k < list.len() {
        what_is_set_stays_set(list.drop_last(), k);
        assert(list.drop_last().take(k) =~= list.take(k));
    } else {
        assert(list.take(k) =~= list);
    }
    finitely_many_headers_are_set(list);
    vstd::set_lib::lemma_len_subset(headers_set(list.take(k)).dom(), headers_set(list).dom());
}

proof fn fewer_headers_are_passed_on(c: HeaderContents)
    requires
        c.dom().finite(),
    ensures
        passed_on(c).dom().finite(),
        passed_on(c).len() <= c.len(),
{
    assert(passed_on(c).dom().subset_of(c.dom()));
    vstd::set_lib::lemma_len_subset(passed_on(c).dom(), c.dom());
}

/// A collection with the headers that the list sets, if they fit into one.
fn collect_headers(list: &Vec<(String, String)>) -> (r: Option<HeaderMap>)
    ensures
        r matches Some(m) ==> header_contents(m) == headers_set(pairs(list@)),
        r is None ==> headers_set(pairs(list@)).len() >= ROOM_FOR_NAMES,
{
    let mut headers = header_map_new();
    let ghost all = pairs(list@);
    let mut i: usize = 0;
    assert(all.take(0) =~= Seq::empty());
    while i < list.len()
        invariant
            i <= list.len(),
            all == pairs(list@),
            header_contents(headers) == headers_set(all.take(i as int)),
        decreases list.len() - i,
    {
        assert(all.take(i + 1).drop_last() =~= all.take(i as int));
        assert(all.take(i + 1).last() == (list@[i as int].0@, list@[i as int].1@));
        let name = list[i].0.as_str();
        let value = list[i].1.as_str();
        if header_name_accepted(name) && header_value_accepted(value) {
            proof {
                what_is_set_stays_set(all, i as int);
            }
            if !header_insert(&mut headers, name, value) {
                return None;
            }
        }
        i += 1;
    }
    assert(all.take(i as int) =~= all);
    Some(headers)
}

proof fn decimal_is_a_header_value(n: nat)
    ensures
        is_header_value(decimal(n)),
{
    crate::text::decimal_digits(n);
    assert forall|i: int| 0 <= i < decimal(n).len() implies ((#[trigger] decimal(n)[i]) >= ' '
        && decimal(n)[i] != '\u{7f}') || decimal(n)[i] == '\t' by {
        assert(is_digit(decimal(n)[i]));
    }
}

/// The answer to a request that the cache holds an entry for: the status and
/// the headers that were stored, and the stored body, which the answer to HEAD
/// does not have. An entry without a body answers HEAD only. An entry whose headers
/// have more names than a collection is sure to hold may not be answered with at
/// all.
pub fn cached_response(method: &str, entry: &CacheEntry) -> (r: Result<CachedReply, ProxyError>)
    ensures
        match r {
            Ok(reply) => {
                &&& reply.status == cached_status(entry.status)
                &&& header_contents(reply.headers) == cached_headers(method@, entry@)
                &&& if method@ == "HEAD"@ {
                    reply.body is Empty
                } else {
                    entry.body_path matches Some(path) && reply.body matches CachedBody::File(file)
                        && file@ == path@
                }
            },
            Err(e) => {
                &&& e is Internal
                &&& (method@ != "HEAD"@ && entry.body_path is None) || headers_set(
                    entry@.headers,
                ).len() >= ROOM_FOR_NAMES
            },
        },
{
    let mut headers = match collect_headers(&entry.headers) {
        Some(headers) => headers,
        None => {
            return Err(ProxyError::Internal);
        },
    };
    strip_hop_by_hop(&mut headers);
    let is_head = same(method, "HEAD");
    proof {
        known_names_are_names();
        decimal_is_a_header_value(entry.body_size as nat);
        finitely_many_headers_are_set(pairs(entry.headers@));
        fewer_headers_are_passed_on(headers_set(pairs(entry.headers@)));
    }
    if !(is_head && header_first(&headers, "content-length").is_some()) {
        if !header_insert(
            &mut headers,
            "content-length",
            decimal_text(entry.body_size).as_str(),
        ) {
            return Err(ProxyError::Internal);
        }
    }
    let status = if 100 <= entry.status && entry.status < 1000 {
        entry.status
    } else {
        200
    };
    let body = if is_head {
        CachedBody::Empty
    } else {
        match &entry.body_path {
            Some(path) => CachedBody::File(path.clone()),
            None => {
                return Err(ProxyError::Internal);
            },
        }
    };
    Ok(CachedReply { status, headers, body })
}

// ---------------------------------------------------------------------------
// Where bodies are kept
// ---------------------------------------------------------------------------

/// The SHA-256 digest of the bytes.
pub uninterp spec fn sha256_of(bytes: Seq<u8>) -> Seq<u8>;

/// `Sha256::digest`: 32 bytes.
#[verifier::external_body]
fn sha256(bytes: &[u8]) -> (r: Vec<u8>)
    ensures
        r@ == sha256_of(bytes@),
        r@.len() == 32,
{
    Sha256::digest(bytes).to_vec()
}

/// The digit for a number below sixteen, letters in small.
pub open spec fn hex_digit(n: int) -> char {
    if n < 10 {
        (('0' as u8 + n) as u8) as char
    } else {
        (('a' as u8 + n - 10) as u8) as char
    }
}

/// Two hexadecimal digits for each byte, the higher first.
pub open spec fn hex_text(bytes: Seq<u8>) -> Seq<char> {
    Seq::new(
        2 * bytes.len(),
        |i: int|
            if i % 2 == 0 {
                hex_digit(bytes[i / 2] as int / 16)
            } else {
                hex_digit(bytes[i / 2] as int % 16)
            },
    )
}

/// `hex::encode`: two small hexadecimal digits for each byte.
#[verifier::external_body]
fn hex_encode(bytes: &Vec<u8>) -> (r: String)
    ensures
        r@ == hex_text(bytes@),
{
    hex::encode(bytes)
}

/// The name under which the body for a key is kept: the digest of the key in
/// hexadecimal.
pub open spec fn object_name(key: Seq<char>) -> Seq<char> {
    hex_text(sha256_of(encode_utf8(key)))
}

/// The name under which the body for a key is kept: 64 hexadecimal digits.
pub fn hash_key(key: &str) -> (r: String)
    ensures
        r@ == object_name(key@),
        r@.len() == 64,
        forall|i: int| 0 <= i < r@.len() ==> is_hex_digit(#[trigger] r@[i]),
{
    let digest = sha256(key.as_bytes());
    let name = hex_encode(&digest);
    assert forall|i: int| 0 <= i < name@.len() implies is_hex_digit(#[trigger] name@[i]) by {
        let b = digest@[i / 2] as int;
        assert(0 <= b / 16 < 16);
        assert(0 <= b % 16 < 16);
    }
    name
}

/// Whether `c` is a small hexadecimal digit.
pub open spec fn is_hex_digit(c: char) -> bool {
    ('0' <= c && c <= '9') || ('a' <= c && c <= 'f')
}

/// Where a body is written to, and where it is kept once it is whole.
#[derive(Debug, Clone)]
pub struct ObjectPaths {
    pub final_path: String,
    pub temp_path: String,
}

/// Where the body with the name is kept.
pub open spec fn final_place(cache_dir: Seq<char>, name: Seq<char>) -> Seq<char> {
    path_in(path_in(cache_dir, OBJECTS_DIR@), name)
}

/// Where the body with the name is written to; the token tells writers apart.
pub open spec fn temp_place(cache_dir: Seq<char>, name: Seq<char>, token: Seq<char>) -> Seq<char> {
    path_in(path_in(cache_dir, OBJECTS_DIR@), name + ".tmp-"@ + token)
}

/// Where the body with the name is written to and kept.
pub fn paths_for(cache_dir: &str, name: &str, token: &str) -> (r: ObjectPaths)
    ensures
        r.final_path@ == final_place(cache_dir@, name@),
        r.temp_path@ == temp_place(cache_dir@, name@, token@),
{
    let dir = cache_objects_dir(cache_dir);
    let mut temp = joined(name, ".tmp-");
    temp.append(token);
    ObjectPaths {
        final_path: path_join(dir.as_str(), name),
        temp_path: path_join(dir.as_str(), temp.as_str()),
    }
}

/// `Uuid::new_v4` as text. Nothing is claimed of it: it is random.
#[verifier::external_body]
fn random_token() -> (r: String) {
    Uuid::new_v4().to_string()
}

/// Where the body for a key is written to and kept, with a token of its own.
pub fn object_paths(cache_dir: &str, key: &str) -> (r: ObjectPaths)
    ensures
        r.final_path@ == final_place(cache_dir@, object_name(key@)),
        exists|token: Seq<char>|
            r.temp_path@ == #[trigger] temp_place(cache_dir@, object_name(key@), token),
{
    let name = hash_key(key);
    let token = random_token();
    let paths = paths_for(cache_dir, name.as_str(), token.as_str());
    assert(paths.temp_path@ == temp_place(cache_dir@, object_name(key@), token@));
    paths
}

/// What is being written and what is kept are never the same file, whatever the
/// token, and the paths of both begin with the directory of the bodies.
pub proof fn a_body_is_kept_apart_from_its_parts(
    cache_dir: Seq<char>,
    name: Seq<char>,
    token: Seq<char>,
)
    requires
        name.len() > 0,
        name[0] != '/',
    ensures
        final_place(cache_dir, name) != temp_place(cache_dir, name, token),
        path_in(cache_dir, OBJECTS_DIR@).is_prefix_of(final_place(cache_dir, name)),
        path_in(cache_dir, OBJECTS_DIR@).is_prefix_of(temp_place(cache_dir, name, token)),
{
    reveal_strlit("/");
    reveal_strlit(".tmp-");
    let dir = path_in(cache_dir, OBJECTS_DIR@);
    let temp = name + ".tmp-"@ + token;
    assert(temp[0] == name[0]);
    assert(!"/"@.is_prefix_of(name)) by {
        assert("/"@[0] == '/');
    }
    assert(!"/"@.is_prefix_of(temp)) by {
        assert("/"@[0] == '/');
    }
    assert(final_place(cache_dir, name).len() < temp_place(cache_dir, name, token).len());
    assert(final_place(cache_dir, name).take(dir.len() as int) =~= dir);
    assert(temp_place(cache_dir, name, token).take(dir.len() as int) =~= dir);
}

// ---------------------------------------------------------------------------
// One writer for each key
// ---------------------------------------------------------------------------

/// The keys whose responses are being written.
pub struct CacheWriteLocks {
    keys: Vec<String>,
}

/// The right to write the response for a key, which nobody else has meanwhile.
pub struct CacheWritePermit {
    key: String,
}

/// Whether the right to write the response for a key is given to one who asks.
pub open spec fn is_given(held: Set<Seq<char>>, key: Seq<char>) -> bool {
    !held.contains(key)
}

/// The keys that are held after someone asked for the right to write the response for one.
pub open spec fn held_after_asking(held: Set<Seq<char>>, key: Seq<char>) -> Set<Seq<char>> {
    if is_given(held, key) {
        held.insert(key)
    } else {
        held
    }
}

/// The keys that are held after the right for one was given up.
pub open spec fn held_after_release(held: Set<Seq<char>>, key: Seq<char>) -> Set<Seq<char>> {
    held.remove(key)
}

/// What the texts say.
spec fn said(keys: Seq<String>) -> Set<Seq<char>> {
    keys.map_values(|key: String| key@).to_set()
}

impl View for CacheWriteLocks {
    type V = Set<Seq<char>>;

    closed spec fn view(&self) -> Set<Seq<char>> {
        said(self.keys@)
    }
}

impl View for CacheWritePermit {
    type V = Seq<char>;

    closed spec fn view(&self) -> Seq<char> {
        self.key@
    }
}

proof fn each_is_said(keys: Seq<String>, i: int)
    requires
        0 <= i < keys.len(),
    ensures
        said(keys).contains(keys[i]@),
{
    assert(keys.map_values(|key: String| key@)[i] == keys[i]@);
}

proof fn what_is_said_when_one_comes(keys: Seq<String>, key: String)
    ensures
        said(keys.push(key)) == said(keys).insert(key@),
{
    assert forall|k: Seq<char>| #[trigger]
        said(keys.push(key)).contains(k) == said(keys).insert(key@).contains(k) by {
        if said(keys).contains(k) {
            let i = keys.map_values(|key: String| key@).index_of(k);
            assert(keys.push(key)[i]@ == k);
            each_is_said(keys.push(key), i);
        }
        each_is_said(keys.push(key), keys.len() as int);
        if said(keys.push(key)).contains(k) {
            let i = keys.push(key).map_values(|key: String| key@).index_of(k);
            if i < keys.len() {
                each_is_said(keys, i);
            }
        }
    }
    assert(said(keys.push(key)) =~= said(keys).insert(key@));
}

proof fn what_is_left_when_one_goes(keys: Seq<String>, at: int)
    requires
        0 <= at < keys.len(),
        forall|i: int, j: int|
            0 <= i < j < keys.len() ==> (#[trigger] keys[i])@ != (#[trigger] keys[j])@,
    ensures
        said(keys.remove(at)) == said(keys).remove(keys[at]@),
{
    let left = keys.remove(at);
    assert forall|k: Seq<char>| #[trigger]
        said(left).contains(k) == said(keys).remove(keys[at]@).contains(k) by {
        if said(left).contains(k) {
            let i = left.map_values(|key: String| key@).index_of(k);
            let j = if i < at {
                i
            } else {
                i + 1
            };
            assert(keys[j] == left[i]);
            each_is_said(keys, j);
        }
        if said(keys).contains(k) && k != keys[at]@ {
            let j = keys.map_values(|key: String| key@).index_of(k);
            let i = if j < at {
                j
            } else {
                j - 1
            };
            assert(left[i] == keys[j]);
            each_is_said(left, i);
        }
    }
    assert(said(left) =~= said(keys).remove(keys[at]@));
}

impl CacheWriteLocks {
    /// Each key is held once.
    #[verifier::type_invariant]
    spec fn distinct(self) -> bool {
        forall|i: int, j: int|
            0 <= i < j < self.keys@.len() ==> (#[trigger] self.keys@[i])@ != (
            #[trigger] self.keys@[j])@
    }

    /// Nothing is being written.
    pub fn new() -> (r: Self)
        ensures
            r@ == Set::<Seq<char>>::empty(),
    {
        let r = CacheWriteLocks { keys: Vec::new() };
        assert(r@ =~= Set::<Seq<char>>::empty());
        r
    }

    fn position(&self, key: &str) -> (r: Option<usize>)
        ensures
            match r {
                Some(i) => i < self.keys@.len() && self.keys@[i as int]@ == key@,
                None => !self@.contains(key@),
            },
    {
        let mut i: usize = 0;
        while i < self.keys.len()
            invariant
                i <= self.keys@.len(),
                forall|j: int| 0 <= j < i ==> (#[trigger] self.keys@[j])@ != key@,
            decreases self.keys.len() - i,
        {
            if same(self.keys[i].as_str(), key) {
                return Some(i);
            }
            i += 1;
        }
        None
    }

    /// Gives up the right to write the response for a key.
    pub fn release(&mut self, permit: CacheWritePermit)
        ensures
            final(self)@ == held_after_release(old(self)@, permit@),
            final(self)@ == old(self)@.remove(permit@),
    {
        proof {
            use_type_invariant(&*self);
        }
        let ghost before = self.keys@;
        match self.position(permit.key.as_str()) {
            Some(at) => {
                let mut keys: Vec<String> = Vec::new();
                std::mem::swap(&mut keys, &mut self.keys);
                keys.remove(at);
                proof {
                    what_is_left_when_one_goes(before, at as int);
                }
                self.keys = keys;
            },
            None => {},
        }
        assert(self@ =~= old(self)@.remove(permit@));
    }
}

impl CacheWritePermit {
    /// The key that the permit is for.
    pub fn key(&self) -> (r: &str)
        ensures
            r@ == self@,
    {
        self.key.as_str()
    }
}

/// Asks for the right to write the response for a key. It is given unless
/// someone has it.
pub fn try_acquire_cache_write(
    locks: &mut CacheWriteLocks,
    key: &str,
) -> (r: Option<CacheWritePermit>)
    ensures
        r is Some <==> is_given(old(locks)@, key@),
        final(locks)@ == held_after_asking(old(locks)@, key@),
        old(locks)@.contains(key@) ==> r is None && final(locks)@ == old(locks)@,
        !old(locks)@.contains(key@) ==> {
            &&& final(locks)@ == old(locks)@.insert(key@)
            &&& r matches Some(permit) && permit@ == key@
        },
{
    proof {
        use_type_invariant(&*locks);
    }
    match locks.position(key) {
        Some(at) => {
            proof {
                each_is_said(locks.keys@, at as int);
            }
            None
        },
        None => {
            let ghost before = locks.keys@;
            let mut keys: Vec<String> = Vec::new();
            std::mem::swap(&mut keys, &mut locks.keys);
            keys.push(String::from_str(key));
            proof {
                what_is_said_when_one_comes(before, keys@.last());
                assert forall|i: int| 0 <= i < before.len() implies (#[trigger] before[i])@
                    != key@ by {
                    each_is_said(before, i);
                }
            }
            locks.keys = keys;
            assert(locks@ =~= old(locks)@.insert(key@));
            Some(CacheWritePermit { key: String::from_str(key) })
        },
    }
}

/// The right to write a response can be had again once it was given up, and
/// giving it up touches no other.
pub proof fn a_right_given_up_can_be_had_again(
    held: Set<Seq<char>>,
    key: Seq<char>,
    other: Seq<char>,
)
    ensures
        held.insert(key).contains(key),
        !held.insert(key).remove(key).contains(key),
        other != key ==> (held.insert(key).remove(key).contains(other) <==> held.contains(other)),
{
}

/// The right to write a response is given exactly if nobody has it; who has it keeps others
/// from having it until it is given up; and neither asking nor giving up touches the right
/// for another key.
pub proof fn who_may_write(held: Set<Seq<char>>, key: Seq<char>, other: Seq<char>)
    ensures
        is_given(held, key) <==> !held.contains(key),
        !is_given(held_after_asking(held, key), key),
        is_given(held_after_release(held, key), key),
        other != key ==> {
            &&& held_after_asking(held, key).contains(other) <==> held.contains(other)
            &&& held_after_release(held, key).contains(other) <==> held.contains(other)
        },
        is_given(held, key) ==> held_after_release(held_after_asking(held, key), key) == held,
{
    if is_given(held, key) {
        assert(held.insert(key).remove(key) =~= held);
    }
}

} // verus!
