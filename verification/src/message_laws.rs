//! What headers, dates and cache directives come to, in terms of what is written in
//! them.

use crate::cache::{control_of, has_directive, key_of, last_age, pairs, path_in};
use crate::header_map::{is_header_name, values_under, HeaderContents};
use crate::headers::{first_text, is_listed, is_visible, passed_on, value_text};
use crate::http_proxy::headers::{
    content_length, control_in, expires_in, expiry, http_date_seconds, is_storage_of, text_values,
    texts_named,
};
use crate::numbers::{bounded_sum, lesser, signed, unsigned};
use crate::text::{lower, split, string_texts, texts, trim, u64_number};
use crate::text_laws::{a_separator_parts_a_text, a_text_without_separator_is_one_piece};
use vstd::prelude::*;

verus! {

// ---------------------------------------------------------------------------
// Integers
// ---------------------------------------------------------------------------

/// The 64 bits of an integer stand for the same number read as signed or unsigned where
/// both can hold it, and for numbers that are 2 to the 64 apart where not.
pub proof fn how_64_bits_are_read(n: u64, m: i64)
    ensures
        n < 0x8000_0000_0000_0000 ==> signed(n) == n,
        n >= 0x8000_0000_0000_0000 ==> signed(n) == n - 0x1_0000_0000_0000_0000,
        m >= 0 ==> unsigned(m) == m,
        m < 0 ==> unsigned(m) == m + 0x1_0000_0000_0000_0000,
{
}

/// A sum is exact where it can be held, and the nearest number that can be held where
/// not; and of two integers the lesser is one of them and not above either.
pub proof fn sums_and_the_lesser_of_two(a: i64, b: i64)
    ensures
        i64::MIN <= a + b <= i64::MAX ==> bounded_sum(a, b) == a + b,
        a + b > i64::MAX ==> bounded_sum(a, b) == i64::MAX,
        a + b < i64::MIN ==> bounded_sum(a, b) == i64::MIN,
        lesser(a, b) <= a,
        lesser(a, b) <= b,
        lesser(a, b) == a || lesser(a, b) == b,
{
}

// ---------------------------------------------------------------------------
// Keys and paths
// ---------------------------------------------------------------------------

/// A key is the whole method, one space and the whole URL.
pub proof fn what_a_key_is_made_of(method: Seq<char>, url: Seq<char>)
    ensures
        key_of(method, url) == method.push(' ') + url,
{
    reveal_strlit(" ");
    assert(key_of(method, url) =~= method.push(' ') + url);
}

/// A name in a directory is the directory and the name with one slash between them; an
/// absolute name is itself.
pub proof fn where_a_name_is(dir: Seq<char>, name: Seq<char>)
    ensures
        name.len() > 0 && name[0] == '/' ==> path_in(dir, name) == name,
        !(name.len() > 0 && name[0] == '/') && dir.len() == 0 ==> path_in(dir, name) == name,
        !(name.len() > 0 && name[0] == '/') && dir.len() > 0 && dir[dir.len() - 1] == '/'
            ==> path_in(dir, name) == dir + name,
        !(name.len() > 0 && name[0] == '/') && dir.len() > 0 && dir[dir.len() - 1] != '/'
            ==> path_in(dir, name) == dir.push('/') + name,
{
    reveal_strlit("/");
    let slash = "/"@;
    if name.len() > 0 && name[0] == '/' {
        assert(name.take(1) =~= slash);
    }
    if dir.len() > 0 && dir[dir.len() - 1] == '/' {
        assert(dir.skip(dir.len() - 1) =~= slash);
    }
    assert(dir + slash + name =~= dir.push('/') + name);
    assert(dir.len() == 0 ==> dir + name =~= name);
    assert(slash[0] == '/');
    assert(slash.is_prefix_of(name) ==> name[0] == slash[0]);
    assert(slash.is_suffix_of(dir) ==> dir[dir.len() - 1] == slash[0]);
}

// ---------------------------------------------------------------------------
// Cache-Control
// ---------------------------------------------------------------------------

proof fn a_directive_is_in_one_of_two_lists(
    a: Seq<Seq<char>>,
    b: Seq<Seq<char>>,
    name: Seq<char>,
)
    ensures
        has_directive(a + b, name) <==> has_directive(a, name) || has_directive(b, name),
{
    let all = a + b;
    if has_directive(a, name) {
        let i = choose|i: int| 0 <= i < a.len() && lower(trim(#[trigger] a[i])) == name;
        assert(all[i] == a[i]);
    }
    if has_directive(b, name) {
        let i = choose|i: int| 0 <= i < b.len() && lower(trim(#[trigger] b[i])) == name;
        assert(all[a.len() + i] == b[i]);
    }
    if has_directive(all, name) {
        let i = choose|i: int| 0 <= i < all.len() && lower(trim(#[trigger] all[i])) == name;
        if i < a.len() {
            assert(a[i] == all[i]);
        } else {
            assert(b[i - a.len()] == all[i]);
        }
    }
}

proof fn the_last_age_of_two_lists(a: Seq<Seq<char>>, b: Seq<Seq<char>>)
    ensures
        last_age(b) is Some ==> last_age(a + b) == last_age(b),
        last_age(b) is None ==> last_age(a + b) == last_age(a),
    decreases b.len(),
{
    if b.len() == 0 {
        assert(a + b =~= a);
    } else {
        the_last_age_of_two_lists(a, b.drop_last());
        assert((a + b).drop_last() =~= a + b.drop_last());
        assert((a + b).last() == b.last());
    }
}

/// The place of a directive in the list makes no difference: what is forbidden in either
/// part of a value is forbidden. Of two ages the later one counts.
pub proof fn directives_add_up(a: Seq<char>, b: Seq<char>)
    ensures
        ({
            let whole = control_of(a + ","@ + b);
            &&& whole.no_store <==> control_of(a).no_store || control_of(b).no_store
            &&& whole.no_cache <==> control_of(a).no_cache || control_of(b).no_cache
            &&& control_of(b).max_age is Some ==> whole.max_age == control_of(b).max_age
            &&& control_of(b).max_age is None ==> whole.max_age == control_of(a).max_age
        }),
{
    reveal_strlit(",");
    assert(a + ","@ + b =~= a.push(',') + b);
    a_separator_parts_a_text(a, b, ',');
    let x = split(a, ',');
    let y = split(b, ',');
    a_directive_is_in_one_of_two_lists(x, y, "no-store"@);
    a_directive_is_in_one_of_two_lists(x, y, "no-cache"@);
    the_last_age_of_two_lists(x, y);
}

/// What one directive says, with white space around it: `no-store` and `no-cache` in
/// letters of either size forbid, `max-age=` and a number set an age, and nothing else
/// says anything.
pub proof fn what_one_directive_says(value: Seq<char>)
    requires
        !value.contains(','),
    ensures
        control_of(value).no_store <==> lower(trim(value)) == "no-store"@,
        control_of(value).no_cache <==> lower(trim(value)) == "no-cache"@,
        forall|age: Seq<char>|
            trim(value) == #[trigger] ("max-age="@ + age) ==> control_of(value).max_age
                == u64_number(age),
        control_of(value).max_age is Some ==> exists|age: Seq<char>|
            trim(value) == #[trigger] ("max-age="@ + age),
{
    a_text_without_separator_is_one_piece(value, ',');
    let one = seq![value];
    assert(split(value, ',') == one);
    assert(one[0] == value);
    assert(one.drop_last() =~= Seq::<Seq<char>>::empty());
    assert(last_age(one.drop_last()) is None);
    assert(one.last() == value);
    reveal_strlit("max-age=");
    let bare = trim(value);
    assert forall|age: Seq<char>| bare == #[trigger] ("max-age="@ + age) implies control_of(
        value,
    ).max_age == u64_number(age) by {
        assert(bare.take(8) =~= "max-age="@);
        assert("max-age="@.is_prefix_of(bare));
        assert(bare.skip(8) =~= age);
    }
    if control_of(value).max_age is Some {
        assert("max-age="@.is_prefix_of(bare));
        assert(bare =~= "max-age="@ + bare.skip(8));
    }
}

// ---------------------------------------------------------------------------
// Header values
// ---------------------------------------------------------------------------

/// A value is text exactly if each of its bytes is a tab, a space or a visible ASCII
/// character, and the text has these characters in their order.
pub proof fn which_values_are_text(v: Seq<u8>)
    ensures
        value_text(v) is Some <==> forall|i: int|
            0 <= i < v.len() ==> (32 <= #[trigger] v[i] <= 126 || v[i] == 9),
        value_text(v) matches Some(t) ==> t.len() == v.len() && forall|i: int|
            0 <= i < v.len() ==> (#[trigger] t[i]) as int == v[i] as int,
{
    if value_text(v) is Some {
        assert forall|i: int| 0 <= i < v.len() implies (32 <= #[trigger] v[i] <= 126 || v[i]
            == 9) by {
            assert(is_visible(v[i]));
        }
    } else {
        let i = choose|i: int| 0 <= i < v.len() && !is_visible(#[trigger] v[i]);
        assert(!(32 <= v[i] <= 126 || v[i] == 9));
    }
}

/// The first value of a header is the one that counts: the length, the directives and
/// the date are read from it if it is text, and from nothing otherwise.
pub proof fn the_first_value_counts(c: HeaderContents, name: Seq<char>)
    ensures
        !c.contains_key(name) ==> first_text(c, name) is None,
        c.contains_key(name) ==> first_text(c, name) == value_text(c[name][0]),
        first_text(c, "content-length"@) matches Some(t) ==> content_length(c) == u64_number(t),
        first_text(c, "content-length"@) is None ==> content_length(c) is None,
        first_text(c, "cache-control"@) matches Some(t) ==> control_in(c) == Some(control_of(t)),
        first_text(c, "cache-control"@) is None ==> control_in(c) is None,
        first_text(c, "expires"@) matches Some(t) ==> expires_in(c) == http_date_seconds(t),
        first_text(c, "expires"@) is None ==> expires_in(c) is None,
{
}

/// When a response expires: never, if its directives forbid it to be kept; else at the
/// earliest of the time to live, its age and its date, of those that it has.
pub proof fn when_a_response_expires(c: HeaderContents, ttl_seconds: u64, now: i64)
    ensures
        ({
            let at = expiry(c, ttl_seconds, now);
            let by_ttl = bounded_sum(now, signed(ttl_seconds));
            let forbidden = control_in(c) matches Some(d) && (d.no_store || d.no_cache);
            let age = match control_in(c) {
                Some(d) => d.max_age,
                None => None,
            };
            &&& at is None <==> forbidden
            &&& at matches Some(t) ==> {
                &&& t <= by_ttl
                &&& age matches Some(a) ==> t <= bounded_sum(now, signed(a))
                &&& expires_in(c) matches Some(d) ==> t <= signed(d)
                &&& {
                    ||| t == by_ttl
                    ||| age matches Some(a) && t == bounded_sum(now, signed(a))
                    ||| expires_in(c) matches Some(d) && t == signed(d)
                }
            }
        }),
{
}

// ---------------------------------------------------------------------------
// Headers that are passed on
// ---------------------------------------------------------------------------

/// What is passed on of a message: each header as it is, except the eight that are for
/// one connection or this proxy only, and those that the message's own `Connection`
/// header lists.
pub proof fn what_is_passed_on(c: HeaderContents, name: Seq<char>)
    ensures
        passed_on(c).contains_key(name) <==> {
            &&& c.contains_key(name)
            &&& name != "connection"@
            &&& name != "proxy-connection"@
            &&& name != "keep-alive"@
            &&& name != "te"@
            &&& name != "trailer"@
            &&& name != "transfer-encoding"@
            &&& name != "upgrade"@
            &&& name != "proxy-authorization"@
            &&& !(first_text(c, "connection"@) matches Some(value) && is_listed(value, name))
        },
        passed_on(c).contains_key(name) ==> passed_on(c)[name] == c[name],
{
}

/// A name is listed in a list exactly if it is in one of its parts, wherever that stands,
/// and a list without a comma lists its text, in letters of either size and with white
/// space around it, if that is a header name.
pub proof fn what_a_list_lists(a: Seq<char>, b: Seq<char>, name: Seq<char>)
    ensures
        is_listed(a + ","@ + b, name) <==> is_listed(a, name) || is_listed(b, name),
        !a.contains(',') ==> (is_listed(a, name) <==> is_header_name(name) && lower(trim(a))
            == name),
{
    reveal_strlit(",");
    assert(a + ","@ + b =~= a.push(',') + b);
    a_separator_parts_a_text(a, b, ',');
    let x = split(a, ',');
    let y = split(b, ',');
    a_directive_is_in_one_of_two_lists(x, y, name);
    assert(is_listed(a, name) <==> is_header_name(name) && has_directive(x, name));
    assert(is_listed(b, name) <==> is_header_name(name) && has_directive(y, name));
    let whole = split(a + ","@ + b, ',');
    assert(is_listed(a + ","@ + b, name) <==> is_header_name(name) && has_directive(whole, name));
    if !a.contains(',') {
        a_text_without_separator_is_one_piece(a, ',');
        assert(x == seq![a]);
        assert(x[0] == a);
    }
}

// ---------------------------------------------------------------------------
// Headers that are stored
// ---------------------------------------------------------------------------

/// The texts under a name are those of one part of a list and then those of the other.
pub proof fn the_texts_of_two_lists(
    a: Seq<(Seq<char>, Seq<char>)>,
    b: Seq<(Seq<char>, Seq<char>)>,
    name: Seq<char>,
    text: Seq<char>,
)
    ensures
        texts_named(a + b, name) == texts_named(a, name) + texts_named(b, name),
        texts_named(seq![(name, text)], name) == seq![text],
        forall|other: Seq<char>|
            other != name ==> #[trigger] texts_named(seq![(other, text)], name) == Seq::<
                Seq<char>,
            >::empty(),
    decreases b.len(),
{
    assert forall|n: Seq<char>| #[trigger]
        texts_named(seq![(n, text)], name) == if n == name {
            seq![text]
        } else {
            Seq::<Seq<char>>::empty()
        } by {
        let one = seq![(n, text)];
        assert(one.drop_last() =~= Seq::<(Seq<char>, Seq<char>)>::empty());
        assert(texts_named(one.drop_last(), name) =~= Seq::<Seq<char>>::empty());
        assert(Seq::<Seq<char>>::empty().push(text) =~= seq![text]);
    }
    assert(texts_named(seq![(name, text)], name) == seq![text]);
    if b.len() == 0 {
        assert(a + b =~= a);
        assert(texts_named(a, name) + texts_named(b, name) =~= texts_named(a, name));
    } else {
        the_texts_of_two_lists(a, b.drop_last(), name, text);
        assert((a + b).drop_last() =~= a + b.drop_last());
        assert(texts_named(a + b, name) =~= texts_named(a, name) + texts_named(b, name));
    }
}

/// The values that are text are those of one part of a list and then those of the other;
/// a value that is no text is passed over.
pub proof fn the_text_values_of_two_lists(a: Seq<Seq<u8>>, b: Seq<Seq<u8>>, v: Seq<u8>)
    ensures
        text_values(a + b) == text_values(a) + text_values(b),
        value_text(v) matches Some(t) ==> text_values(seq![v]) == seq![t],
        value_text(v) is None ==> text_values(seq![v]) == Seq::<Seq<char>>::empty(),
    decreases b.len(),
{
    let one = seq![v];
    assert(one.drop_last() =~= Seq::<Seq<u8>>::empty());
    assert(text_values(one.drop_last()) =~= Seq::<Seq<char>>::empty());
    if b.len() == 0 {
        assert(a + b =~= a);
        assert(text_values(a) + text_values(b) =~= text_values(a));
    } else {
        the_text_values_of_two_lists(a, b.drop_last(), v);
        assert((a + b).drop_last() =~= a + b.drop_last());
        assert(text_values(a + b) =~= text_values(a) + text_values(b));
    }
}

/// Nothing that is passed on as text is lost when headers are stored, and nothing is made
/// up: under each name the stored texts are, in their order, the values that are text.
pub proof fn what_is_stored_of_a_header(
    list: Seq<(Seq<char>, Seq<char>)>,
    c: HeaderContents,
    name: Seq<char>,
)
    requires
        is_storage_of(list, c),
    ensures
        texts_named(list, name) == text_values(values_under(passed_on(c), name)),
        !c.contains_key(name) ==> texts_named(list, name).len() == 0,
        name == "connection"@ || name == "proxy-authorization"@ || name == "transfer-encoding"@
            ==> texts_named(list, name).len() == 0,
{
    assert(text_values(Seq::<Seq<u8>>::empty()).len() == 0);
}

/// The values under a name are those that the message has, and none if it has no such
/// header.
pub proof fn which_values_are_under_a_name(c: HeaderContents, name: Seq<char>)
    ensures
        c.contains_key(name) ==> values_under(c, name) == c[name],
        !c.contains_key(name) ==> values_under(c, name).len() == 0,
{
}

// ---------------------------------------------------------------------------
// Lists of strings
// ---------------------------------------------------------------------------

/// A list of strings says what each of its strings says, in their order; and so does a list
/// of pairs.
pub proof fn what_lists_say(
    strings: Seq<String>,
    lines: Seq<Vec<char>>,
    headers: Seq<(String, String)>,
    i: int,
)
    ensures
        string_texts(strings).len() == strings.len(),
        0 <= i < strings.len() ==> string_texts(strings)[i] == strings[i]@,
        texts(lines).len() == lines.len(),
        0 <= i < lines.len() ==> texts(lines)[i] == lines[i]@,
        pairs(headers).len() == headers.len(),
        0 <= i < headers.len() ==> pairs(headers)[i] == (headers[i].0@, headers[i].1@),
{
}

} // verus!
