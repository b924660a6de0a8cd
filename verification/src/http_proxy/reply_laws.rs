//! What a reply from the cache is made of, and where its body is, in terms of what was
//! stored.

use crate::cache::{path_in, EntryView, OBJECTS_DIR};
use crate::header_map::{is_header_name, is_header_value, values_under};
use crate::headers::passed_on;
use crate::http_proxy::cache_pipeline::{
    cached_headers, final_place, headers_set, hex_text, is_hex_digit, object_name, sha256_of,
    temp_place,
};
use crate::message_laws::where_a_name_is;
use crate::text::{decimal, lower};
use vstd::prelude::*;
use vstd::utf8::encode_utf8;

verus! {

/// Whether the pair sets the header: its name is that of the header but for the size of
/// letters, and it can be a header.
pub open spec fn sets(pair: (Seq<char>, Seq<char>), name: Seq<char>) -> bool {
    is_header_name(pair.0) && is_header_value(pair.1) && lower(pair.0) == name
}

/// Whether none of the pairs from `from` on sets the header.
pub open spec fn none_sets(list: Seq<(Seq<char>, Seq<char>)>, from: int, name: Seq<char>) -> bool {
    forall|j: int| from <= j < list.len() ==> !sets(#[trigger] list[j], name)
}

/// A header that one of the pairs sets is set, to the value of the last pair that sets it;
/// and a header that none of them sets is not set.
pub proof fn the_last_pair_counts(list: Seq<(Seq<char>, Seq<char>)>, name: Seq<char>, i: int)
    ensures
        0 <= i < list.len() && sets(list[i], name) ==> headers_set(list).contains_key(name),
        0 <= i < list.len() && sets(list[i], name) && none_sets(list, i + 1, name) ==> headers_set(
            list,
        )[name] == seq![encode_utf8(list[i].1)],
        none_sets(list, 0, name) ==> !headers_set(list).contains_key(name),
    decreases list.len(),
{
    if list.len() > 0 {
        let before = list.drop_last();
        let last = list.len() - 1;
        the_last_pair_counts(before, name, i);
        assert(list.last() == list[last]);
        if none_sets(list, 0, name) {
            assert(none_sets(before, 0, name)) by {
                assert forall|j: int| 0 <= j < before.len() implies !sets(
                    #[trigger] before[j],
                    name,
                ) by {
                    assert(before[j] == list[j]);
                }
            }
            assert(!sets(list[last], name));
        }
        if 0 <= i < last && none_sets(list, i + 1, name) {
            assert(none_sets(before, i + 1, name)) by {
                assert forall|j: int| i + 1 <= j < before.len() implies !sets(
                    #[trigger] before[j],
                    name,
                ) by {
                    assert(before[j] == list[j]);
                }
            }
            assert(!sets(list[last], name));
        }
    }
}

/// Apart from the length, a reply has the stored headers that are passed on. The reply to
/// HEAD has the stored length if there is one; every other reply has the number of bytes
/// of the stored body, in decimal digits.
pub proof fn which_headers_a_reply_has(method: Seq<char>, e: EntryView, name: Seq<char>)
    ensures
        name != "content-length"@ ==> values_under(cached_headers(method, e), name)
            == values_under(passed_on(headers_set(e.headers)), name),
        method != "HEAD"@ || !passed_on(headers_set(e.headers)).contains_key("content-length"@)
            ==> values_under(cached_headers(method, e), "content-length"@) == seq![
            encode_utf8(decimal(e.body_size as nat)),
        ],
        method == "HEAD"@ && passed_on(headers_set(e.headers)).contains_key("content-length"@)
            ==> values_under(cached_headers(method, e), "content-length"@) == values_under(
            passed_on(headers_set(e.headers)),
            "content-length"@,
        ),
{
}

/// The number that a small hexadecimal digit stands for.
pub open spec fn hex_value(c: char) -> int {
    if c <= '9' {
        c as int - 48
    } else {
        c as int - 87
    }
}

/// Each byte is written in two small hexadecimal digits, sixteen times the first and the
/// second being the byte.
pub proof fn how_bytes_are_written(bytes: Seq<u8>)
    ensures
        hex_text(bytes).len() == 2 * bytes.len(),
        forall|i: int| 0 <= i < 2 * bytes.len() ==> is_hex_digit(#[trigger] hex_text(bytes)[i]),
        forall|i: int|
            0 <= i < bytes.len() ==> 16 * hex_value(hex_text(bytes)[2 * i]) + hex_value(
                hex_text(bytes)[2 * i + 1],
            ) == #[trigger] bytes[i],
{
    let text = hex_text(bytes);
    assert forall|i: int| 0 <= i < 2 * bytes.len() implies is_hex_digit(#[trigger] text[i]) by {
        let b = bytes[i / 2] as int;
        assert(0 <= b / 16 < 16);
        assert(0 <= b % 16 < 16);
    }
    assert forall|i: int| 0 <= i < bytes.len() implies 16 * hex_value(text[2 * i]) + hex_value(
        text[2 * i + 1],
    ) == #[trigger] bytes[i] by {
        let b = bytes[i] as int;
        assert((2 * i) / 2 == i && (2 * i) % 2 == 0);
        assert((2 * i + 1) / 2 == i && (2 * i + 1) % 2 == 1);
        assert(0 <= b / 16 < 16);
        assert(0 <= b % 16 < 16);
        assert(hex_value(text[2 * i]) == b / 16);
        assert(hex_value(text[2 * i + 1]) == b % 16);
    }
}

/// Bodies have the same name exactly if the digests of their keys are the same.
pub proof fn names_tell_digests_apart(key1: Seq<char>, key2: Seq<char>)
    ensures
        object_name(key1) == object_name(key2) <==> sha256_of(encode_utf8(key1)) == sha256_of(
            encode_utf8(key2),
        ),
{
    let a = sha256_of(encode_utf8(key1));
    let b = sha256_of(encode_utf8(key2));
    how_bytes_are_written(a);
    how_bytes_are_written(b);
    if object_name(key1) == object_name(key2) {
        assert(a.len() == b.len());
        assert forall|i: int| 0 <= i < a.len() implies a[i] == b[i] by {
            assert(16 * hex_value(hex_text(a)[2 * i]) + hex_value(hex_text(a)[2 * i + 1]) == a[i]);
            assert(16 * hex_value(hex_text(b)[2 * i]) + hex_value(hex_text(b)[2 * i + 1]) == b[i]);
        }
        assert(a =~= b);
    }
}

/// A body is kept in the directory `objects` of the cache under its name, and is written
/// beside that place, with a mark and the token of its writer behind the name.
pub proof fn where_a_body_is_kept(dir: Seq<char>, name: Seq<char>, token: Seq<char>)
    requires
        dir.len() > 0,
        dir[dir.len() - 1] != '/',
        name.len() > 0,
        name[0] != '/',
    ensures
        final_place(dir, name) == dir + "/objects/"@ + name,
        temp_place(dir, name, token) == final_place(dir, name) + ".tmp-"@ + token,
{
    reveal_strlit("/");
    reveal_strlit("objects");
    reveal_strlit("/objects/");
    reveal_strlit(".tmp-");
    let objects = path_in(dir, OBJECTS_DIR@);
    where_a_name_is(dir, OBJECTS_DIR@);
    assert("objects"@[0] == 'o');
    assert(objects == dir.push('/') + "objects"@);
    assert(objects[objects.len() - 1] == "objects"@[6]);
    let temp = name + ".tmp-"@ + token;
    assert(temp[0] == name[0]);
    where_a_name_is(objects, name);
    where_a_name_is(objects, temp);
    assert(final_place(dir, name) =~= dir + "/objects/"@ + name);
    assert(temp_place(dir, name, token) =~= final_place(dir, name) + ".tmp-"@ + token);
}

} // verus!
