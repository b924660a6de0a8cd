//! What a reply from the cache says of the response that it stands for.

use crate::cache::{key_of, pairs, CacheEntry, EntryView};
use crate::cache_index::{
    accessed, entry_of, optional_entry, row_of, PhaseView, RunView, StepView,
};
use crate::cache_laws::{a_lookup_gives_back_what_was_stored, ends, is_stored, Store};
use crate::config::CacheConfig;
use crate::header_map::{
    header_contents, is_header_name, is_header_value, values_under, HeaderContents, ROOM_FOR_NAMES,
};
use crate::headers::{is_visible, passed_on, value_text};
use crate::http_proxy::cache_pipeline::{
    cached_headers, cached_status, final_place, headers_set, object_name, CachedBody, CachedReply,
};
use crate::http_proxy::cache_writer::{
    a_body_is_kept_byte_for_byte, are_parts, entry_written, files_after_all,
    only_a_whole_body_is_kept, total, writer_after_all, Files, WriterEvent, WriterPhase,
};
use crate::http_proxy::headers::{content_length, is_storage_of, text_values, texts_named};
use crate::http_proxy::{
    is_answer_from_cache, is_cached_method, is_stream_plan, Exchange, StreamPlan,
};
use crate::text::{decimal, decimal_digits, is_digit, lower, u64_decimal_is_read_back};
use vstd::prelude::*;
use vstd::utf8::{encode_utf8, is_ascii_chars, is_ascii_chars_encode_utf8};

verus! {

/// Whether each of the pairs has a name in small letters and a value that can be
/// that of a header.
spec fn all_headers(list: Seq<(Seq<char>, Seq<char>)>) -> bool {
    forall|i: int|
        0 <= i < list.len() ==> lower((#[trigger] list[i]).0) == list[i].0 && is_header_value(
            list[i].1,
        )
}

proof fn what_is_set(list: Seq<(Seq<char>, Seq<char>)>, name: Seq<char>)
    requires
        all_headers(list),
    ensures
        headers_set(list).contains_key(name) <==> is_header_name(name) && texts_named(
            list,
            name,
        ).len() > 0,
        headers_set(list).contains_key(name) ==> headers_set(list)[name] == seq![
            encode_utf8(texts_named(list, name).last()),
        ],
    decreases list.len(),
{
    if list.len() > 0 {
        let before = list.drop_last();
        assert(all_headers(before)) by {
            assert forall|i: int| 0 <= i < before.len() implies lower((#[trigger] before[i]).0)
                == before[i].0 && is_header_value(before[i].1) by {
                assert(before[i] == list[i]);
            }
        }
        what_is_set(before, name);
        assert(list.last() == list[list.len() - 1]);
    }
}

proof fn each_is_named(list: Seq<(Seq<char>, Seq<char>)>, i: int)
    requires
        0 <= i < list.len(),
    ensures
        texts_named(list, list[i].0).contains(list[i].1),
    decreases list.len(),
{
    let name = list[i].0;
    let before = texts_named(list.drop_last(), name);
    if i < list.len() - 1 {
        each_is_named(list.drop_last(), i);
        let k = before.index_of(list[i].1);
        assert(texts_named(list, name)[k] == list[i].1);
    } else {
        assert(texts_named(list, name) == before.push(list[i].1));
        assert(texts_named(list, name)[before.len() as int] == list[i].1);
    }
}

proof fn where_a_text_comes_from(values: Seq<Seq<u8>>, text: Seq<char>)
    requires
        text_values(values).contains(text),
    ensures
        exists|i: int| 0 <= i < values.len() && value_text(#[trigger] values[i]) == Some(text),
    decreases values.len(),
{
    let before = values.drop_last();
    if values.len() > 0 {
        if value_text(values.last()) == Some(text) {
            assert(value_text(values[values.len() - 1]) == Some(text));
        } else {
            let k = text_values(values).index_of(text);
            assert(text_values(before)[k] == text);
            where_a_text_comes_from(before, text);
            let i = choose|i: int|
                0 <= i < before.len() && value_text(#[trigger] before[i]) == Some(text);
            assert(values[i] == before[i]);
        }
    }
}

proof fn a_text_is_its_value(v: Seq<u8>)
    requires
        value_text(v) is Some,
    ensures
        is_header_value(value_text(v)->0),
        encode_utf8(value_text(v)->0) == v,
{
    let text = value_text(v)->0;
    assert forall|i: int| 0 <= i < text.len() implies (#[trigger] text[i]) as u8 == v[i] && (
    text[i] as int) < 128 && ((text[i] >= ' ' && text[i] != '\u{7f}') || text[i] == '\t') by {
        assert(is_visible(v[i]));
    }
    assert(is_ascii_chars(text));
    is_ascii_chars_encode_utf8(text);
    assert(encode_utf8(text) =~= v);
}

proof fn what_is_stored_is_headers(list: Seq<(Seq<char>, Seq<char>)>, c: HeaderContents)
    requires
        is_storage_of(list, c),
    ensures
        all_headers(list),
{
    assert forall|i: int| 0 <= i < list.len() implies lower((#[trigger] list[i]).0) == list[i].0
        && is_header_value(list[i].1) by {
        let (name, text) = list[i];
        each_is_named(list, i);
        let values = values_under(passed_on(c), name);
        assert(texts_named(list, name) == text_values(values));
        where_a_text_comes_from(values, text);
        let k = choose|k: int|
            0 <= k < values.len() && value_text(#[trigger] values[k]) == Some(text);
        a_text_is_its_value(values[k]);
    }
}

proof fn what_was_stored_is_passed_on(list: Seq<(Seq<char>, Seq<char>)>, c: HeaderContents)
    requires
        is_storage_of(list, c),
    ensures
        passed_on(headers_set(list)) == headers_set(list),
{
    what_is_stored_is_headers(list, c);
    let set = headers_set(list);
    assert forall|name: Seq<char>| #[trigger] set.contains_key(name) implies passed_on(
        c,
    ).contains_key(name) by {
        what_is_set(list, name);
        assert(texts_named(list, name) == text_values(values_under(passed_on(c), name)));
    }
    assert(!set.contains_key("connection"@));
    assert(passed_on(set) =~= set);
}

/// A header that the response has once, as text, and that is passed on, the
/// reply from the cache has as well, byte for byte. The length is the exception
/// where there is a body: it is that of the body.
pub proof fn a_text_header_is_replayed(
    method: Seq<char>,
    e: EntryView,
    c: HeaderContents,
    name: Seq<char>,
    value: Seq<u8>,
)
    requires
        is_storage_of(e.headers, c),
        is_header_name(name),
        values_under(passed_on(c), name) == seq![value],
        value_text(value) is Some,
        name != "content-length"@ || method == "HEAD"@,
    ensures
        values_under(cached_headers(method, e), name) == seq![value],
{
    let list = e.headers;
    what_is_stored_is_headers(list, c);
    what_was_stored_is_passed_on(list, c);
    what_is_set(list, name);
    a_text_is_its_value(value);
    let values = seq![value];
    assert(values.drop_last() =~= Seq::<Seq<u8>>::empty());
    assert(text_values(values.drop_last()) =~= Seq::<Seq<char>>::empty());
    assert(text_values(values) == Seq::<Seq<char>>::empty().push(value_text(value)->0));
    assert(texts_named(list, name) == text_values(values));
    assert(texts_named(list, name).last() == value_text(value)->0);
}

/// A reply from the cache has no header but the length that the response did not
/// pass on, and has each of them once, with a value that the response gave it.
pub proof fn nothing_is_added_to_a_replay(
    method: Seq<char>,
    e: EntryView,
    c: HeaderContents,
    name: Seq<char>,
)
    requires
        is_storage_of(e.headers, c),
        cached_headers(method, e).contains_key(name),
        name != "content-length"@,
    ensures
        passed_on(c).contains_key(name),
        exists|i: int|
            0 <= i < c[name].len() && cached_headers(method, e)[name] == seq![
                #[trigger] c[name][i],
            ],
{
    let list = e.headers;
    what_is_stored_is_headers(list, c);
    what_was_stored_is_passed_on(list, c);
    what_is_set(list, name);
    let values = values_under(passed_on(c), name);
    let said = texts_named(list, name);
    assert(said == text_values(values));
    assert(said.contains(said.last())) by {
        assert(said[said.len() - 1] == said.last());
    }
    where_a_text_comes_from(values, said.last());
    let i = choose|i: int|
        0 <= i < values.len() && value_text(#[trigger] values[i]) == Some(said.last());
    a_text_is_its_value(values[i]);
    assert(c[name][i] == values[i]);
}

/// A reply with a body announces the length of the body that was stored.
pub proof fn the_length_of_a_reply_is_that_of_its_body(method: Seq<char>, e: EntryView)
    requires
        method != "HEAD"@,
    ensures
        content_length(cached_headers(method, e)) == Some(e.body_size),
{
    let text = decimal(e.body_size as nat);
    decimal_digits(e.body_size as nat);
    assert forall|i: int| 0 <= i < text.len() implies is_digit(#[trigger] text[i]) by {}
    assert(is_ascii_chars(text));
    is_ascii_chars_encode_utf8(text);
    let value = encode_utf8(text);
    assert forall|i: int| 0 <= i < value.len() implies is_visible(#[trigger] value[i])
        && value[i] as char == text[i] by {
        assert(is_digit(text[i]));
    }
    assert(value_text(value)->0 =~= text);
    u64_decimal_is_read_back(e.body_size);
}

/// A response that was written whole is replayed: the entry that a lookup finds
/// for it answers the same request, with the status of the response, the file
/// that was written, the length of all the parts that came, and every header that
/// the response has once, as text, and that is passed on.
pub proof fn a_written_response_is_replayed(
    x: Exchange,
    s: StreamPlan,
    status: u16,
    c: HeaderContents,
    config: CacheConfig,
    cache_dir: Seq<char>,
    now: i64,
    expires_at: i64,
    events: Seq<WriterEvent>,
    later: i64,
)
    requires
        200 <= status < 300,
        is_stream_plan(s, x, status, c, config, cache_dir, now, expires_at),
        writer_after_all(s.plan, events).phase == WriterPhase::Storing,
        total(events) <= u64::MAX,
        x.method@ != "HEAD"@,
    ensures
        ({
            let size = writer_after_all(s.plan, events).size;
            let e = accessed(entry_written(s.plan, size), later);
            let reply = cached_headers(x.method@, e);
            &&& e.key == key_of(x.method@, x.url@)
            &&& e.body_path == Some(final_place(cache_dir, object_name(e.key)))
            &&& e.expires_at == expires_at
            &&& cached_status(e.status) == status
            &&& content_length(reply) == Some(total(events) as u64)
            &&& forall|name: Seq<char>, value: Seq<u8>|
                #![trigger values_under(reply, name), value_text(value)]
                is_header_name(name) && values_under(passed_on(c), name) == seq![value]
                    && value_text(value) is Some && name != "content-length"@ ==> values_under(
                    reply,
                    name,
                ) == seq![value]
        }),
{
    only_a_whole_body_is_kept(s.plan, events);
    let size = writer_after_all(s.plan, events).size;
    let e = accessed(entry_written(s.plan, size), later);
    let reply = cached_headers(x.method@, e);
    the_length_of_a_reply_is_that_of_its_body(x.method@, e);
    assert forall|name: Seq<char>, value: Seq<u8>|
        #![trigger values_under(reply, name), value_text(value)]
        is_header_name(name) && values_under(passed_on(c), name) == seq![value] && value_text(value)
            is Some && name != "content-length"@ implies values_under(reply, name) == seq![
            value,
        ] by {
        a_text_header_is_replayed(x.method@, e, c, name, value);
    }
}

/// A response that was written whole, and whose entry was stored, answers the same
/// request until it expires, as long as its row and its file are there: the cache is
/// asked, the lookup finds the entry, and the reply has the status of the response
/// and, byte for byte, the body that came, with its length.
pub proof fn a_request_is_answered_with_the_body_that_came(
    x: Exchange,
    s: StreamPlan,
    status: u16,
    c: HeaderContents,
    config: CacheConfig,
    cache_dir: Seq<char>,
    now: i64,
    expires_at: i64,
    events: Seq<WriterEvent>,
    parts: Seq<Seq<u8>>,
    files: Files,
    max_entries: usize,
    before: Store,
    stored: Store,
    y: Exchange,
    later: i64,
    after: Store,
    found: Option<CacheEntry>,
    steps: nat,
    r: Option<CachedReply>,
)
    requires
        200 <= status < 300,
        x.method@ == "GET"@,
        is_stream_plan(s, x, status, c, config, cache_dir, now, expires_at),
        headers_set(pairs(s.plan.headers@)).len() < ROOM_FOR_NAMES,
        writer_after_all(s.plan, events).phase == WriterPhase::Storing,
        are_parts(parts, events),
        total(events) <= u64::MAX,
        before.valid(),
        ({
            let e = entry_written(s.plan, writer_after_all(s.plan, events).size);
            &&& entry_of(row_of(e)) == e
            &&& is_stored(before, row_of(e), max_entries, stored)
            &&& stored.rows.contains_key(e.key)
        }),
        stored.files.contains(s.plan.body_path@),
        later < expires_at,
        y.method@ == x.method@,
        y.url@ == x.url@,
        !y.range_requested,
        ends(
            RunView { now: later, max_entries: 0, phase: PhaseView::Selecting },
            StepView::SelectRow { key: key_of(y.method@, y.url@) },
            stored,
            after,
            optional_entry(found),
            steps,
        ),
        is_answer_from_cache(y, found, r),
    ensures
        is_cached_method(y.method@),
        r matches Some(reply) && {
            let on_disk = files_after_all(files, s.temp_path@, s.plan, events, parts);
            &&& reply.status == status
            &&& reply.body matches CachedBody::File(path)
            &&& on_disk.contains_key(path@)
            &&& on_disk[path@] == parts.flatten()
            &&& content_length(header_contents(reply.headers)) == Some(parts.flatten().len() as u64)
        },
{
    reveal_strlit("GET");
    reveal_strlit("HEAD");
    let e = entry_written(s.plan, writer_after_all(s.plan, events).size);
    a_body_is_kept_byte_for_byte(files, s.temp_path@, s.plan, events, parts);
    a_lookup_gives_back_what_was_stored(
        y.method@,
        y.url@,
        row_of(e),
        max_entries,
        before,
        stored,
        later,
        after,
        optional_entry(found),
        steps,
    );
    let entry = found->0;
    assert(entry@ == accessed(e, later));
    the_length_of_a_reply_is_that_of_its_body(y.method@, entry@);
}

} // verus!
