//! Which texts can be handed to the parser of log filters. The parser walks over a
//! directive without the white space around it, counts bytes as it goes, and cuts
//! its parts out of the directive with that white space. Where a cut would fall
//! inside a character it panics.

use crate::text::{chars_of, is_space, split, split_chars, texts, trim, trim_chars};
use crate::text_laws::{a_separator_parts_a_text, a_text_without_separator_is_one_piece};
use vstd::prelude::*;
use vstd::utf8::encode_utf8;

verus! {

/// How many bytes a character takes in UTF-8.
pub open spec fn width(c: char) -> nat {
    if c <= '\u{7f}' {
        1
    } else if c <= '\u{7ff}' {
        2
    } else if c <= '\u{ffff}' {
        3
    } else {
        4
    }
}

/// How many bytes the first `k` characters take in UTF-8.
pub open spec fn bytes_before(s: Seq<char>, k: int) -> nat
    decreases k,
{
    if k <= 0 {
        0
    } else {
        bytes_before(s, k - 1) + width(s[k - 1])
    }
}

/// Whether the text can be cut after so many bytes: no character is cut in two.
pub open spec fn is_boundary(s: Seq<char>, bytes: nat) -> bool {
    exists|k: int| 0 <= k <= s.len() && #[trigger] bytes_before(s, k) == bytes
}

/// Where the parser is in a directive. A part that is not cut out yet starts after
/// so many bytes.
pub enum Reading {
    /// At its first character.
    Start,
    /// In the level or target that it begins with.
    Name,
    /// In the name of a span.
    Span { start: nat },
    /// In the fields of a span.
    Field { start: nat },
    /// After the fields of a span.
    Fields,
    /// After a span.
    Closed,
    /// In the level that it ends with.
    Level { start: nat },
    /// The directive is refused.
    Refused,
    /// A character was cut in two.
    CutApart,
}

/// Whether a directive is refused if it begins with the character. Of the
/// characters that are not ASCII none counts as such here: a directive that is
/// refused for one of them is no filter, whatever is cut in it.
pub open spec fn is_refused_first(c: char) -> bool {
    &&& c <= '\u{7f}'
    &&& !('a' <= c && c <= 'z')
    &&& !('A' <= c && c <= 'Z')
    &&& !('0' <= c && c <= '9')
    &&& c != '-' && c != ':' && c != '_' && c != '['
}

/// Where the parser is after the character `c`, which comes after `at` bytes: a
/// part ends before a separator, and the next begins after it. A directive holds no
/// comma.
pub open spec fn read_on(directive: Seq<char>, r: Reading, at: nat, c: char) -> Reading {
    match r {
        Reading::Start => if c == '[' {
            Reading::Span { start: at + 1 }
        } else if is_refused_first(c) {
            Reading::Refused
        } else {
            Reading::Name
        },
        Reading::Name => if c != '=' && c != '[' {
            Reading::Name
        } else if !is_boundary(directive, at) {
            Reading::CutApart
        } else if c == '=' {
            Reading::Level { start: at + 1 }
        } else {
            Reading::Span { start: at + 1 }
        },
        Reading::Span { start } => if c != ']' && c != '{' {
            Reading::Span { start }
        } else if !is_boundary(directive, start) || !is_boundary(directive, at) {
            Reading::CutApart
        } else if c == ']' {
            Reading::Closed
        } else {
            Reading::Field { start: at + 1 }
        },
        Reading::Field { start } => if c != '}' {
            Reading::Field { start }
        } else if !is_boundary(directive, start) || !is_boundary(directive, at) {
            Reading::CutApart
        } else {
            Reading::Fields
        },
        Reading::Fields => if c == ']' {
            Reading::Closed
        } else {
            Reading::Refused
        },
        Reading::Closed => if c == '=' {
            Reading::Level { start: at + 1 }
        } else {
            Reading::Refused
        },
        Reading::Level { start } => Reading::Level { start },
        Reading::Refused => Reading::Refused,
        Reading::CutApart => Reading::CutApart,
    }
}

/// Where the parser is after the first `k` characters of the directive without the
/// white space around it.
pub open spec fn reading(directive: Seq<char>, k: int) -> Reading
    decreases k,
{
    if k <= 0 {
        Reading::Start
    } else {
        let bare = trim(directive);
        read_on(directive, reading(directive, k - 1), bytes_before(bare, k - 1), bare[k - 1])
    }
}

/// Whether no cut that the parser makes in the directive falls inside a character. A
/// directive that the parser refuses before it comes to a cut, for a field or for a
/// first character that is not ASCII, is held to the same: it is no filter either
/// way.
pub open spec fn cuts_safely(directive: Seq<char>) -> bool {
    match reading(directive, trim(directive).len() as int) {
        Reading::CutApart => false,
        Reading::Level { start } => is_boundary(directive, start),
        _ => true,
    }
}

/// Whether the text can be handed to the parser of log filters: each of its
/// comma-separated directives can be cut into its parts.
pub open spec fn reads_safely(text: Seq<char>) -> bool {
    forall|i: int| 0 <= i < split(text, ',').len() ==> cuts_safely(#[trigger] split(text, ',')[i])
}

// ---------------------------------------------------------------------------
// The walk
// ---------------------------------------------------------------------------

/// Where the parser is in a directive.
#[derive(Clone, Copy)]
enum Place {
    Start,
    Name,
    Span { start: u128 },
    Field { start: u128 },
    Fields,
    Closed,
    Level { start: u128 },
    Refused,
    CutApart,
}

impl Place {
    spec fn shown(self) -> Reading {
        match self {
            Place::Start => Reading::Start,
            Place::Name => Reading::Name,
            Place::Span { start } => Reading::Span { start: start as nat },
            Place::Field { start } => Reading::Field { start: start as nat },
            Place::Fields => Reading::Fields,
            Place::Closed => Reading::Closed,
            Place::Level { start } => Reading::Level { start: start as nat },
            Place::Refused => Reading::Refused,
            Place::CutApart => Reading::CutApart,
        }
    }
}

fn char_width(c: char) -> (r: u128)
    ensures
        r == width(c),
{
    if c <= '\u{7f}' {
        1
    } else if c <= '\u{7ff}' {
        2
    } else if c <= '\u{ffff}' {
        3
    } else {
        4
    }
}

proof fn more_characters_take_more_bytes(s: Seq<char>, j: int, k: int)
    requires
        0 <= j < k,
    ensures
        bytes_before(s, j) < bytes_before(s, k),
    decreases k,
{
    if j < k - 1 {
        more_characters_take_more_bytes(s, j, k - 1);
    }
}

fn falls_between(v: &Vec<char>, bytes: u128) -> (r: bool)
    ensures
        r == is_boundary(v@, bytes as nat),
{
    let mut k: usize = 0;
    let mut before: u128 = 0;
    while k < v.len() && before < bytes
        invariant
            k <= v.len(),
            before == bytes_before(v@, k as int),
            before <= 4 * k,
            forall|j: int| 0 <= j < k ==> #[trigger] bytes_before(v@, j) < bytes,
        decreases v.len() - k,
    {
        before = before + char_width(v[k]);
        k += 1;
    }
    proof {
        if before == bytes {
            assert(bytes_before(v@, k as int) == bytes);
        } else {
            assert forall|j: int| 0 <= j <= v@.len() implies #[trigger] bytes_before(v@, j)
                != bytes by {
                if k < j {
                    more_characters_take_more_bytes(v@, k as int, j);
                }
            }
        }
    }
    before == bytes
}

fn go_on(directive: &Vec<char>, place: Place, at: u128, c: char) -> (r: Place)
    requires
        at < u128::MAX,
    ensures
        r.shown() == read_on(directive@, place.shown(), at as nat, c),
{
    match place {
        Place::Start => {
            if c == '[' {
                Place::Span { start: at + 1 }
            } else if c <= '\u{7f}' && !('a' <= c && c <= 'z') && !('A' <= c && c <= 'Z') && !('0'
                <= c && c <= '9') && c != '-' && c != ':' && c != '_' {
                Place::Refused
            } else {
                Place::Name
            }
        },
        Place::Name => {
            if c != '=' && c != '[' {
                Place::Name
            } else if !falls_between(directive, at) {
                Place::CutApart
            } else if c == '=' {
                Place::Level { start: at + 1 }
            } else {
                Place::Span { start: at + 1 }
            }
        },
        Place::Span { start } => {
            if c != ']' && c != '{' {
                Place::Span { start }
            } else if !falls_between(directive, start) || !falls_between(directive, at) {
                Place::CutApart
            } else if c == ']' {
                Place::Closed
            } else {
                Place::Field { start: at + 1 }
            }
        },
        Place::Field { start } => {
            if c != '}' {
                Place::Field { start }
            } else if !falls_between(directive, start) || !falls_between(directive, at) {
                Place::CutApart
            } else {
                Place::Fields
            }
        },
        Place::Fields => {
            if c == ']' {
                Place::Closed
            } else {
                Place::Refused
            }
        },
        Place::Closed => {
            if c == '=' {
                Place::Level { start: at + 1 }
            } else {
                Place::Refused
            }
        },
        Place::Level { start } => Place::Level { start },
        Place::Refused => Place::Refused,
        Place::CutApart => Place::CutApart,
    }
}

fn directive_cuts_safely(directive: &Vec<char>) -> (r: bool)
    ensures
        r == cuts_safely(directive@),
{
    let bare = trim_chars(directive);
    let mut place = Place::Start;
    let mut at: u128 = 0;
    let mut k: usize = 0;
    while k < bare.len()
        invariant
            k <= bare.len(),
            bare@ == trim(directive@),
            at == bytes_before(bare@, k as int),
            at <= 4 * k,
            place.shown() == reading(directive@, k as int),
        decreases bare.len() - k,
    {
        place = go_on(directive, place, at, bare[k]);
        at = at + char_width(bare[k]);
        k += 1;
    }
    match place {
        Place::CutApart => false,
        Place::Level { start } => falls_between(directive, start),
        _ => true,
    }
}

/// Whether the text can be handed to the parser of log filters.
pub fn text_reads_safely(text: &str) -> (r: bool)
    ensures
        r == reads_safely(text@),
{
    let directives = split_chars(&chars_of(text), ',');
    let ghost all = split(text@, ',');
    let mut i: usize = 0;
    while i < directives.len()
        invariant
            i <= directives.len(),
            all == split(text@, ','),
            texts(directives@) == all,
            forall|j: int| 0 <= j < i ==> cuts_safely(#[trigger] all[j]),
        decreases directives.len() - i,
    {
        assert(all[i as int] == directives@[i as int]@);
        if !directive_cuts_safely(&directives[i]) {
            return false;
        }
        i += 1;
    }
    true
}

// ---------------------------------------------------------------------------
// Directives that are always safe
// ---------------------------------------------------------------------------

proof fn what_trimming_leaves(s: Seq<char>) -> (lead: int)
    ensures
        0 <= lead <= lead + trim(s).len() <= s.len(),
        forall|k: int| 0 <= k < trim(s).len() ==> #[trigger] trim(s)[k] == s[lead + k],
        s.len() > 0 && !is_space(s[0]) ==> lead == 0,
    decreases s.len(),
{
    if s.len() > 0 && is_space(s[0]) {
        let lead = what_trimming_leaves(s.drop_first());
        lead + 1
    } else {
        the_end_is_trimmed(s);
        0
    }
}

proof fn the_end_is_trimmed(s: Seq<char>)
    ensures
        crate::text::trim_end(s).len() <= s.len(),
        forall|k: int|
            0 <= k < crate::text::trim_end(s).len() ==> #[trigger] crate::text::trim_end(s)[k]
                == s[k],
    decreases s.len(),
{
    if s.len() > 0 && is_space(s.last()) {
        the_end_is_trimmed(s.drop_last());
    }
}

proof fn equal_characters_take_equal_bytes(a: Seq<char>, b: Seq<char>, k: int)
    requires
        0 <= k,
        forall|j: int| 0 <= j < k ==> a[j] == b[j],
    ensures
        bytes_before(a, k) == bytes_before(b, k),
    decreases k,
{
    if k > 0 {
        equal_characters_take_equal_bytes(a, b, k - 1);
    }
}

/// Whether all of the characters are ASCII.
pub open spec fn is_ascii_text(s: Seq<char>) -> bool {
    forall|i: int| 0 <= i < s.len() ==> (#[trigger] s[i]) <= '\u{7f}'
}

proof fn ascii_takes_one_byte_each(s: Seq<char>, k: int)
    requires
        is_ascii_text(s),
        0 <= k <= s.len(),
    ensures
        bytes_before(s, k) == k,
    decreases k,
{
    if k > 0 {
        ascii_takes_one_byte_each(s, k - 1);
    }
}

spec fn is_sound(directive: Seq<char>, r: Reading) -> bool {
    match r {
        Reading::Span { start } => is_boundary(directive, start),
        Reading::Field { start } => is_boundary(directive, start),
        Reading::Level { start } => is_boundary(directive, start),
        Reading::CutApart => false,
        _ => true,
    }
}

proof fn plain_reading_is_sound(directive: Seq<char>, k: int)
    requires
        is_ascii_text(directive) || (directive.len() > 0 && !is_space(directive[0])),
        0 <= k <= trim(directive).len(),
    ensures
        is_sound(directive, reading(directive, k)),
    decreases k,
{
    if k > 0 {
        plain_reading_is_sound(directive, k - 1);
        let bare = trim(directive);
        let lead = what_trimming_leaves(directive);
        let c = bare[k - 1];
        let at = bytes_before(bare, k - 1);
        assert(bytes_before(bare, k) == at + width(c));
        if is_ascii_text(directive) {
            assert(is_ascii_text(bare)) by {
                assert forall|i: int| 0 <= i < bare.len() implies (#[trigger] bare[i])
                    <= '\u{7f}' by {
                    assert(bare[i] == directive[lead + i]);
                }
            }
            ascii_takes_one_byte_each(bare, k - 1);
            ascii_takes_one_byte_each(bare, k);
            ascii_takes_one_byte_each(directive, k - 1);
            ascii_takes_one_byte_each(directive, k);
        } else {
            equal_characters_take_equal_bytes(bare, directive, k - 1);
            equal_characters_take_equal_bytes(bare, directive, k);
        }
        assert(bytes_before(directive, k - 1) == at);
        assert(is_boundary(directive, at));
        assert(bytes_before(directive, k) == at + width(c));
        assert(is_boundary(directive, at + width(c)));
    }
}

/// A directive that is all ASCII, or that does not begin with white space, can be
/// cut whatever it holds.
pub proof fn a_plain_directive_is_cut_safely(directive: Seq<char>)
    requires
        is_ascii_text(directive) || (directive.len() > 0 && !is_space(directive[0])),
    ensures
        cuts_safely(directive),
{
    what_trimming_leaves(directive);
    plain_reading_is_sound(directive, trim(directive).len() as int);
}

/// A directive that is no more than a level or a target, whatever white space is
/// around it, can be cut whatever it holds.
pub proof fn a_bare_name_is_cut_safely(directive: Seq<char>)
    requires
        !directive.contains('='),
        !directive.contains('['),
    ensures
        cuts_safely(directive),
{
    let lead = what_trimming_leaves(directive);
    a_bare_name_is_read(directive, trim(directive).len() as int, lead);
}

proof fn a_bare_name_is_read(directive: Seq<char>, k: int, lead: int)
    requires
        !directive.contains('='),
        !directive.contains('['),
        0 <= k <= trim(directive).len(),
        0 <= lead <= lead + trim(directive).len() <= directive.len(),
        forall|j: int| 0 <= j < trim(directive).len() ==> #[trigger] trim(directive)[j]
            == directive[lead + j],
    ensures
        reading(directive, k) == Reading::Start || reading(directive, k) == Reading::Name
            || reading(directive, k) == Reading::Refused,
    decreases k,
{
    if k > 0 {
        a_bare_name_is_read(directive, k - 1, lead);
        assert(trim(directive)[k - 1] == directive[lead + k - 1]);
    }
}

/// The bytes of characters are those of their encoding.
pub proof fn bytes_are_those_of_the_encoding(s: Seq<char>, k: int)
    requires
        0 <= k <= s.len(),
    ensures
        bytes_before(s, k) == encode_utf8(s.take(k)).len(),
    decreases k,
{
    if k > 0 {
        bytes_are_those_of_the_encoding(s, k - 1);
        assert(s.take(k) =~= s.take(k - 1).push(s[k - 1]));
        one_character_more_is_encoded(s.take(k - 1), s[k - 1]);
    } else {
        assert(s.take(0) =~= Seq::<char>::empty());
    }
}

proof fn one_character_more_is_encoded(s: Seq<char>, c: char)
    ensures
        encode_utf8(s.push(c)).len() == encode_utf8(s).len() + width(c),
    decreases s.len(),
{
    if s.len() == 0 {
        assert(s.push(c).drop_first() =~= Seq::<char>::empty());
        assert(s.push(c)[0] == c);
        assert(encode_utf8(s.push(c).drop_first()).len() == 0);
        assert(encode_utf8(s).len() == 0);
    } else {
        one_character_more_is_encoded(s.drop_first(), c);
        assert(s.push(c).drop_first() =~= s.drop_first().push(c));
        assert(s.push(c)[0] == s[0]);
    }
}

// ---------------------------------------------------------------------------
// Where directives are cut
// ---------------------------------------------------------------------------

/// A text can be handed to the parser exactly if the parts before and after a comma can.
pub proof fn directives_are_cut_one_by_one(a: Seq<char>, b: Seq<char>)
    ensures
        reads_safely(a.push(',') + b) <==> reads_safely(a) && reads_safely(b),
{
    a_separator_parts_a_text(a, b, ',');
    let x = split(a, ',');
    let y = split(b, ',');
    let all = split(a.push(',') + b, ',');
    assert(all == x + y);
    assert forall|i: int| 0 <= i < x.len() implies all[i] == #[trigger] x[i] by {}
    assert forall|i: int| 0 <= i < y.len() implies all[x.len() + i] == #[trigger] y[i] by {}
    if reads_safely(a) && reads_safely(b) {
        assert forall|i: int| 0 <= i < all.len() implies cuts_safely(#[trigger] all[i]) by {
            if i < x.len() {
                assert(all[i] == x[i]);
            } else {
                assert(all[i] == y[i - x.len()]);
            }
        }
    }
}

/// A text without a comma can be handed to the parser exactly if it can be cut.
pub proof fn a_directive_alone_is_cut(directive: Seq<char>)
    requires
        !directive.contains(','),
    ensures
        reads_safely(directive) <==> cuts_safely(directive),
{
    a_text_without_separator_is_one_piece(directive, ',');
    assert(split(directive, ',')[0] == directive);
}

proof fn a_part_is_read(directive: Seq<char>, r: Reading, from: int, k: int)
    requires
        0 <= from <= k <= trim(directive).len(),
        reading(directive, from) == r,
        forall|j: int|
            from <= j < k ==> read_on(
                directive,
                r,
                bytes_before(trim(directive), j),
                #[trigger] trim(directive)[j],
            ) == r,
    ensures
        reading(directive, k) == r,
    decreases k,
{
    if from < k {
        a_part_is_read(directive, r, from, k - 1);
        assert(trim(directive)[k - 1] == trim(directive)[k - 1]);
    }
}

proof fn a_name_is_read(directive: Seq<char>, name: Seq<char>)
    requires
        name.is_prefix_of(trim(directive)),
        name.len() > 0,
        !name.contains('='),
        !name.contains('['),
        !is_refused_first(name[0]),
    ensures
        reading(directive, name.len() as int) == Reading::Name,
{
    let bare = trim(directive);
    let n = name.len() as int;
    assert forall|j: int| 0 <= j < n implies #[trigger] bare[j] == name[j] by {
        assert(bare.take(n)[j] == bare[j]);
    }
    assert(name[0] != '[') by {
        assert(name.contains(name[0]));
    }
    assert(reading(directive, 0) == Reading::Start);
    assert(reading(directive, 1) == Reading::Name);
    assert forall|j: int| 1 <= j < n implies read_on(
        directive,
        Reading::Name,
        bytes_before(bare, j),
        #[trigger] bare[j],
    ) == Reading::Name by {
        assert(name.contains(name[j]));
    }
    a_part_is_read(directive, Reading::Name, 1, n);
}

/// A target with a level, whatever white space is around it, can be cut exactly if neither
/// the equals sign nor the place after it falls inside a character, both counted in bytes
/// from the first character that is no white space.
pub proof fn where_a_target_with_a_level_is_cut(
    directive: Seq<char>,
    target: Seq<char>,
    level: Seq<char>,
)
    requires
        trim(directive) == target.push('=') + level,
        target.len() > 0,
        !target.contains('='),
        !target.contains('['),
        !is_refused_first(target[0]),
    ensures
        ({
            let at = encode_utf8(target).len();
            cuts_safely(directive) <==> is_boundary(directive, at) && is_boundary(directive, at + 1)
        }),
{
    let bare = trim(directive);
    let n = target.len() as int;
    assert(bare.take(n) =~= target);
    a_name_is_read(directive, target);
    bytes_are_those_of_the_encoding(bare, n);
    assert(bare[n] == '=');
    let at = encode_utf8(target).len();
    let r = if is_boundary(directive, at) {
        Reading::Level { start: at + 1 }
    } else {
        Reading::CutApart
    };
    assert(reading(directive, n + 1) == r);
    a_part_is_read(directive, r, n + 1, bare.len() as int);
}

proof fn a_span_is_entered(directive: Seq<char>, target: Seq<char>, span: Seq<char>)
    requires
        (target.push('[') + span).is_prefix_of(trim(directive)),
        !target.contains('='),
        !target.contains('['),
        target.len() > 0 ==> !is_refused_first(target[0]),
        !span.contains(']'),
        !span.contains('{'),
    ensures
        ({
            let at = encode_utf8(target).len();
            let m = target.len() + 1 + span.len();
            &&& bytes_before(trim(directive), m as int) == at + 1 + encode_utf8(span).len()
            &&& is_boundary(directive, at) ==> reading(directive, m as int) == (Reading::Span {
                start: at + 1,
            })
            &&& !is_boundary(directive, at) ==> reading(directive, trim(directive).len() as int)
                == Reading::CutApart
        }),
{
    let bare = trim(directive);
    let opening = target.push('[') + span;
    let n = target.len() as int;
    let m = opening.len() as int;
    let at = encode_utf8(target).len();
    assert(bare.take(m) == opening);
    assert forall|j: int| 0 <= j < m implies #[trigger] bare[j] == opening[j] by {
        assert(bare.take(m)[j] == bare[j]);
    }
    assert(bare.take(n) =~= target);
    assert(bare[n] == opening[n]);
    bytes_are_those_of_the_encoding(bare, n);
    bytes_are_those_of_the_encoding(bare, n + 1);
    bytes_are_those_of_the_encoding(bare, m);
    assert(bytes_before(bare, n + 1) == at + 1);
    a_text_after_another_is_encoded_after_it(bare.take(n + 1), span);
    assert(bare.take(m) =~= bare.take(n + 1) + span);
    assert(reading(directive, 0) == Reading::Start);
    if n > 0 {
        a_name_is_read(directive, target);
    } else {
        assert(target =~= Seq::<char>::empty());
        assert(bytes_before(directive, 0) == 0);
        assert(is_boundary(directive, at));
    }
    if !is_boundary(directive, at) {
        assert(reading(directive, n + 1) == Reading::CutApart);
        a_part_is_read(directive, Reading::CutApart, n + 1, bare.len() as int);
    } else {
        let inside = Reading::Span { start: at + 1 };
        assert(reading(directive, n + 1) == inside);
        assert forall|j: int| n + 1 <= j < m implies read_on(
            directive,
            inside,
            bytes_before(bare, j),
            #[trigger] bare[j],
        ) == inside by {
            assert(bare[j] == span[j - n - 1]);
            assert(span.contains(span[j - n - 1]));
        }
        a_part_is_read(directive, inside, n + 1, m);
    }
}

proof fn what_follows_a_span_is_read(directive: Seq<char>, k: int, tail: Seq<char>)
    requires
        0 < k <= trim(directive).len(),
        trim(directive).skip(k) == tail,
        reading(directive, k) == Reading::Closed,
    ensures
        !(tail.len() > 0 && tail[0] == '=') ==> cuts_safely(directive),
        tail.len() > 0 && tail[0] == '=' ==> (cuts_safely(directive) <==> is_boundary(
            directive,
            bytes_before(trim(directive), k) + 1,
        )),
{
    let bare = trim(directive);
    if tail.len() > 0 {
        assert(bare[k] == bare.skip(k)[0]);
        let r = if tail[0] == '=' {
            Reading::Level { start: bytes_before(bare, k) + 1 }
        } else {
            Reading::Refused
        };
        assert(reading(directive, k + 1) == r);
        a_part_is_read(directive, r, k + 1, bare.len() as int);
    }
}

/// A span, with or without a target before it, can be cut exactly if neither bracket nor
/// the place after the opening one falls inside a character; and if a level follows, the
/// place where it begins must not either.
pub proof fn where_a_span_is_cut(
    directive: Seq<char>,
    target: Seq<char>,
    span: Seq<char>,
    tail: Seq<char>,
)
    requires
        trim(directive) == target.push('[') + span.push(']') + tail,
        !target.contains('='),
        !target.contains('['),
        target.len() > 0 ==> !is_refused_first(target[0]),
        !span.contains(']'),
        !span.contains('{'),
    ensures
        ({
            let at = encode_utf8(target).len();
            let end = at + 1 + encode_utf8(span).len();
            let named = is_boundary(directive, at) && is_boundary(directive, at + 1)
                && is_boundary(directive, end as nat);
            &&& !(tail.len() > 0 && tail[0] == '=') ==> (cuts_safely(directive) <==> named)
            &&& tail.len() > 0 && tail[0] == '=' ==> (cuts_safely(directive) <==> named
                && is_boundary(directive, (end + 2) as nat))
        }),
{
    let bare = trim(directive);
    let opening = target.push('[') + span;
    let m = opening.len() as int;
    assert(bare.take(m) =~= opening);
    a_span_is_entered(directive, target, span);
    assert(bare[m] == ']');
    let at = encode_utf8(target).len();
    if is_boundary(directive, at) {
        if is_boundary(directive, at + 1) && is_boundary(directive, bytes_before(bare, m)) {
            assert(reading(directive, m + 1) == Reading::Closed);
            assert(bare.skip(m + 1) =~= tail);
            what_follows_a_span_is_read(directive, m + 1, tail);
        } else {
            assert(reading(directive, m + 1) == Reading::CutApart);
            a_part_is_read(directive, Reading::CutApart, m + 1, bare.len() as int);
        }
    }
}

proof fn a_text_after_another_is_encoded_after_it(a: Seq<char>, b: Seq<char>)
    ensures
        encode_utf8(a + b).len() == encode_utf8(a).len() + encode_utf8(b).len(),
    decreases b.len(),
{
    if b.len() == 0 {
        assert(a + b =~= a);
    } else {
        a_text_after_another_is_encoded_after_it(a, b.drop_last());
        one_character_more_is_encoded(a + b.drop_last(), b.last());
        one_character_more_is_encoded(b.drop_last(), b.last());
        assert(a + b =~= (a + b.drop_last()).push(b.last()));
        assert(b =~= b.drop_last().push(b.last()));
    }
}

/// A text can be cut after so many bytes exactly if they are the encoding of some of the
/// characters that it begins with.
pub proof fn where_a_text_can_be_cut(s: Seq<char>, bytes: nat)
    ensures
        is_boundary(s, bytes) <==> exists|k: int|
            0 <= k <= s.len() && encode_utf8(#[trigger] s.take(k)).len() == bytes,
{
    if is_boundary(s, bytes) {
        let k = choose|k: int| 0 <= k <= s.len() && #[trigger] bytes_before(s, k) == bytes;
        bytes_are_those_of_the_encoding(s, k);
        assert(encode_utf8(s.take(k)).len() == bytes);
    }
    if exists|k: int| 0 <= k <= s.len() && encode_utf8(#[trigger] s.take(k)).len() == bytes {
        let k = choose|k: int|
            0 <= k <= s.len() && encode_utf8(#[trigger] s.take(k)).len() == bytes;
        bytes_are_those_of_the_encoding(s, k);
        assert(bytes_before(s, k) == bytes);
    }
}

/// A directive that begins with an ASCII character other than a letter, a digit, a hyphen, a
/// colon, an underscore or an opening bracket is refused before anything is cut.
pub proof fn a_refused_directive_is_not_cut(directive: Seq<char>)
    requires
        trim(directive).len() > 0,
        ({
            let c = trim(directive)[0] as int;
            &&& c < 128
            &&& !(97 <= c <= 122)
            &&& !(65 <= c <= 90)
            &&& !(48 <= c <= 58)
            &&& c != 45
            &&& c != 95
            &&& c != 91
        }),
    ensures
        cuts_safely(directive),
{
    assert(reading(directive, 0) == Reading::Start);
    assert(reading(directive, 1) == Reading::Refused);
    a_part_is_read(directive, Reading::Refused, 1, trim(directive).len() as int);
}

/// Which first characters make a directive be refused: the ASCII characters other than
/// letters, digits, the hyphen, the colon, the underscore and the opening bracket.
pub proof fn which_first_characters_are_refused(c: char)
    ensures
        is_refused_first(c) <==> {
            let n = c as int;
            &&& n < 128
            &&& !(97 <= n <= 122)
            &&& !(65 <= n <= 90)
            &&& !(48 <= n <= 58)
            &&& n != 45
            &&& n != 95
            &&& n != 91
        },
{
}

/// A span with fields, with or without a target before it, can be cut exactly if neither its
/// opening bracket, nor a brace, nor the place after the bracket or the opening brace falls
/// inside a character; and if a level follows, the place where it begins must not either.
pub proof fn where_a_span_with_fields_is_cut(
    directive: Seq<char>,
    target: Seq<char>,
    span: Seq<char>,
    fields: Seq<char>,
    tail: Seq<char>,
)
    requires
        trim(directive) == target.push('[') + span.push('{') + fields.push('}').push(']') + tail,
        !target.contains('='),
        !target.contains('['),
        target.len() > 0 ==> !is_refused_first(target[0]),
        !span.contains(']'),
        !span.contains('{'),
        !fields.contains('}'),
    ensures
        ({
            let at = encode_utf8(target).len();
            let brace = (at + 1 + encode_utf8(span).len()) as nat;
            let end = (brace + 1 + encode_utf8(fields).len()) as nat;
            let named = is_boundary(directive, at) && is_boundary(directive, at + 1)
                && is_boundary(directive, brace) && is_boundary(directive, brace + 1)
                && is_boundary(directive, end);
            &&& !(tail.len() > 0 && tail[0] == '=') ==> (cuts_safely(directive) <==> named)
            &&& tail.len() > 0 && tail[0] == '=' ==> (cuts_safely(directive) <==> named
                && is_boundary(directive, end + 3))
        }),
{
    let bare = trim(directive);
    let opening = target.push('[') + span;
    let m = opening.len() as int;
    let e = m + 1 + fields.len();
    assert(bare.take(m) =~= opening);
    a_span_is_entered(directive, target, span);
    assert(bare[m] == '{');
    let at = encode_utf8(target).len();
    let brace = bytes_before(bare, m);
    if is_boundary(directive, at) {
        if is_boundary(directive, at + 1) && is_boundary(directive, brace) {
            assert(bytes_before(bare, m + 1) == brace + 1);
            assert(reading(directive, m + 1) == (Reading::Field { start: brace + 1 }));
            assert(bare.subrange(m + 1, e) =~= fields);
            fields_are_read(directive, m + 1, fields);
            assert(bare[e] == '}');
            assert(bare[e + 1] == ']');
            let end = bytes_before(bare, e);
            assert(bytes_before(bare, e + 1) == end + 1);
            assert(bytes_before(bare, e + 2) == end + 2);
            if is_boundary(directive, brace + 1) && is_boundary(directive, end) {
                assert(reading(directive, e + 1) == Reading::Fields);
                assert(reading(directive, e + 2) == Reading::Closed);
                assert(bare.skip(e + 2) =~= tail);
                what_follows_a_span_is_read(directive, e + 2, tail);
            } else {
                assert(reading(directive, e + 1) == Reading::CutApart);
                a_part_is_read(directive, Reading::CutApart, e + 1, bare.len() as int);
            }
        } else {
            assert(reading(directive, m + 1) == Reading::CutApart);
            a_part_is_read(directive, Reading::CutApart, m + 1, bare.len() as int);
        }
    }
}

proof fn fields_are_read(directive: Seq<char>, from: int, fields: Seq<char>)
    requires
        0 < from <= from + fields.len() <= trim(directive).len(),
        trim(directive).subrange(from, from + fields.len()) == fields,
        reading(directive, from) == (Reading::Field {
            start: bytes_before(trim(directive), from),
        }),
        !fields.contains('}'),
    ensures
        reading(directive, from + fields.len()) == reading(directive, from),
        bytes_before(trim(directive), from + fields.len()) == bytes_before(trim(directive), from)
            + encode_utf8(fields).len(),
{
    let bare = trim(directive);
    let e = from + fields.len();
    let within = reading(directive, from);
    assert forall|j: int| from <= j < e implies read_on(
        directive,
        within,
        bytes_before(bare, j),
        #[trigger] bare[j],
    ) == within by {
        assert(bare[j] == fields[j - from]);
        assert(fields.contains(fields[j - from]));
    }
    a_part_is_read(directive, within, from, e);
    a_text_after_another_is_encoded_after_it(bare.take(from), fields);
    assert(bare.take(e) =~= bare.take(from) + fields);
    bytes_are_those_of_the_encoding(bare, from);
    bytes_are_those_of_the_encoding(bare, e);
}

} // verus!
