//! What holds of texts whichever way they are taken apart: splitting, trimming, case
//! and numbers.

use crate::text::{
    decimal, decimal_digits, digits_value, is_space, lower, number, split, trim, trim_end,
    trim_start, u64_number,
};
use vstd::prelude::*;

verus! {

// ---------------------------------------------------------------------------
// Splitting
// ---------------------------------------------------------------------------

/// A separator parts a text: the pieces of what stands before it are followed by the
/// pieces of what stands after it.
pub proof fn a_separator_parts_a_text(a: Seq<char>, b: Seq<char>, sep: char)
    ensures
        split(a.push(sep) + b, sep) == split(a, sep) + split(b, sep),
    decreases b.len(),
{
    let s = a.push(sep) + b;
    if b.len() == 0 {
        assert(s =~= a.push(sep));
        assert(a.push(sep).drop_last() =~= a);
        assert(split(b, sep) =~= seq![Seq::<char>::empty()]);
        assert(split(s, sep) =~= split(a, sep) + split(b, sep));
    } else {
        let shorter = b.drop_last();
        a_separator_parts_a_text(a, shorter, sep);
        a_text_has_a_piece(shorter, sep);
        assert(s.drop_last() =~= a.push(sep) + shorter);
        assert(s.last() == b.last());
        assert(split(s, sep) =~= split(a, sep) + split(b, sep));
    }
}

/// A text has at least one piece.
pub proof fn a_text_has_a_piece(s: Seq<char>, sep: char)
    ensures
        split(s, sep).len() > 0,
    decreases s.len(),
{
    if s.len() > 0 {
        a_text_has_a_piece(s.drop_last(), sep);
    }
}

/// A text without a separator is one piece.
pub proof fn a_text_without_separator_is_one_piece(s: Seq<char>, sep: char)
    requires
        !s.contains(sep),
    ensures
        split(s, sep) == seq![s],
    decreases s.len(),
{
    if s.len() > 0 {
        assert(s[s.len() - 1] == s.last());
        assert forall|i: int| 0 <= i < s.drop_last().len() implies s.drop_last()[i] != sep by {
            assert(s.drop_last()[i] == s[i]);
        }
        a_text_without_separator_is_one_piece(s.drop_last(), sep);
        assert(split(s, sep) =~= seq![s.drop_last().push(s.last())]);
        assert(s.drop_last().push(s.last()) =~= s);
    } else {
        assert(s =~= Seq::<char>::empty());
    }
}

// ---------------------------------------------------------------------------
// White space
// ---------------------------------------------------------------------------

/// Whether every character is white space.
pub open spec fn all_space(s: Seq<char>) -> bool {
    forall|i: int| 0 <= i < s.len() ==> is_space(#[trigger] s[i])
}

/// Trimming takes white space off both ends, all of it and nothing else.
pub proof fn what_trimming_takes_off(s: Seq<char>) -> (ends: (Seq<char>, Seq<char>))
    ensures
        s == ends.0 + trim(s) + ends.1,
        all_space(ends.0),
        all_space(ends.1),
        trim(s).len() > 0 ==> !is_space(trim(s)[0]) && !is_space(trim(s)[trim(s).len() - 1]),
{
    let rest = trim_start(s);
    let lead = what_leads(s);
    let trail = what_trails(rest);
    assert(s =~= lead + trim(s) + trail);
    if trim(s).len() > 0 {
        assert(trim(s)[0] == rest[0]);
    }
    (lead, trail)
}

proof fn what_leads(s: Seq<char>) -> (lead: Seq<char>)
    ensures
        s == lead + trim_start(s),
        all_space(lead),
        trim_start(s).len() > 0 ==> !is_space(trim_start(s)[0]),
    decreases s.len(),
{
    if s.len() > 0 && is_space(s[0]) {
        let rest = what_leads(s.drop_first());
        let lead = seq![s[0]] + rest;
        assert(s =~= seq![s[0]] + s.drop_first());
        assert(seq![s[0]] + (rest + trim_start(s)) =~= lead + trim_start(s));
        lead
    } else {
        assert(s =~= Seq::<char>::empty() + s);
        Seq::empty()
    }
}

proof fn what_trails(s: Seq<char>) -> (trail: Seq<char>)
    ensures
        s == trim_end(s) + trail,
        all_space(trail),
        trim_end(s).len() > 0 ==> !is_space(trim_end(s)[trim_end(s).len() - 1]),
    decreases s.len(),
{
    if s.len() > 0 && is_space(s.last()) {
        let rest = what_trails(s.drop_last());
        let trail = rest.push(s.last());
        assert(s =~= s.drop_last().push(s.last()));
        assert((trim_end(s) + rest).push(s.last()) =~= trim_end(s) + trail);
        trail
    } else {
        assert(s =~= s + Seq::<char>::empty());
        Seq::empty()
    }
}

/// A text that is trimmed already is not changed by trimming.
pub proof fn a_trimmed_text_stays(s: Seq<char>)
    requires
        s.len() > 0 ==> !is_space(s[0]) && !is_space(s.last()),
    ensures
        trim(s) == s,
{
}

/// Trimming does not see white space around a text.
pub proof fn white_space_around_a_text_is_not_seen(
    lead: Seq<char>,
    s: Seq<char>,
    trail: Seq<char>,
)
    requires
        all_space(lead),
        all_space(trail),
    ensures
        trim(lead + s + trail) == trim(s),
{
    let whole = lead + s + trail;
    white_space_before_is_not_seen(lead, s + trail);
    assert(whole =~= lead + (s + trail));
    let l = what_leads(s);
    if trim_start(s).len() > 0 {
        white_space_before_is_not_seen(l, trim_start(s) + trail);
        assert(s + trail =~= l + (trim_start(s) + trail));
        assert((trim_start(s) + trail)[0] == trim_start(s)[0]);
        white_space_after_is_not_seen(trim_start(s), trail);
    } else {
        assert(trim_start(s) =~= Seq::<char>::empty());
        assert(l + trail =~= s + trail);
        assert forall|i: int| 0 <= i < (s + trail).len() implies is_space(
            #[trigger] (s + trail)[i],
        ) by {
            if i < s.len() {
                assert(l[i] == s[i]);
            }
        }
        white_space_before_is_not_seen(s + trail, Seq::empty());
        assert((s + trail) + Seq::<char>::empty() =~= s + trail);
    }
}

proof fn white_space_before_is_not_seen(lead: Seq<char>, s: Seq<char>)
    requires
        all_space(lead),
    ensures
        trim_start(lead + s) == trim_start(s),
    decreases lead.len(),
{
    if lead.len() > 0 {
        assert((lead + s)[0] == lead[0]);
        assert((lead + s).drop_first() =~= lead.drop_first() + s);
        white_space_before_is_not_seen(lead.drop_first(), s);
    } else {
        assert(lead + s =~= s);
    }
}

proof fn white_space_after_is_not_seen(s: Seq<char>, trail: Seq<char>)
    requires
        all_space(trail),
    ensures
        trim_end(s + trail) == trim_end(s),
    decreases trail.len(),
{
    if trail.len() > 0 {
        assert((s + trail).last() == trail[trail.len() - 1]);
        assert((s + trail).drop_last() =~= s + trail.drop_last());
        white_space_after_is_not_seen(s, trail.drop_last());
    } else {
        assert(s + trail =~= s);
    }
}

/// Of the ASCII characters, the tab, the line breaks and feeds next to it, and the
/// space are white space; beyond ASCII, nineteen more are.
pub proof fn which_characters_are_white_space(c: char)
    ensures
        (c as int) < 128 ==> (is_space(c) <==> 9 <= c as int <= 13 || c as int == 32),
        (c as int) >= 128 ==> (is_space(c) <==> c as int == 0x85 || c as int == 0xa0 || c as int
            == 0x1680 || 0x2000 <= c as int <= 0x200a || c as int == 0x2028 || c as int == 0x2029
            || c as int == 0x202f || c as int == 0x205f || c as int == 0x3000),
{
}

// ---------------------------------------------------------------------------
// Case
// ---------------------------------------------------------------------------

/// The letters A to Z become a to z, each in its place, and nothing else changes.
pub proof fn which_characters_are_made_small(s: Seq<char>, i: int)
    requires
        0 <= i < s.len(),
    ensures
        lower(s).len() == s.len(),
        65 <= s[i] as int <= 90 ==> lower(s)[i] as int == s[i] as int + 32,
        !(65 <= s[i] as int <= 90) ==> lower(s)[i] == s[i],
{
}

/// Making letters small goes through the parts of a text one by one, and a second time
/// changes nothing.
pub proof fn the_parts_of_a_text_are_made_small(a: Seq<char>, b: Seq<char>)
    ensures
        lower(a + b) == lower(a) + lower(b),
        lower(lower(a)) == lower(a),
{
    assert(lower(a + b) =~= lower(a) + lower(b));
    assert(lower(lower(a)) =~= lower(a));
}

// ---------------------------------------------------------------------------
// Numbers
// ---------------------------------------------------------------------------

/// A digit is a number, and a digit behind a number is added to ten times that.
pub proof fn a_digit_more_is_ten_times_as_much(s: Seq<char>, d: char)
    requires
        '0' <= d && d <= '9',
    ensures
        number(seq![d]) == Some((d as int - 48) as nat),
        s.len() > 0 && number(s) is Some ==> number(s.push(d)) == Some(
            (number(s)->0 * 10 + (d as int - 48)) as nat,
        ),
{
    let one = seq![d];
    assert(crate::text::after_sign(one) =~= one);
    assert(one.drop_last() =~= Seq::<char>::empty());
    assert(digits_value(Seq::<char>::empty()) == 0);
    assert(digits_value(one) == (d as int - 48) as nat);
    if s.len() > 0 && number(s) is Some {
        let digits = crate::text::after_sign(s);
        let more = crate::text::after_sign(s.push(d));
        assert(s.push(d)[0] == s[0]);
        assert(more =~= digits.push(d));
        assert(digits.push(d).drop_last() =~= digits);
        assert forall|i: int| 0 <= i < more.len() implies crate::text::is_digit(
            #[trigger] more[i],
        ) by {
            if i < digits.len() {
                assert(digits[i] == more[i]);
            }
        }
    }
}

/// A number is written in the digits 0 to 9, of which there is at least one, and may
/// have one plus sign before them, which changes nothing. No other text is a number.
pub proof fn what_a_number_is_written_in(s: Seq<char>)
    ensures
        number(s) is Some <==> {
            ||| s.len() > 0 && forall|i: int|
                0 <= i < s.len() ==> 48 <= (#[trigger] s[i]) as int && s[i] as int <= 57
            ||| s.len() > 1 && s[0] == '+' && forall|i: int|
                1 <= i < s.len() ==> 48 <= (#[trigger] s[i]) as int && s[i] as int <= 57
        },
        s.len() > 0 && s[0] != '+' ==> number(seq!['+'] + s) == number(s),
{
    let digits = crate::text::after_sign(s);
    if s.len() > 0 && s[0] == '+' {
        assert forall|i: int| 0 <= i < digits.len() implies digits[i] == s[i + 1] by {}
        if number(s) is Some {
            assert forall|i: int| 1 <= i < s.len() implies 48 <= (#[trigger] s[i]) as int
                && s[i] as int <= 57 by {
                assert(crate::text::is_digit(digits[i - 1]));
            }
        }
    } else if s.len() > 0 {
        assert((seq!['+'] + s).drop_first() =~= s);
        if number(s) is Some {
            assert forall|i: int| 0 <= i < s.len() implies 48 <= (#[trigger] s[i]) as int
                && s[i] as int <= 57 by {
                assert(crate::text::is_digit(digits[i]));
            }
        }
    }
}

/// A number counts as one of 64 bits exactly if it fits.
pub proof fn which_numbers_have_64_bits(s: Seq<char>)
    ensures
        u64_number(s) is Some <==> number(s) is Some && number(s)->0 <= 0xffff_ffff_ffff_ffff,
        u64_number(s) is Some ==> u64_number(s)->0 == number(s)->0,
{
}

/// A number is written without zeros before it, and is read back as itself.
pub proof fn how_a_number_is_written(n: nat)
    ensures
        number(decimal(n)) == Some(n),
        decimal(n).len() > 0,
        n > 0 ==> decimal(n)[0] != '0',
        n < 10 ==> decimal(n).len() == 1,
        forall|i: int|
            0 <= i < decimal(n).len() ==> 48 <= (#[trigger] decimal(n)[i]) as int && decimal(
                n,
            )[i] as int <= 57,
    decreases n,
{
    crate::text::decimal_is_read_back(n);
    decimal_digits(n);
    if n >= 10 {
        how_a_number_is_written(n / 10);
        assert(decimal(n)[0] == decimal(n / 10)[0]);
    }
    assert forall|i: int| 0 <= i < decimal(n).len() implies 48 <= (#[trigger] decimal(n)[i]) as int
        && decimal(n)[i] as int <= 57 by {
        assert(crate::text::is_digit(decimal(n)[i]));
    }
}

} // verus!
