//! What comparing texts and durations comes to, told by the texts and the numbers.
use vstd::prelude::*;

use crate::text_match::Score;

verus! {

/// Text that is normal already stays as it is: small ASCII letters and digits, in words
/// with single spaces between them.
pub proof fn lemma_plain_words_are_normal(s: Seq<char>)
    requires
        forall|i: int|
            0 <= i < s.len() ==> ('a' <= #[trigger] s[i] && s[i] <= 'z') || ('0' <= s[i] && s[i]
                <= '9') || s[i] == ' ',
        s.len() > 0 ==> s[0] != ' ' && s.last() != ' ',
        forall|i: int| 0 <= i < s.len() - 1 && #[trigger] s[i] == ' ' ==> s[i + 1] != ' ',
    ensures
        crate::text_match::normalized(s) == s,
{
    assert forall|i: int| 0 <= i < s.len() implies (#[trigger] s[i]) as u32 <= 0x7f
        && crate::text::ascii_lower(s[i]) == s[i] && !crate::punctuation::is_punctuation(s[i]) && (
    crate::text::white_space(s[i]) ==> s[i] == ' ') by {
        crate::punctuation::lemma_words_are_no_punctuation(s[i]);
    }
    assert(crate::text::ascii_lowercase(s) =~= s);
    if s.len() > 0 {
        assert(s[s.len() - 1] != ' ');
    }
    crate::text::lemma_trimmed_fixed(s);
    crate::text_match::lemma_nothing_to_strip(s);
    assert(crate::text::single_spaced(s));
    crate::text::lemma_collapsed_fixed(s);
}

/// A run in brackets counts for nothing, whatever it holds: the text normalizes like the
/// text without it.
pub proof fn lemma_brackets_count_for_nothing(
    front: Seq<char>,
    inside: Seq<char>,
    back: Seq<char>,
    round: bool,
)
    requires
        !front.contains('('),
        !front.contains('['),
        !inside.contains(')'),
        !inside.contains(']'),
    ensures
        ({
            let run = if round {
                seq!['('] + inside + seq![')']
            } else {
                seq!['['] + inside + seq![']']
            };
            crate::text_match::without_brackets(front + run + back) == front
                + crate::text_match::without_brackets(back)
        }),
    decreases front.len(),
{
    let open: char = if round {
        '('
    } else {
        '['
    };
    let close: char = if round {
        ')'
    } else {
        ']'
    };
    let run = seq![open] + inside + seq![close];
    let s = front + run + back;
    if front.len() == 0 {
        assert(s[0] == open);
        let rest = s.skip(1);
        assert(rest =~= inside + seq![close] + back);
        lemma_after_first(inside, close, back);
        let kept = crate::text_match::without_brackets(back);
        assert(front + kept =~= kept);
    } else {
        let rest = front.skip(1);
        assert(!rest.contains('(') && !rest.contains('[')) by {
            if rest.contains('(') {
                let k = choose|k: int| 0 <= k < rest.len() && rest[k] == '(';
                assert(front[k + 1] == '(');
            }
            if rest.contains('[') {
                let k = choose|k: int| 0 <= k < rest.len() && rest[k] == '[';
                assert(front[k + 1] == '[');
            }
        }
        lemma_brackets_count_for_nothing(rest, inside, back, round);
        assert(s.skip(1) =~= rest + run + back);
        assert(s[0] == front[0]);
        assert(!crate::text_match::opens(s[0])) by {
            if crate::text_match::opens(s[0]) {
                assert(front.contains(s[0]));
            }
        }
        let kept = crate::text_match::without_brackets(back);
        assert(seq![s[0]] + (rest + kept) =~= front + kept);
    }
}

proof fn lemma_after_first(inside: Seq<char>, close: char, back: Seq<char>)
    requires
        !inside.contains(close),
    ensures
        crate::text_match::after_first(inside + seq![close] + back, close) == back,
    decreases inside.len(),
{
    let s = inside + seq![close] + back;
    if inside.len() == 0 {
        assert(s.skip(1) =~= back);
    } else {
        assert(s[0] == inside[0]);
        assert(inside[0] != close) by {
            if inside[0] == close {
                assert(inside.contains(close));
            }
        }
        let rest = inside.skip(1);
        assert(!rest.contains(close)) by {
            if rest.contains(close) {
                let k = choose|k: int| 0 <= k < rest.len() && rest[k] == close;
                assert(inside[k + 1] == close);
            }
        }
        lemma_after_first(rest, close, back);
        assert(s.skip(1) =~= rest + seq![close] + back);
    }
}

/// Punctuation counts for nothing, wherever it stands: the text without the mark is the
/// same once punctuation is dropped.
pub proof fn lemma_marks_count_for_nothing(front: Seq<char>, mark: char, back: Seq<char>)
    requires
        crate::punctuation::is_punctuation(mark),
    ensures
        crate::text_match::without_punctuation(front + seq![mark] + back)
            == crate::text_match::without_punctuation(front + back),
    decreases back.len(),
{
    let s = front + seq![mark] + back;
    if back.len() == 0 {
        assert(s.drop_last() =~= front);
        assert(front + back =~= front);
    } else {
        let less = back.drop_last();
        lemma_marks_count_for_nothing(front, mark, less);
        assert(s.drop_last() =~= front + seq![mark] + less);
        assert((front + back).drop_last() =~= front + less);
        assert((front + back).last() == back.last());
    }
}

/// Everything but punctuation is kept, in its order, when punctuation is dropped.
pub proof fn lemma_the_rest_is_kept(s: Seq<char>, c: char)
    ensures
        crate::text_match::without_punctuation(s.push(c)) == if crate::punctuation::is_punctuation(
            c,
        ) {
            crate::text_match::without_punctuation(s)
        } else {
            crate::text_match::without_punctuation(s).push(c)
        },
{
    assert(s.push(c).drop_last() =~= s);
}

/// The similarity of two texts: equal texts lose nothing, different ones lose at least one
/// edit and at most all of the longer one; one more edit away loses at most one more.
pub proof fn lemma_similarity_counts_edits(a: Seq<char>, b: Seq<char>)
    ensures
        ({
            let (lost, out_of) = crate::text_match::similarity_of(a, b);
            &&& lost == 0 <==> a == b
            &&& a != b ==> lost == crate::edit_distance::distance(a, b)
            &&& a != b ==> out_of >= vstd::utf8::encode_utf8(a).len() && out_of
                >= vstd::utf8::encode_utf8(b).len()
            &&& a != b ==> out_of == vstd::utf8::encode_utf8(a).len() || out_of
                == vstd::utf8::encode_utf8(b).len()
        }),
{
    if crate::edit_distance::distance(a, b) == 0 {
        crate::edit_distance::lemma_distance_zero(a, b);
    }
}

/// What a difference in duration loses: nothing within the tolerance, everything from the
/// falloff on, and in between as much of the way as it has gone.
pub proof fn lemma_duration_falls_off_evenly(diff: int, tolerance: int, falloff: int)
    requires
        0 <= diff,
        0 <= tolerance < falloff,
    ensures
        ({
            let (lost, out_of) = crate::text_match::duration_loss(diff, tolerance, falloff);
            &&& out_of > 0
            &&& diff <= tolerance ==> lost == 0
            &&& diff >= falloff ==> lost == out_of
            &&& tolerance < diff < falloff ==> lost * (falloff - tolerance) == out_of * (diff
                - tolerance)
        }),
{
    let (lost, out_of) = crate::text_match::duration_loss(diff, tolerance, falloff);
    if tolerance < diff < falloff {
        let (p, q) = (diff - tolerance, falloff - tolerance);
        assert(p * q == q * p) by (nonlinear_arith);
    }
}

/// Milliseconds count as whole seconds, rounded down; a negative time counts as nought.
pub proof fn lemma_milliseconds_are_rounded_down(ms: int)
    ensures
        0 <= ms < 0x1_0000_0000 * 1000 ==> {
            let secs = crate::text_match::whole_secs(ms);
            secs * 1000 <= ms < secs * 1000 + 1000
        },
        ms < 0 ==> crate::text_match::whole_secs(ms) == 0,
{
}

/// One inserted, dropped or changed character is one edit, and no more.
pub proof fn lemma_one_edit_is_one(front: Seq<char>, c: char, d: char, back: Seq<char>)
    requires
        c != d,
    ensures
        crate::edit_distance::distance(front + back, front + seq![c] + back) == 1,
        crate::edit_distance::distance(front + seq![c] + back, front + back) == 1,
        crate::edit_distance::distance(front + seq![c] + back, front + seq![d] + back) == 1,
    decreases back.len(),
{
    if back.len() == 0 {
        assert(front + back =~= front);
        assert(front + seq![c] + back =~= front.push(c));
        assert(front + seq![d] + back =~= front.push(d));
        assert(front.push(c).drop_last() =~= front);
        assert(front.push(d).drop_last() =~= front);
        crate::edit_distance::lemma_distance_self(front);
        lemma_appended(front, c);
        crate::edit_distance::lemma_distance_symmetric(front, front.push(c));
        assert(front.push(c).last() != front.push(d).last());
    } else {
        let less = back.drop_last();
        lemma_one_edit_is_one(front, c, d, less);
        assert((front + back).drop_last() =~= front + less);
        assert((front + seq![c] + back).drop_last() =~= front + seq![c] + less);
        assert((front + seq![d] + back).drop_last() =~= front + seq![d] + less);
        assert((front + back).last() == back.last());
        assert((front + seq![c] + back).last() == back.last());
        assert((front + seq![d] + back).last() == back.last());
    }
}

proof fn lemma_appended(s: Seq<char>, c: char)
    ensures
        crate::edit_distance::distance(s, s.push(c)) == 1,
    decreases s.len(),
{
    crate::edit_distance::lemma_distance_self(s);
    let t = s.push(c);
    assert(t.drop_last() =~= s);
    if crate::edit_distance::distance(s, t) == 0 {
        crate::edit_distance::lemma_distance_zero(s, t);
    }
    if s.len() > 0 && s.last() == c {
        lemma_appended(s.drop_last(), c);
        assert(s.drop_last().push(c) =~= s);
    }
}

/// The distance of two texts is the least number of characters that have to be added, taken
/// out or replaced to make one the other.
pub proof fn lemma_distance_is_the_least_number_of_edits(a: &str, b: &str, n: nat, r: usize)
    requires
        call_ensures(crate::edit_distance::levenshtein, (a, b), r),
    ensures
        crate::edit_distance::edits(a@, b@, r as nat),
        crate::edit_distance::edits(a@, b@, n) ==> r <= n,
{
    crate::edit_distance::lemma_distance_is_reached(a@, b@);
    if crate::edit_distance::edits(a@, b@, n) {
        crate::edit_distance::lemma_distance_is_least(a@, b@, n);
    }
}

/// Two texts are wholly alike exactly where they are the same; otherwise they lose their
/// distance out of the bytes of the longer.
pub proof fn lemma_alike_where_the_same(a: &str, b: &str, r: Score)
    requires
        call_ensures(crate::text_match::similarity, (a, b), r),
    ensures
        r.lost == 0 <==> a@ == b@,
        a@ != b@ ==> r.lost == crate::edit_distance::distance(a@, b@) && r.out_of
            >= vstd::utf8::encode_utf8(a@).len() && r.out_of >= vstd::utf8::encode_utf8(b@).len()
            && (r.out_of == vstd::utf8::encode_utf8(a@).len() || r.out_of
            == vstd::utf8::encode_utf8(b@).len()),
{
    lemma_similarity_counts_edits(a@, b@);
}

/// A duration loses nothing up to the tolerance, whichever is the longer, and everything from
/// the falloff on.
pub proof fn lemma_duration_may_be_off(
    actual: u32,
    expected: u32,
    tolerance: u32,
    falloff: u32,
    r: Score,
)
    requires
        call_ensures(
            crate::text_match::duration_score,
            (actual, expected, tolerance, falloff),
            r,
        ),
        tolerance < falloff,
    ensures
        actual <= expected + tolerance && expected <= actual + tolerance ==> r.lost == 0,
        actual >= expected + falloff || expected >= actual + falloff ==> r.lost == r.out_of,
        r.out_of > 0,
{
}

/// The letter case of plain text counts for nothing.
pub proof fn lemma_letter_case_counts_for_nothing(s: Seq<char>)
    requires
        crate::text::ascii(s),
    ensures
        crate::text_match::normalized(crate::text::ascii_lowercase(s))
            == crate::text_match::normalized(s),
{
    let low = crate::text::ascii_lowercase(s);
    assert(crate::text::ascii(low)) by {
        assert forall|i: int| 0 <= i < low.len() implies (#[trigger] low[i]) as u32 <= 0x7f by {
            assert(s[i] as u32 <= 0x7f);
        }
    }
    assert(crate::text::ascii_lowercase(low) =~= low);
}

/// Of the characters of ASCII that can be seen, exactly those are marks that are neither
/// letters nor digits.
pub proof fn lemma_marks_of_ascii(c: char)
    requires
        '!' <= c,
        c <= '~',
    ensures
        crate::punctuation::is_punctuation(c) <==> !('a' <= c && c <= 'z') && !('A' <= c && c
            <= 'Z') && !('0' <= c && c <= '9'),
{
}

} // verus!
