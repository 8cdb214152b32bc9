//! Text matching shared by search ranking and library matching: one
//! normalization, one edit-distance similarity and one duration falloff.
//!
//! Scores lie between nought and one. They are kept as the exact fraction that
//! is missing from one, see [`Score`].
use unicode_normalization::UnicodeNormalization;
use vstd::prelude::*;

use crate::edit_distance::levenshtein;
use crate::punctuation::punctuation;
use crate::text::{collapse_chars, from_chars, str_eq, to_chars, to_lowercase, trim_chars};

verus! {

/// What `UnicodeNormalization::nfc` gives for a string with characters beyond
/// ASCII.
pub uninterp spec fn unicode_nfc(s: Seq<char>) -> Seq<char>;

/// `s` in the composed normal form (NFC). ASCII text is its own.
pub open spec fn nfc(s: Seq<char>) -> Seq<char> {
    if crate::text::ascii(s) {
        s
    } else {
        unicode_nfc(s)
    }
}

/// `UnicodeNormalization::nfc`, collected into a string. Its result is a
/// function of the string, and ASCII text comes out as it went in; which
/// characters come out of other text is not claimed.
#[verifier::external_body]
fn to_nfc(s: &str) -> (r: String)
    ensures
        r@ == (if crate::text::ascii(s@) {
            s@
        } else {
            unicode_nfc(s@)
        }),
{
    s.nfc().collect()
}

/// The bracket that ends a run opened by `c`.
pub open spec fn closing(c: char) -> char {
    if c == '(' {
        ')'
    } else {
        ']'
    }
}

/// `c` opens a parenthetical or bracketed run.
pub open spec fn opens(c: char) -> bool {
    c == '(' || c == '['
}

/// `s` without the characters up to and including the first `close`; nothing
/// where `close` is missing.
pub open spec fn after_first(s: Seq<char>, close: char) -> Seq<char>
    decreases s.len(),
{
    if s.len() == 0 {
        s
    } else if s[0] == close {
        s.skip(1)
    } else {
        after_first(s.skip(1), close)
    }
}

/// Dropping up to a bracket never lengthens a text.
pub proof fn lemma_after_first_shorter(s: Seq<char>, close: char)
    ensures
        after_first(s, close).len() <= s.len(),
    decreases s.len(),
{
    if s.len() > 0 && s[0] != close {
        lemma_after_first_shorter(s.skip(1), close);
    }
}

/// `s` without its parenthetical and bracketed runs. A run ends at the first
/// bracket of its own kind, or with the text.
pub open spec fn without_brackets(s: Seq<char>) -> Seq<char>
    decreases s.len(),
{
    if s.len() == 0 {
        s
    } else if opens(s[0]) {
        proof {
            lemma_after_first_shorter(s.skip(1), closing(s[0]));
        }
        without_brackets(after_first(s.skip(1), closing(s[0])))
    } else {
        seq![s[0]] + without_brackets(s.skip(1))
    }
}

/// `s` without its punctuation marks.
pub open spec fn without_punctuation(s: Seq<char>) -> Seq<char>
    decreases s.len(),
{
    if s.len() == 0 {
        s
    } else if crate::punctuation::is_punctuation(s.last()) {
        without_punctuation(s.drop_last())
    } else {
        without_punctuation(s.drop_last()).push(s.last())
    }
}

/// The normal form of a text that is already composed and in lower case: no
/// bracketed runs, no punctuation, single spaces between words, none at the ends.
pub open spec fn tidied(s: Seq<char>) -> Seq<char> {
    crate::text::collapsed(without_punctuation(without_brackets(crate::text::trimmed(s))))
}

/// The normal form of a text, by which two texts are compared.
pub open spec fn normalized(s: Seq<char>) -> Seq<char> {
    tidied(crate::text::lowercase(nfc(s)))
}

fn strip_brackets(cs: &Vec<char>) -> (r: Vec<char>)
    ensures
        r@ == without_brackets(cs@),
{
    let mut out: Vec<char> = Vec::new();
    let mut inside: bool = false;
    let mut close: char = ' ';
    let mut i: usize = 0;
    assert(cs@.skip(0) =~= cs@);
    assert(out@ + without_brackets(cs@) =~= without_brackets(cs@));
    while i < cs.len()
        invariant
            i <= cs.len(),
            without_brackets(cs@) == out@ + without_brackets(
                if inside {
                    after_first(cs@.skip(i as int), close)
                } else {
                    cs@.skip(i as int)
                },
            ),
        decreases cs.len() - i,
    {
        let ghost rest = cs@.skip(i as int);
        let ghost goal = without_brackets(cs@);
        let ghost out0 = out@;
        assert(rest.skip(1) =~= cs@.skip(i + 1));
        let c = cs[i];
        if inside {
            if c == close {
                inside = false;
            }
        } else if c == '(' || c == '[' {
            inside = true;
            close = if c == '(' {
                ')'
            } else {
                ']'
            };
        } else {
            out.push(c);
            assert(out0 + (seq![c] + without_brackets(rest.skip(1))) =~= out@ + without_brackets(
                rest.skip(1),
            ));
        }
        i += 1;
    }
    assert(cs@.skip(i as int) =~= Seq::empty());
    assert(out@ + without_brackets(Seq::empty()) =~= out@);
    out
}

fn strip_punctuation(cs: &Vec<char>) -> (r: Vec<char>)
    ensures
        r@ == without_punctuation(cs@),
{
    let mut out: Vec<char> = Vec::new();
    let mut i: usize = 0;
    assert(out@ =~= without_punctuation(cs@.take(0)));
    while i < cs.len()
        invariant
            i <= cs.len(),
            out@ == without_punctuation(cs@.take(i as int)),
        decreases cs.len() - i,
    {
        assert(cs@.take(i + 1).drop_last() =~= cs@.take(i as int));
        let c = cs[i];
        if !punctuation(c) {
            out.push(c);
        }
        i += 1;
    }
    assert(cs@.take(i as int) =~= cs@);
    out
}

/// Strip parenthetical and bracketed runs and punctuation and collapse runs of
/// white space of a text that is already composed and in lower case.
pub fn tidy_str(s: &str) -> (r: String)
    ensures
        r@ == tidied(s@),
{
    let bare = strip_brackets(&trim_chars(&to_chars(s)));
    from_chars(&collapse_chars(&strip_punctuation(&bare)))
}

/// Compose (NFC), lower-case, strip parenthetical and bracketed runs such as
/// `(feat. X)` or `[Deluxe Edition]`, strip punctuation, and collapse runs of
/// white space.
///
/// Meant for both sides of a [`similarity`], so that differences of case,
/// punctuation and parenthetical noise cost nothing.
pub fn normalize_str(s: &str) -> (r: String)
    ensures
        r@ == normalized(s@),
        crate::text::no_capitals(r@),
{
    let composed = to_nfc(s);
    let lower = to_lowercase(composed.as_str());
    let r = tidy_str(lower.as_str());
    proof {
        lemma_tidied_idempotent(lower@);
        assert forall|i: int| 0 <= i < r@.len() implies !('A' <= #[trigger] r@[i] && r@[i]
            <= 'Z') by {
            if r@[i] != ' ' {
                let k = choose|k: int| 0 <= k < lower@.len() && lower@[k] == r@[i];
                assert(!('A' <= lower@[k] && lower@[k] <= 'Z'));
            }
        }
    }
    r
}

proof fn lemma_without_brackets_drawn(s: Seq<char>)
    ensures
        crate::text::drawn_from(without_brackets(s), s),
    decreases s.len(),
{
    if s.len() > 0 {
        let r = without_brackets(s);
        if opens(s[0]) {
            let rest = after_first(s.skip(1), closing(s[0]));
            lemma_after_first_shorter(s.skip(1), closing(s[0]));
            lemma_without_brackets_drawn(rest);
            lemma_after_first_drawn(s.skip(1), closing(s[0]));
            assert forall|i: int| 0 <= i < r.len() implies s.contains(#[trigger] r[i]) by {
                let k = choose|k: int| 0 <= k < rest.len() && rest[k] == r[i];
                assert(s.skip(1).contains(rest[k]));
                let j = choose|j: int| 0 <= j < s.skip(1).len() && s.skip(1)[j] == rest[k];
                assert(s[j + 1] == r[i]);
            }
        } else {
            let rest = without_brackets(s.skip(1));
            lemma_without_brackets_drawn(s.skip(1));
            assert forall|i: int| 0 <= i < r.len() implies s.contains(#[trigger] r[i]) by {
                if i == 0 {
                    assert(s[0] == r[i]);
                } else {
                    assert(rest[i - 1] == r[i]);
                    let j = choose|j: int| 0 <= j < s.skip(1).len() && s.skip(1)[j] == rest[i - 1];
                    assert(s[j + 1] == r[i]);
                }
            }
        }
    }
}

proof fn lemma_after_first_drawn(s: Seq<char>, close: char)
    ensures
        crate::text::drawn_from(after_first(s, close), s),
    decreases s.len(),
{
    if s.len() > 0 {
        let t = s.skip(1);
        let r = after_first(s, close);
        if s[0] != close {
            lemma_after_first_drawn(t, close);
        } else {
            assert forall|i: int| 0 <= i < t.len() implies t.contains(#[trigger] t[i]) by {}
        }
        assert forall|i: int| 0 <= i < r.len() implies s.contains(#[trigger] r[i]) by {
            let j = choose|j: int| 0 <= j < t.len() && t[j] == r[i];
            assert(s[j + 1] == r[i]);
        }
    }
}

/// Stripping the punctuation leaves none and adds no character.
pub proof fn lemma_without_punctuation(s: Seq<char>)
    ensures
        crate::text::drawn_from(without_punctuation(s), s),
        forall|i: int|
            0 <= i < without_punctuation(s).len() ==> !crate::punctuation::is_punctuation(
                #[trigger] without_punctuation(s)[i],
            ),
    decreases s.len(),
{
    if s.len() > 0 {
        let t = s.drop_last();
        let before = without_punctuation(t);
        let r = without_punctuation(s);
        lemma_without_punctuation(t);
        assert forall|i: int| 0 <= i < r.len() implies s.contains(#[trigger] r[i])
            && !crate::punctuation::is_punctuation(r[i]) by {
            if i < before.len() {
                assert(r[i] == before[i]);
                let j = choose|j: int| 0 <= j < t.len() && t[j] == before[i];
                assert(s[j] == r[i]);
            } else {
                assert(s[s.len() - 1] == r[i]);
            }
        }
    }
}

/// A text without punctuation is left as it is by the stripping of brackets and
/// of punctuation.
pub proof fn lemma_nothing_to_strip(s: Seq<char>)
    requires
        forall|i: int| 0 <= i < s.len() ==> !crate::punctuation::is_punctuation(#[trigger] s[i]),
    ensures
        without_brackets(s) == s,
        without_punctuation(s) == s,
    decreases s.len(),
{
    if s.len() > 0 {
        assert(!crate::punctuation::is_punctuation(s[0]));
        assert(!crate::punctuation::is_punctuation(s[s.len() - 1]));
        lemma_nothing_to_strip(s.skip(1));
        lemma_nothing_to_strip(s.drop_last());
        assert(seq![s[0]] + s.skip(1) =~= s);
        assert(s.drop_last().push(s.last()) =~= s);
    }
}

/// The normal form of a text in lower case is normal already: tidying it again
/// changes nothing, and it is made of characters of the text and of spaces.
pub proof fn lemma_tidied_idempotent(s: Seq<char>)
    ensures
        tidied(tidied(s)) == tidied(s),
        forall|i: int|
            0 <= i < tidied(s).len() ==> (#[trigger] tidied(s)[i] == ' ' || s.contains(
                tidied(s)[i],
            )),
{
    let t = crate::text::trimmed(s);
    let b = without_brackets(t);
    let p = without_punctuation(b);
    let r = tidied(s);
    crate::text::lemma_trimmed_drawn(s);
    lemma_without_brackets_drawn(t);
    lemma_without_punctuation(b);
    crate::text::lemma_collapsed_single_spaced(p);
    assert forall|i: int| 0 <= i < r.len() implies !crate::punctuation::is_punctuation(
        #[trigger] r[i],
    ) && (r[i] == ' ' || s.contains(r[i])) by {
        if r[i] != ' ' {
            let k = choose|k: int| 0 <= k < p.len() && p[k] == r[i];
            assert(b.contains(p[k]));
            let j = choose|j: int| 0 <= j < b.len() && b[j] == p[k];
            assert(t.contains(b[j]));
            let l = choose|l: int| 0 <= l < t.len() && t[l] == b[j];
            assert(s.contains(t[l]));
        }
    }
    lemma_nothing_to_strip(r);
    crate::text::lemma_trimmed_fixed(r);
    crate::text::lemma_collapsed_fixed(r);
}

/// Normalizing is idempotent: the normal form of ASCII text is its own normal
/// form.
pub proof fn lemma_normalized_idempotent(s: Seq<char>)
    requires
        crate::text::ascii(s),
    ensures
        normalized(normalized(s)) == normalized(s),
{
    let low = crate::text::lowercase(s);
    let r = normalized(s);
    crate::text::lemma_lowercase_ascii(s);
    lemma_tidied_idempotent(low);
    assert forall|i: int| 0 <= i < r.len() implies (#[trigger] r[i]) as u32 <= 0x7f
        && crate::text::ascii_lower(r[i]) == r[i] by {
        if r[i] != ' ' {
            let k = choose|k: int| 0 <= k < low.len() && low[k] == r[i];
            assert(low[k] as u32 <= 0x7f);
            assert(crate::text::ascii_lowercase(low)[k] == low[k]);
        }
    }
    assert(crate::text::ascii_lowercase(r) =~= r);
}

/// Letter case costs nothing: ASCII text in upper case has the normal form of the
/// text itself.
pub proof fn lemma_normalized_any_case(s: Seq<char>)
    requires
        crate::text::ascii(s),
    ensures
        normalized(crate::text::ascii_uppercase(s)) == normalized(s),
{
    crate::text::lemma_lowercase_ascii(s);
}

/// Padding costs nothing: white space round ASCII text leaves its normal form as
/// it is.
pub proof fn lemma_normalized_padded(front: Seq<char>, s: Seq<char>, back: Seq<char>)
    requires
        crate::text::ascii(front + s + back),
        forall|i: int| 0 <= i < front.len() ==> crate::text::white_space(#[trigger] front[i]),
        forall|i: int| 0 <= i < back.len() ==> crate::text::white_space(#[trigger] back[i]),
    ensures
        normalized(front + s + back) == normalized(s),
{
    let all = front + s + back;
    let low = crate::text::ascii_lowercase(s);
    assert forall|i: int| 0 <= i < s.len() implies (#[trigger] s[i]) as u32 <= 0x7f by {
        assert(all[i + front.len()] as u32 <= 0x7f);
    }
    assert(crate::text::ascii_lowercase(all) =~= front + low + back);
    crate::text::lemma_trimmed_padded(front, low, back);
}

/// Stripping leaves no opening bracket, so stripping again changes nothing.
pub proof fn lemma_without_brackets_idempotent(s: Seq<char>)
    ensures
        forall|i: int|
            0 <= i < without_brackets(s).len() ==> !opens(#[trigger] without_brackets(s)[i]),
        without_brackets(without_brackets(s)) == without_brackets(s),
    decreases s.len(),
{
    if s.len() > 0 {
        if opens(s[0]) {
            lemma_after_first_shorter(s.skip(1), closing(s[0]));
            lemma_without_brackets_idempotent(after_first(s.skip(1), closing(s[0])));
        } else {
            let rest = without_brackets(s.skip(1));
            lemma_without_brackets_idempotent(s.skip(1));
            assert(without_brackets(s).skip(1) =~= rest);
        }
    }
}

/// A score between nought and one: `1 - lost / out_of`.
#[derive(Debug, Clone, Copy, PartialEq, Eq, Structural)]
pub struct Score {
    pub lost: u64,
    pub out_of: u64,
}

impl Score {
    /// The fraction lies between nought and one.
    pub open spec fn valid(self) -> bool {
        0 < self.out_of && self.lost <= self.out_of
    }

    /// The score is one.
    pub open spec fn is_one(self) -> bool {
        self.lost == 0
    }
}

/// The number of bytes of the longer of two texts.
pub open spec fn longer_bytes(a: Seq<char>, b: Seq<char>) -> nat {
    let m = vstd::utf8::encode_utf8(a).len();
    let n = vstd::utf8::encode_utf8(b).len();
    if m >= n {
        m
    } else {
        n
    }
}

proof fn lemma_bytes_at_least_chars(s: Seq<char>)
    ensures
        s.len() <= vstd::utf8::encode_utf8(s).len(),
    decreases s.len(),
{
    if s.len() > 0 {
        lemma_bytes_at_least_chars(s.drop_first());
    }
}

/// How far two texts are from being the same: nothing is lost between equal
/// texts, else their edit distance out of the longer one's length in bytes.
pub open spec fn similarity_of(a: Seq<char>, b: Seq<char>) -> (nat, nat) {
    if a == b {
        (0, 1)
    } else {
        (crate::edit_distance::distance(a, b), longer_bytes(a, b))
    }
}

/// Edit-distance similarity. Both texts are normally passed through
/// [`normalize_str`] first.
pub fn similarity(a: &str, b: &str) -> (r: Score)
    ensures
        (r.lost as nat, r.out_of as nat) == similarity_of(a@, b@),
        r.valid(),
        r.is_one() <==> a@ == b@,
{
    if str_eq(a, b) {
        return Score { lost: 0, out_of: 1 };
    }
    let a_len: usize = a.as_bytes().len();
    let b_len: usize = b.as_bytes().len();
    let longest: usize = if a_len >= b_len {
        a_len
    } else {
        b_len
    };
    let dist: usize = levenshtein(a, b);
    proof {
        lemma_bytes_at_least_chars(a@);
        lemma_bytes_at_least_chars(b@);
        crate::edit_distance::lemma_distance_at_most_longer(a@, b@);
        if dist == 0 {
            crate::edit_distance::lemma_distance_zero(a@, b@);
        }
    }
    Score { lost: dist as u64, out_of: longest as u64 }
}

/// The similarity of two texts is the same both ways.
pub proof fn lemma_similarity_symmetric(a: Seq<char>, b: Seq<char>)
    ensures
        similarity_of(a, b) == similarity_of(b, a),
{
    crate::edit_distance::lemma_distance_symmetric(a, b);
}

/// How far apart two numbers are.
pub open spec fn gap(a: int, b: int) -> int {
    if a >= b {
        a - b
    } else {
        b - a
    }
}

/// What a difference of `diff` seconds loses: nothing up to `tolerance`, all
/// from `falloff` on, and a growing share in between.
pub open spec fn duration_loss(diff: int, tolerance: int, falloff: int) -> (int, int) {
    if diff <= tolerance {
        (0, 1)
    } else if diff >= falloff {
        (1, 1)
    } else {
        (diff - tolerance, falloff - tolerance)
    }
}

/// Duration similarity: one up to `tolerance_secs` of difference, nought from
/// `falloff_secs` on, linear in between.
pub fn duration_score(
    actual_secs: u32,
    expected_secs: u32,
    tolerance_secs: u32,
    falloff_secs: u32,
) -> (r: Score)
    requires
        tolerance_secs < falloff_secs,
    ensures
        (r.lost as int, r.out_of as int) == duration_loss(
            gap(actual_secs as int, expected_secs as int),
            tolerance_secs as int,
            falloff_secs as int,
        ),
        r.valid(),
{
    let diff: u32 = if actual_secs >= expected_secs {
        actual_secs - expected_secs
    } else {
        expected_secs - actual_secs
    };
    if diff <= tolerance_secs {
        Score { lost: 0, out_of: 1 }
    } else if diff >= falloff_secs {
        Score { lost: 1, out_of: 1 }
    } else {
        Score {
            lost: (diff - tolerance_secs) as u64,
            out_of: (falloff_secs - tolerance_secs) as u64,
        }
    }
}

/// Whole seconds of a number of milliseconds: nought for a negative one, and
/// the low 32 bits of what does not fit.
pub open spec fn whole_secs(ms: int) -> int {
    if ms < 0 {
        0
    } else {
        (ms / 1000) % 0x1_0000_0000
    }
}

fn to_secs(ms: i64) -> (r: u32)
    ensures
        r == whole_secs(ms as int),
{
    if ms < 0 {
        0
    } else {
        let secs: u64 = (ms as u64) / 1000;
        assert(secs as u32 == secs % 0x1_0000_0000u64) by (bit_vector);
        secs as u32
    }
}

/// [`duration_score`] for callers that hold milliseconds.
pub fn duration_score_ms(
    actual_ms: i64,
    expected_ms: i64,
    tolerance_secs: u32,
    falloff_secs: u32,
) -> (r: Score)
    requires
        tolerance_secs < falloff_secs,
    ensures
        (r.lost as int, r.out_of as int) == duration_loss(
            gap(whole_secs(actual_ms as int), whole_secs(expected_ms as int)),
            tolerance_secs as int,
            falloff_secs as int,
        ),
        r.valid(),
{
    duration_score(to_secs(actual_ms), to_secs(expected_ms), tolerance_secs, falloff_secs)
}

/// The duration score is the same both ways.
pub proof fn lemma_duration_symmetric(a: int, b: int, tolerance: int, falloff: int)
    ensures
        duration_loss(gap(a, b), tolerance, falloff) == duration_loss(
            gap(b, a),
            tolerance,
            falloff,
        ),
{
}

/// A wider difference never scores higher.
pub proof fn lemma_duration_monotone(near: int, far: int, tolerance: int, falloff: int)
    requires
        0 <= near <= far,
        0 <= tolerance < falloff,
    ensures
        ({
            let (l1, o1) = duration_loss(near, tolerance, falloff);
            let (l2, o2) = duration_loss(far, tolerance, falloff);
            l1 * o2 <= l2 * o1
        }),
{
    let (l1, o1) = duration_loss(near, tolerance, falloff);
    let (l2, o2) = duration_loss(far, tolerance, falloff);
    assert(l1 * o2 <= l2 * o1) by (nonlinear_arith)
        requires
            0 <= l1 <= o1,
            0 <= l2 <= o2,
            0 < o1,
            0 < o2,
            l1 == 0 || l2 == o2 || (o1 == o2 && l1 <= l2),
    ;
}

} // verus!
