//! Strings as sequences of characters: the handful of `str` operations the
//! rest of the crate is built on, each with a direct statement of its result.
use vstd::prelude::*;

verus! {

/// `String::push` appends one character.
pub assume_specification[ String::push ](s: &mut String, c: char)
    ensures
        final(s)@ == old(s)@.push(c),
;

/// A character that has the Unicode `White_Space` property.
pub open spec fn white_space(c: char) -> bool {
    ||| 0x9 <= c as u32 <= 0xd
    ||| c as u32 == 0x20
    ||| c as u32 == 0x85
    ||| c as u32 == 0xa0
    ||| c as u32 == 0x1680
    ||| 0x2000 <= c as u32 <= 0x200a
    ||| c as u32 == 0x2028
    ||| c as u32 == 0x2029
    ||| c as u32 == 0x202f
    ||| c as u32 == 0x205f
    ||| c as u32 == 0x3000
}

/// `char::is_whitespace`: the character is one of those that the Unicode
/// Character Database lists with the property `White_Space`.
#[verifier::external_body]
fn char_is_whitespace(c: char) -> (r: bool)
    ensures
        r == white_space(c),
{
    c.is_whitespace()
}

/// Every character of `s` is an ASCII character.
pub open spec fn ascii(s: Seq<char>) -> bool {
    forall|i: int| 0 <= i < s.len() ==> (#[trigger] s[i]) as u32 <= 0x7f
}

/// `c` in lower case where it is one of the letters `A` to `Z`.
pub open spec fn ascii_lower(c: char) -> char {
    if 'A' <= c && c <= 'Z' {
        (c as u32 + 32) as char
    } else {
        c
    }
}

/// `c` in upper case where it is one of the letters `a` to `z`.
pub open spec fn ascii_upper(c: char) -> char {
    if 'a' <= c && c <= 'z' {
        (c as u32 - 32) as char
    } else {
        c
    }
}

/// `s` with its ASCII letters in lower case.
pub open spec fn ascii_lowercase(s: Seq<char>) -> Seq<char> {
    Seq::new(s.len(), |i: int| ascii_lower(s[i]))
}

/// `s` with its ASCII letters in upper case.
pub open spec fn ascii_uppercase(s: Seq<char>) -> Seq<char> {
    Seq::new(s.len(), |i: int| ascii_upper(s[i]))
}

/// `s` holds none of the letters `A` to `Z`.
pub open spec fn no_capitals(s: Seq<char>) -> bool {
    forall|i: int| 0 <= i < s.len() ==> !('A' <= #[trigger] s[i] && s[i] <= 'Z')
}

/// What `str::to_lowercase` gives for a string with characters beyond ASCII.
pub uninterp spec fn unicode_lowercase(s: Seq<char>) -> Seq<char>;

/// `s` in lower case.
pub open spec fn lowercase(s: Seq<char>) -> Seq<char> {
    if ascii(s) {
        ascii_lowercase(s)
    } else {
        unicode_lowercase(s)
    }
}

/// `str::to_lowercase`. Its result is a function of the string. Of ASCII text it
/// changes the letters `A` to `Z` alone, and none of these is left of any text; which
/// other characters come out of other text is not claimed.
#[verifier::external_body]
pub(crate) fn to_lowercase(s: &str) -> (r: String)
    ensures
        r@ == (if ascii(s@) {
            ascii_lowercase(s@)
        } else {
            unicode_lowercase(s@)
        }),
        no_capitals(r@),
{
    s.to_lowercase()
}

/// ASCII text in lower case is ASCII, without capitals, and the same whether its
/// letters were in upper case before.
pub proof fn lemma_lowercase_ascii(s: Seq<char>)
    requires
        ascii(s),
    ensures
        lowercase(s) == ascii_lowercase(s),
        ascii(lowercase(s)),
        ascii(ascii_uppercase(s)),
        lowercase(lowercase(s)) == lowercase(s),
        lowercase(ascii_uppercase(s)) == lowercase(s),
{
    let up = ascii_uppercase(s);
    let low = ascii_lowercase(s);
    assert forall|i: int| 0 <= i < s.len() implies (#[trigger] low[i]) as u32 <= 0x7f && ascii_lower(
        low[i],
    ) == low[i] && up[i] as u32 <= 0x7f && ascii_lower(up[i]) == low[i] by {
        assert(s[i] as u32 <= 0x7f);
    }
    assert forall|i: int| 0 <= i < s.len() implies (#[trigger] up[i]) as u32 <= 0x7f by {
        assert(low[i] as u32 <= 0x7f);
    }
    assert(ascii_lowercase(low) =~= low);
    assert(ascii_lowercase(up) =~= low);
}

/// The characters of a string.
pub fn to_chars(s: &str) -> (r: Vec<char>)
    ensures
        r@ == s@,
{
    let mut out: Vec<char> = Vec::new();
    for c in it: s.chars()
        invariant
            out@ == it.seq().take(it.index()),
            it.seq() == s@,
    {
        out.push(c);
    }
    out
}

/// The string that holds the given characters.
pub fn from_chars(cs: &Vec<char>) -> (r: String)
    ensures
        r@ == cs@,
{
    let mut out = String::new();
    let mut i: usize = 0;
    while i < cs.len()
        invariant
            i <= cs.len(),
            out@ == cs@.take(i as int),
        decreases cs.len() - i,
    {
        out.push(cs[i]);
        i += 1;
    }
    out
}

/// The characters from `i` up to, not including, `j`.
pub fn sub_chars(cs: &Vec<char>, i: usize, j: usize) -> (r: Vec<char>)
    requires
        i <= j <= cs.len(),
    ensures
        r@ == cs@.subrange(i as int, j as int),
{
    let mut out: Vec<char> = Vec::new();
    let mut k: usize = i;
    while k < j
        invariant
            i <= k <= j <= cs.len(),
            out@ == cs@.subrange(i as int, k as int),
        decreases j - k,
    {
        out.push(cs[k]);
        k += 1;
    }
    out
}

/// Whether two runs of characters are the same.
pub fn chars_eq(a: &Vec<char>, b: &Vec<char>) -> (r: bool)
    ensures
        r == (a@ == b@),
{
    if a.len() != b.len() {
        return false;
    }
    let mut i: usize = 0;
    while i < a.len()
        invariant
            a.len() == b.len(),
            i <= a.len(),
            forall|k: int| 0 <= k < i ==> a@[k] == b@[k],
        decreases a.len() - i,
    {
        if a[i] != b[i] {
            return false;
        }
        i += 1;
    }
    assert(a@ =~= b@);
    true
}

/// Two strings one after the other.
pub fn append_str(a: &str, b: &str) -> (r: String)
    ensures
        r@ == a@ + b@,
{
    let mut out = a.to_owned();
    out.append(b);
    out
}

/// Whether two strings hold the same characters.
pub fn str_eq(a: &str, b: &str) -> (r: bool)
    ensures
        r == (a@ == b@),
{
    chars_eq(&to_chars(a), &to_chars(b))
}

// ---- trimming -------------------------------------------------------------

/// `s` without its leading white space.
pub open spec fn trim_start(s: Seq<char>) -> Seq<char>
    decreases s.len(),
{
    if s.len() > 0 && white_space(s[0]) {
        trim_start(s.skip(1))
    } else {
        s
    }
}

/// `s` without its trailing white space.
pub open spec fn trim_end(s: Seq<char>) -> Seq<char>
    decreases s.len(),
{
    if s.len() > 0 && white_space(s.last()) {
        trim_end(s.drop_last())
    } else {
        s
    }
}

/// `s` without the white space at either end.
pub open spec fn trimmed(s: Seq<char>) -> Seq<char> {
    trim_end(trim_start(s))
}

proof fn lemma_trim_start_at(s: Seq<char>, i: int)
    requires
        0 <= i <= s.len(),
        forall|k: int| 0 <= k < i ==> white_space(#[trigger] s[k]),
        i < s.len() ==> !white_space(s[i]),
    ensures
        trim_start(s) == s.skip(i),
    decreases i,
{
    if i > 0 {
        let t = s.skip(1);
        assert forall|k: int| 0 <= k < i - 1 implies white_space(#[trigger] t[k]) by {
            assert(white_space(s[k + 1]));
        }
        assert(white_space(s[0]));
        lemma_trim_start_at(t, i - 1);
        assert(t.skip(i - 1) =~= s.skip(i));
    } else {
        assert(s.skip(0) =~= s);
    }
}

proof fn lemma_trim_end_at(s: Seq<char>, j: int)
    requires
        0 <= j <= s.len(),
        forall|k: int| j <= k < s.len() ==> white_space(#[trigger] s[k]),
        j > 0 ==> !white_space(s[j - 1]),
    ensures
        trim_end(s) == s.take(j),
    decreases s.len() - j,
{
    if j < s.len() {
        let t = s.drop_last();
        assert(white_space(s[s.len() - 1]));
        assert forall|k: int| j <= k < t.len() implies white_space(#[trigger] t[k]) by {
            assert(white_space(s[k]));
        }
        lemma_trim_end_at(t, j);
        assert(t.take(j) =~= s.take(j));
    } else {
        assert(s.take(j) =~= s);
    }
}

/// Drop the white space at both ends.
pub fn trim_chars(cs: &Vec<char>) -> (r: Vec<char>)
    ensures
        r@ == trimmed(cs@),
{
    let n: usize = cs.len();
    let mut i: usize = 0;
    while i < n && char_is_whitespace(cs[i])
        invariant
            n == cs.len(),
            i <= n,
            forall|k: int| 0 <= k < i ==> white_space(#[trigger] cs@[k]),
        decreases n - i,
    {
        i += 1;
    }
    let mut j: usize = n;
    while j > i && char_is_whitespace(cs[j - 1])
        invariant
            n == cs.len(),
            i <= j <= n,
            forall|k: int| j <= k < n ==> white_space(#[trigger] cs@[k]),
        decreases j,
    {
        j -= 1;
    }
    proof {
        lemma_trim_start_at(cs@, i as int);
        let t = cs@.skip(i as int);
        assert forall|k: int| j - i <= k < t.len() implies white_space(#[trigger] t[k]) by {
            assert(white_space(cs@[k + i]));
        }
        lemma_trim_end_at(t, j - i);
        assert(t.take(j - i) =~= cs@.subrange(i as int, j as int));
    }
    sub_chars(cs, i, j)
}

/// The ends of a trimmed text are no white space.
pub proof fn lemma_trimmed_ends(s: Seq<char>)
    ensures
        trimmed(s).len() > 0 ==> !white_space(trimmed(s)[0]) && !white_space(trimmed(s).last()),
{
    lemma_trim_start_head(s);
    lemma_trim_end_last(trim_start(s));
}

proof fn lemma_trim_start_head(s: Seq<char>)
    ensures
        trim_start(s).len() > 0 ==> !white_space(trim_start(s)[0]),
    decreases s.len(),
{
    if s.len() > 0 && white_space(s[0]) {
        lemma_trim_start_head(s.skip(1));
    }
}

proof fn lemma_trim_end_last(s: Seq<char>)
    ensures
        trim_end(s).len() > 0 ==> !white_space(trim_end(s).last()),
        trim_end(s).len() > 0 ==> s.len() > 0 && trim_end(s)[0] == s[0],
    decreases s.len(),
{
    if s.len() > 0 && white_space(s.last()) {
        lemma_trim_end_last(s.drop_last());
    }
}

/// Trimming a trimmed text changes nothing.
pub proof fn lemma_trimmed_idempotent(s: Seq<char>)
    ensures
        trimmed(trimmed(s)) == trimmed(s),
{
    lemma_trimmed_ends(s);
}

proof fn lemma_trim_start_pushed(s: Seq<char>, c: char)
    requires
        white_space(c),
    ensures
        trim_start(s).len() > 0 ==> trim_start(s.push(c)) == trim_start(s).push(c),
        trim_start(s).len() == 0 ==> trim_start(s.push(c)).len() == 0,
    decreases s.len(),
{
    let t = s.push(c);
    if s.len() == 0 {
        assert(t.skip(1).len() == 0);
        assert(trim_start(t) == trim_start(t.skip(1)));
    } else if white_space(s[0]) {
        lemma_trim_start_pushed(s.skip(1), c);
        assert(t.skip(1) =~= s.skip(1).push(c));
    }
}

/// White space put round a text is trimmed with the text's own.
pub proof fn lemma_trimmed_padded(front: Seq<char>, s: Seq<char>, back: Seq<char>)
    requires
        forall|i: int| 0 <= i < front.len() ==> white_space(#[trigger] front[i]),
        forall|i: int| 0 <= i < back.len() ==> white_space(#[trigger] back[i]),
    ensures
        trimmed(front + s + back) == trimmed(s),
    decreases front.len() + back.len(),
{
    let all = front + s + back;
    if back.len() > 0 {
        let shorter = front + s + back.drop_last();
        lemma_trimmed_padded(front, s, back.drop_last());
        assert(white_space(back[back.len() - 1]));
        lemma_trim_start_pushed(shorter, back.last());
        assert(all =~= shorter.push(back.last()));
        if trim_start(shorter).len() > 0 {
            assert(trim_start(shorter).push(back.last()).drop_last() =~= trim_start(shorter));
        } else {
            assert(trim_start(all) =~= trim_start(shorter));
        }
    } else if front.len() > 0 {
        lemma_trimmed_padded(front.skip(1), s, back);
        assert(white_space(front[0]));
        assert(all.skip(1) =~= front.skip(1) + s + back);
    } else {
        assert(all =~= s);
    }
}

/// A text whose ends are no white space is trimmed already.
pub proof fn lemma_trimmed_fixed(s: Seq<char>)
    requires
        s.len() > 0 ==> !white_space(s[0]) && !white_space(s.last()),
    ensures
        trimmed(s) == s,
{
}

/// Every character of `r` is one of those of `s`.
pub open spec fn drawn_from(r: Seq<char>, s: Seq<char>) -> bool {
    forall|i: int| 0 <= i < r.len() ==> s.contains(#[trigger] r[i])
}

/// Trimming adds no character.
pub proof fn lemma_trimmed_drawn(s: Seq<char>)
    ensures
        drawn_from(trimmed(s), s),
{
    lemma_trim_start_drawn(s);
    lemma_trim_end_drawn(trim_start(s));
    assert forall|i: int| 0 <= i < trimmed(s).len() implies s.contains(#[trigger] trimmed(s)[i]) by {
        let k = choose|k: int|
            0 <= k < trim_start(s).len() && trim_start(s)[k] == trimmed(s)[i];
        assert(s.contains(trim_start(s)[k]));
    }
}

proof fn lemma_trim_start_drawn(s: Seq<char>)
    ensures
        drawn_from(trim_start(s), s),
    decreases s.len(),
{
    if s.len() > 0 && white_space(s[0]) {
        let t = s.skip(1);
        lemma_trim_start_drawn(t);
        assert forall|i: int| 0 <= i < trim_start(s).len() implies s.contains(
            #[trigger] trim_start(s)[i],
        ) by {
            let k = choose|k: int| 0 <= k < t.len() && t[k] == trim_start(t)[i];
            assert(s[k + 1] == trim_start(s)[i]);
        }
    } else {
        assert forall|i: int| 0 <= i < s.len() implies s.contains(#[trigger] s[i]) by {}
    }
}

proof fn lemma_trim_end_drawn(s: Seq<char>)
    ensures
        drawn_from(trim_end(s), s),
    decreases s.len(),
{
    if s.len() > 0 && white_space(s.last()) {
        let t = s.drop_last();
        lemma_trim_end_drawn(t);
        assert forall|i: int| 0 <= i < trim_end(s).len() implies s.contains(
            #[trigger] trim_end(s)[i],
        ) by {
            let k = choose|k: int| 0 <= k < t.len() && t[k] == trim_end(t)[i];
            assert(s[k] == trim_end(s)[i]);
        }
    } else {
        assert forall|i: int| 0 <= i < s.len() implies s.contains(#[trigger] s[i]) by {}
    }
}

// ---- splitting and joining ------------------------------------------------

/// The parts of `s` between occurrences of `sep`: always at least one, empty
/// parts included.
pub open spec fn split_on(s: Seq<char>, sep: char) -> Seq<Seq<char>>
    decreases s.len(),
{
    if s.len() == 0 {
        seq![Seq::empty()]
    } else {
        let before = split_on(s.drop_last(), sep);
        if s.last() == sep {
            before.push(Seq::empty())
        } else {
            before.drop_last().push(before.last().push(s.last()))
        }
    }
}

/// The parts laid end to end with `sep` between them.
pub open spec fn join_with(parts: Seq<Seq<char>>, sep: Seq<char>) -> Seq<char>
    decreases parts.len(),
{
    if parts.len() == 0 {
        Seq::empty()
    } else if parts.len() == 1 {
        parts[0]
    } else {
        join_with(parts.drop_last(), sep) + sep + parts.last()
    }
}

/// The characters held by each of a sequence of character vectors.
pub open spec fn parts_view(v: Seq<Vec<char>>) -> Seq<Seq<char>> {
    Seq::new(v.len(), |i: int| v[i]@)
}

/// Split at every `sep`.
pub fn split_chars(cs: &Vec<char>, sep: char) -> (r: Vec<Vec<char>>)
    ensures
        parts_view(r@) == split_on(cs@, sep),
        r@.len() >= 1,
{
    let mut out: Vec<Vec<char>> = Vec::new();
    let mut part: Vec<char> = Vec::new();
    let mut i: usize = 0;
    assert(parts_view(out@).push(part@) =~= split_on(cs@.take(0), sep));
    while i < cs.len()
        invariant
            i <= cs.len(),
            parts_view(out@).push(part@) == split_on(cs@.take(i as int), sep),
        decreases cs.len() - i,
    {
        let ghost before = split_on(cs@.take(i as int), sep);
        assert(cs@.take(i + 1).drop_last() =~= cs@.take(i as int));
        let ghost out0 = out@;
        let ghost part0 = part@;
        assert(before.drop_last() =~= parts_view(out0));
        if cs[i] == sep {
            out.push(part);
            assert(parts_view(out@) =~= parts_view(out0).push(part0));
            part = Vec::new();
        } else {
            part.push(cs[i]);
        }
        i += 1;
        assert(parts_view(out@).push(part@) =~= split_on(cs@.take(i as int), sep));
    }
    assert(cs@.take(i as int) =~= cs@);
    let ghost out0 = out@;
    let ghost part0 = part@;
    out.push(part);
    assert(parts_view(out@) =~= parts_view(out0).push(part0));
    out
}

/// Joining the parts of a split gives the text back, and no part holds the
/// separator.
pub proof fn lemma_split_join(s: Seq<char>, sep: char)
    ensures
        join_with(split_on(s, sep), seq![sep]) == s,
        split_on(s, sep).len() >= 1,
        forall|i: int|
            0 <= i < split_on(s, sep).len() ==> !(#[trigger] split_on(s, sep)[i]).contains(sep),
    decreases s.len(),
{
    if s.len() == 0 {
        assert(join_with(split_on(s, sep), seq![sep]) =~= s);
    } else {
        let t = s.drop_last();
        let before = split_on(t, sep);
        let now = split_on(s, sep);
        lemma_split_join(t, sep);
        assert(s =~= t.push(s.last()));
        if s.last() == sep {
            assert(now.drop_last() =~= before);
            assert(join_with(now, seq![sep]) =~= s);
        } else {
            assert(now.drop_last() =~= before.drop_last());
            assert(join_with(now, seq![sep]) =~= s);
            assert forall|i: int| 0 <= i < now.len() implies !(#[trigger] now[i]).contains(sep) by {
                if i < now.len() - 1 {
                    assert(now[i] == before[i]);
                } else {
                    let p = before.last();
                    assert(now[i] == p.push(s.last()));
                    assert(!before[before.len() - 1].contains(sep));
                    if now[i].contains(sep) {
                        let k = choose|k: int| 0 <= k < now[i].len() && now[i][k] == sep;
                        assert(p[k] == sep);
                    }
                }
            }
        }
    }
}

/// The maximal runs of characters that are no white space.
pub open spec fn words(s: Seq<char>) -> Seq<Seq<char>>
    decreases s.len(),
{
    if s.len() == 0 {
        Seq::empty()
    } else {
        let before = words(s.drop_last());
        if white_space(s.last()) {
            before
        } else if s.len() > 1 && !white_space(s[s.len() - 2]) {
            before.drop_last().push(before.last().push(s.last()))
        } else {
            before.push(seq![s.last()])
        }
    }
}

/// The words of `s` with one space between each two.
pub open spec fn collapsed(s: Seq<char>) -> Seq<char> {
    join_with(words(s), seq![' '])
}

proof fn lemma_join_extend_last(parts: Seq<Seq<char>>, sep: Seq<char>, c: char)
    requires
        parts.len() > 0,
    ensures
        join_with(parts.drop_last().push(parts.last().push(c)), sep) == join_with(parts, sep).push(c),
{
    let ext = parts.drop_last().push(parts.last().push(c));
    assert(ext.drop_last() =~= parts.drop_last());
    assert(join_with(ext, sep) =~= join_with(parts, sep).push(c));
}

proof fn lemma_join_push(parts: Seq<Seq<char>>, sep: Seq<char>, part: Seq<char>)
    requires
        parts.len() > 0,
    ensures
        join_with(parts.push(part), sep) == join_with(parts, sep) + sep + part,
{
    assert(parts.push(part).drop_last() =~= parts);
}

/// Replace every run of white space by one space, and drop it at the ends.
pub fn collapse_chars(cs: &Vec<char>) -> (r: Vec<char>)
    ensures
        r@ == collapsed(cs@),
{
    let mut out: Vec<char> = Vec::new();
    let mut any: bool = false;
    let mut in_word: bool = false;
    let mut i: usize = 0;
    assert(out@ =~= collapsed(cs@.take(0)));
    while i < cs.len()
        invariant
            i <= cs.len(),
            out@ == collapsed(cs@.take(i as int)),
            any == (words(cs@.take(i as int)).len() > 0),
            in_word == (i > 0 && !white_space(cs@[i - 1])),
            in_word ==> any,
        decreases cs.len() - i,
    {
        let ghost t = cs@.take(i + 1);
        let ghost before = words(cs@.take(i as int));
        assert(t.drop_last() =~= cs@.take(i as int));
        let c = cs[i];
        if char_is_whitespace(c) {
            in_word = false;
        } else if in_word {
            proof {
                lemma_join_extend_last(before, seq![' '], c);
            }
            out.push(c);
        } else {
            proof {
                if before.len() > 0 {
                    lemma_join_push(before, seq![' '], seq![c]);
                } else {
                    assert(before.push(seq![c]) =~= seq![seq![c]]);
                }
            }
            if any {
                out.push(' ');
            }
            out.push(c);
            assert(out@ =~= collapsed(t));
            any = true;
            in_word = true;
        }
        i += 1;
    }
    assert(cs@.take(i as int) =~= cs@);
    out
}

/// White space stands in `r` as single spaces between words only.
pub open spec fn single_spaced(r: Seq<char>) -> bool {
    &&& r.len() > 0 ==> !white_space(r[0]) && !white_space(r.last())
    &&& forall|i: int| 0 <= i < r.len() && white_space(#[trigger] r[i]) ==> r[i] == ' '
    &&& forall|i: int|
        0 <= i < r.len() - 1 && white_space(#[trigger] r[i]) ==> !white_space(r[i + 1])
}

/// Collapsing leaves single spaces between words only, and adds no other
/// character.
pub proof fn lemma_collapsed_single_spaced(s: Seq<char>)
    ensures
        single_spaced(collapsed(s)),
        forall|i: int|
            0 <= i < collapsed(s).len() ==> (#[trigger] collapsed(s)[i] == ' ' || s.contains(
                collapsed(s)[i],
            )),
        words(s).len() > 0 <==> collapsed(s).len() > 0,
        s.len() > 0 && !white_space(s.last()) ==> words(s).len() > 0,
    decreases s.len(),
{
    if s.len() > 0 {
        let t = s.drop_last();
        let before = words(t);
        let old_text = collapsed(t);
        let new_text = collapsed(s);
        let c = s.last();
        lemma_collapsed_single_spaced(t);
        assert forall|x: char| t.contains(x) implies s.contains(x) by {
            let k = choose|k: int| 0 <= k < t.len() && t[k] == x;
            assert(s[k] == x);
        }
        assert(s[s.len() - 1] == c && s.contains(c));
        if white_space(c) {
        } else if s.len() > 1 && !white_space(s[s.len() - 2]) {
            assert(t.last() == s[s.len() - 2]);
            lemma_join_extend_last(before, seq![' '], c);
            assert(new_text == old_text.push(c));
        } else if before.len() > 0 {
            lemma_join_push(before, seq![' '], seq![c]);
            assert(new_text =~= old_text.push(' ').push(c));
        } else {
            assert(before.push(seq![c]) =~= seq![seq![c]]);
            assert(new_text =~= seq![c]);
        }
    }
}

proof fn lemma_collapsed_prefix(r: Seq<char>)
    requires
        r.len() > 0 ==> !white_space(r[0]),
        forall|i: int| 0 <= i < r.len() && white_space(#[trigger] r[i]) ==> r[i] == ' ',
        forall|i: int|
            0 <= i < r.len() - 1 && white_space(#[trigger] r[i]) ==> !white_space(r[i + 1]),
    ensures
        words(r).len() > 0 <==> r.len() > 0,
        collapsed(r) == if r.len() > 0 && white_space(r.last()) {
            r.drop_last()
        } else {
            r
        },
    decreases r.len(),
{
    if r.len() == 0 {
        assert(collapsed(r) =~= r);
    } else {
        let t = r.drop_last();
        let before = words(t);
        let c = r.last();
        assert forall|i: int| 0 <= i < t.len() && white_space(#[trigger] t[i]) implies t[i] == ' ' by {
            assert(white_space(r[i]));
        }
        assert forall|i: int| 0 <= i < t.len() - 1 && white_space(#[trigger] t[i]) implies !white_space(
            t[i + 1],
        ) by {
            assert(white_space(r[i]));
        }
        lemma_collapsed_prefix(t);
        if white_space(c) {
            assert(t.len() > 0);
            assert(!white_space(t.last())) by {
                if white_space(r[r.len() - 2]) {
                }
            }
        } else if r.len() > 1 && !white_space(r[r.len() - 2]) {
            lemma_join_extend_last(before, seq![' '], c);
            assert(r =~= t.push(c));
        } else if r.len() > 1 {
            lemma_join_push(before, seq![' '], seq![c]);
            assert(r =~= t.drop_last() + seq![' '] + seq![c]);
        } else {
            assert(before.push(seq![c]) =~= seq![seq![c]]);
            assert(r =~= seq![c]);
        }
    }
}

/// Collapsing again changes nothing.
pub proof fn lemma_collapsed_fixed(r: Seq<char>)
    requires
        single_spaced(r),
    ensures
        collapsed(r) == r,
{
    lemma_collapsed_prefix(r);
}

// ---- searching and replacing ----------------------------------------------

/// Whether `pat` stands in `s` at index `i`.
pub open spec fn occurs_at(s: Seq<char>, pat: Seq<char>, i: int) -> bool {
    0 <= i && i + pat.len() <= s.len() && s.subrange(i, i + pat.len()) == pat
}

/// Whether `pat` stands in `cs` at index `i`.
pub fn occurs_at_chars(cs: &Vec<char>, pat: &Vec<char>, i: usize) -> (r: bool)
    ensures
        r == occurs_at(cs@, pat@, i as int),
{
    if i > cs.len() || pat.len() > cs.len() - i {
        return false;
    }
    let mut k: usize = 0;
    while k < pat.len()
        invariant
            i <= cs.len(),
            pat.len() <= cs.len() - i,
            k <= pat.len(),
            forall|m: int| 0 <= m < k ==> cs@[i + m] == pat@[m],
        decreases pat.len() - k,
    {
        if cs[i + k] != pat[k] {
            assert(cs@.subrange(i as int, i + pat.len())[k as int] != pat@[k as int]);
            return false;
        }
        k += 1;
    }
    assert(cs@.subrange(i as int, i + pat.len()) =~= pat@);
    true
}

/// The index at which `pat` first stands in `s`.
pub open spec fn first_occurrence(s: Seq<char>, pat: Seq<char>) -> Option<int> {
    if exists|i: int| occurs_at(s, pat, i) {
        Some(choose|i: int| occurs_at(s, pat, i) && forall|k: int| 0 <= k < i ==> !occurs_at(s, pat, k))
    } else {
        None
    }
}

/// Find where `pat` first stands in `cs`.
pub fn find_chars(cs: &Vec<char>, pat: &Vec<char>) -> (r: Option<usize>)
    ensures
        match r {
            Some(i) => first_occurrence(cs@, pat@) == Some(i as int) && occurs_at(
                cs@,
                pat@,
                i as int,
            ) && forall|k: int| 0 <= k < i ==> !occurs_at(cs@, pat@, k),
            None => first_occurrence(cs@, pat@) is None && forall|k: int|
                !occurs_at(cs@, pat@, k),
        },
{
    let mut i: usize = 0;
    while i < cs.len()
        invariant
            i <= cs.len(),
            forall|k: int| 0 <= k < i ==> !occurs_at(cs@, pat@, k),
        decreases cs.len() - i,
    {
        if occurs_at_chars(cs, pat, i) {
            proof {
                let j = choose|j: int|
                    occurs_at(cs@, pat@, j) && forall|k: int| 0 <= k < j ==> !occurs_at(cs@, pat@, k);
                assert(occurs_at(cs@, pat@, i as int));
                assert(j == i);
            }
            return Some(i);
        }
        i += 1;
    }
    if occurs_at_chars(cs, pat, i) {
        proof {
            let j = choose|j: int|
                occurs_at(cs@, pat@, j) && forall|k: int| 0 <= k < j ==> !occurs_at(cs@, pat@, k);
            assert(occurs_at(cs@, pat@, i as int));
            assert(j == i);
        }
        return Some(i);
    }
    assert forall|k: int| !occurs_at(cs@, pat@, k) by {
        if occurs_at(cs@, pat@, k) {
            assert(k <= cs.len());
        }
    }
    None
}

/// The text before the last `c`, or the whole text where there is none.
pub open spec fn before_last(s: Seq<char>, c: char) -> Seq<char>
    decreases s.len(),
{
    if !s.contains(c) || s.len() == 0 {
        s
    } else if s.last() == c {
        s.drop_last()
    } else {
        before_last(s.drop_last(), c)
    }
}

/// The text after the last `c`, or the whole text where there is none.
pub open spec fn after_last(s: Seq<char>, c: char) -> Seq<char> {
    split_on(s, c).last()
}

/// The text before the last `c` ends where that `c` stands.
pub proof fn lemma_before_last_at(s: Seq<char>, c: char, i: int)
    requires
        0 <= i < s.len(),
        s[i] == c,
        forall|k: int| i < k < s.len() ==> s[k] != c,
    ensures
        before_last(s, c) == s.take(i),
    decreases s.len(),
{
    assert(s.contains(c));
    if s.last() == c {
        assert(i == s.len() - 1);
        assert(s.drop_last() =~= s.take(i));
    } else {
        let t = s.drop_last();
        assert(t[i] == c);
        lemma_before_last_at(t, c, i);
        assert(t.take(i) =~= s.take(i));
    }
}

/// The characters before the last `c`, or all of them where there is none.
pub fn before_last_chars(cs: &Vec<char>, c: char) -> (r: Vec<char>)
    ensures
        r@ == before_last(cs@, c),
{
    let mut i: usize = cs.len();
    while i > 0
        invariant
            i <= cs.len(),
            forall|k: int| i <= k < cs.len() ==> cs@[k] != c,
        decreases i,
    {
        i -= 1;
        if cs[i] == c {
            proof {
                lemma_before_last_at(cs@, c, i as int);
            }
            return sub_chars(cs, 0, i);
        }
    }
    assert(!cs@.contains(c));
    let r = sub_chars(cs, 0, cs.len());
    assert(r@ =~= cs@);
    r
}

/// The characters after the last `c`, or all of them where there is none.
pub fn after_last_chars(cs: &Vec<char>, c: char) -> (r: Vec<char>)
    ensures
        r@ == after_last(cs@, c),
{
    let mut parts = split_chars(cs, c);
    let ghost all = parts@;
    match parts.pop() {
        Some(last) => {
            assert(parts_view(all).last() == last@);
            last
        },
        None => Vec::new(),
    }
}

/// `s` with every occurrence of `pat`, taken from left to right and not
/// overlapping, replaced by `with`.
pub open spec fn replace_all(s: Seq<char>, pat: Seq<char>, with: Seq<char>) -> Seq<char>
    decreases s.len(),
{
    if pat.len() == 0 || s.len() < pat.len() {
        s
    } else if occurs_at(s, pat, 0) {
        with + replace_all(s.skip(pat.len() as int), pat, with)
    } else {
        seq![s[0]] + replace_all(s.skip(1), pat, with)
    }
}

/// Replace every occurrence of `pat` by `with`.
pub fn replace_chars(cs: &Vec<char>, pat: &Vec<char>, with: &Vec<char>) -> (r: Vec<char>)
    requires
        pat@.len() > 0,
    ensures
        r@ == replace_all(cs@, pat@, with@),
{
    let mut out: Vec<char> = Vec::new();
    let mut i: usize = 0;
    assert(cs@.skip(0) =~= cs@);
    assert(out@ + replace_all(cs@.skip(0), pat@, with@) =~= replace_all(cs@, pat@, with@));
    while i < cs.len()
        invariant
            pat@.len() > 0,
            i <= cs.len(),
            out@ + replace_all(cs@.skip(i as int), pat@, with@) == replace_all(cs@, pat@, with@),
        decreases cs.len() - i,
    {
        let ghost rest = cs@.skip(i as int);
        let ghost goal = replace_all(cs@, pat@, with@);
        let ghost out0 = out@;
        if occurs_at_chars(cs, pat, i) {
            assert(cs@.subrange(i as int, i + pat@.len()) =~= rest.subrange(0, pat@.len() as int));
            assert(occurs_at(rest, pat@, 0));
            assert(rest.skip(pat@.len() as int) =~= cs@.skip(i + pat@.len()));
            let mut k: usize = 0;
            while k < with.len()
                invariant
                    k <= with.len(),
                    out@ == out0 + with@.take(k as int),
                decreases with.len() - k,
            {
                out.push(with[k]);
                k += 1;
                assert(out@ =~= out0 + with@.take(k as int));
            }
            assert(with@.take(k as int) =~= with@);
            i += pat.len();
            assert(out@ + replace_all(cs@.skip(i as int), pat@, with@) =~= goal);
        } else {
            proof {
                if occurs_at(rest, pat@, 0) {
                    assert(cs@.subrange(i as int, i + pat@.len()) =~= rest.subrange(
                        0,
                        pat@.len() as int,
                    ));
                }
                assert(rest.skip(1) =~= cs@.skip(i + 1));
                if rest.len() < pat@.len() {
                    assert(rest =~= seq![rest[0]] + rest.skip(1));
                    assert(replace_all(rest.skip(1), pat@, with@) == rest.skip(1));
                }
            }
            out.push(cs[i]);
            i += 1;
            assert(out@ + replace_all(cs@.skip(i as int), pat@, with@) =~= goal);
        }
    }
    assert(out@ + replace_all(cs@.skip(i as int), pat@, with@) =~= out@);
    out
}

// ---- numbers as text ------------------------------------------------------

/// The decimal digit `d`.
pub open spec fn digit_char(d: nat) -> char {
    (48 + d) as char
}

/// `n` in decimal, without leading zeros.
pub open spec fn decimal(n: nat) -> Seq<char>
    decreases n,
{
    if n < 10 {
        seq![digit_char(n)]
    } else {
        decimal(n / 10).push(digit_char(n % 10))
    }
}

/// `n` in decimal, with a minus sign where it is negative.
pub open spec fn signed_decimal(n: int) -> Seq<char> {
    if n < 0 {
        seq!['-'] + decimal((-n) as nat)
    } else {
        decimal(n as nat)
    }
}

/// `n` in decimal.
pub fn decimal_chars(n: u64) -> (r: Vec<char>)
    ensures
        r@ == decimal(n as nat),
    decreases n,
{
    let d: u8 = (n % 10) as u8;
    let c: char = (48 + d) as char;
    if n < 10 {
        let mut out: Vec<char> = Vec::new();
        out.push(c);
        out
    } else {
        let mut out = decimal_chars(n / 10);
        out.push(c);
        out
    }
}

/// `n` in decimal, with a minus sign where it is negative.
pub fn signed_decimal_chars(n: i32) -> (r: Vec<char>)
    ensures
        r@ == signed_decimal(n as int),
{
    if n < 0 {
        let m: u64 = (-(n as i64)) as u64;
        let mut out: Vec<char> = Vec::new();
        out.push('-');
        let mut digits = decimal_chars(m);
        out.append(&mut digits);
        assert(out@ =~= signed_decimal(n as int));
        out
    } else {
        decimal_chars(n as u64)
    }
}

// ---- text as numbers --------------------------------------------------------

/// Why a text is no number.
#[derive(Debug, Clone, Copy, PartialEq, Eq, Structural)]
pub enum NumberError {
    Empty,
    InvalidDigit,
    TooLarge,
}

impl NumberError {
    /// The reason in words.
    pub fn message(&self) -> (r: &'static str)
        ensures
            r@ == match *self {
                NumberError::Empty => "cannot parse integer from empty string"@,
                NumberError::InvalidDigit => "invalid digit found in string"@,
                NumberError::TooLarge => "number too large to fit in target type"@,
            },
    {
        match self {
            NumberError::Empty => "cannot parse integer from empty string",
            NumberError::InvalidDigit => "invalid digit found in string",
            NumberError::TooLarge => "number too large to fit in target type",
        }
    }
}

/// A decimal digit.
pub open spec fn is_digit(c: char) -> bool {
    '0' <= c && c <= '9'
}

/// The number of which the digits are given, at most `max`; the first thing that
/// is wrong with it, read from the left.
pub open spec fn digits_value(s: Seq<char>, max: nat) -> Result<nat, NumberError>
    decreases s.len(),
{
    if s.len() == 0 {
        Ok(0)
    } else {
        match digits_value(s.drop_last(), max) {
            Ok(v) => {
                let d = s.last() as nat - 48;
                if !is_digit(s.last()) {
                    Err(NumberError::InvalidDigit)
                } else if 10 * v + d > max {
                    Err(NumberError::TooLarge)
                } else {
                    Ok((10 * v + d) as nat)
                }
            },
            Err(e) => Err(e),
        }
    }
}

/// The number that a text stands for, at most `max`: digits, with a plus sign in
/// front or without.
pub open spec fn number_value(s: Seq<char>, max: nat) -> Result<nat, NumberError> {
    if s.len() == 0 {
        Err(NumberError::Empty)
    } else if s[0] == '+' {
        if s.len() == 1 {
            Err(NumberError::InvalidDigit)
        } else {
            digits_value(s.skip(1), max)
        }
    } else {
        digits_value(s, max)
    }
}

/// What is wrong with a beginning is wrong with the whole.
proof fn lemma_digits_error(s: Seq<char>, k: int, max: nat)
    requires
        0 <= k <= s.len(),
        digits_value(s.take(k), max) is Err,
    ensures
        digits_value(s, max) == digits_value(s.take(k), max),
    decreases s.len(),
{
    if k == s.len() {
        assert(s.take(k) =~= s);
    } else {
        assert(s.drop_last().take(k) =~= s.take(k));
        lemma_digits_error(s.drop_last(), k, max);
    }
}

/// The number that a text stands for, at most `max`.
pub fn parse_number(cs: &Vec<char>, max: u64) -> (r: Result<u64, NumberError>)
    requires
        max <= 0xffff_ffff,
    ensures
        match r {
            Ok(v) => number_value(cs@, max as nat) == Ok::<nat, NumberError>(v as nat),
            Err(e) => number_value(cs@, max as nat) == Err::<nat, NumberError>(e),
        },
{
    let n: usize = cs.len();
    if n == 0 {
        return Err(NumberError::Empty);
    }
    let start: usize = if cs[0] == '+' {
        1
    } else {
        0
    };
    if start == 1 && n == 1 {
        return Err(NumberError::InvalidDigit);
    }
    let ghost digits = cs@.skip(start as int);
    assert(start == 0 ==> digits =~= cs@);
    let mut value: u64 = 0;
    let mut i: usize = start;
    assert(digits.take(0) =~= Seq::empty());
    while i < n
        invariant
            n == cs@.len(),
            start <= i <= n,
            max <= 0xffff_ffff,
            value <= max,
            digits == cs@.skip(start as int),
            digits_value(digits.take(i - start), max as nat) == Ok::<nat, NumberError>(
                value as nat,
            ),
            number_value(cs@, max as nat) == digits_value(digits, max as nat),
        decreases n - i,
    {
        let c: char = cs[i];
        proof {
            let next = digits.take(i + 1 - start);
            assert(next.drop_last() =~= digits.take(i - start));
            assert(next.last() == c);
        }
        if !('0' <= c && c <= '9') {
            proof {
                lemma_digits_error(digits, i + 1 - start, max as nat);
            }
            return Err(NumberError::InvalidDigit);
        }
        let d: u64 = (c as u32 - 48) as u64;
        if 10 * value + d > max {
            proof {
                lemma_digits_error(digits, i + 1 - start, max as nat);
            }
            return Err(NumberError::TooLarge);
        }
        value = 10 * value + d;
        i += 1;
    }
    assert(digits.take(i - start) =~= digits);
    Ok(value)
}

/// A number that a text stands for is at most the greatest allowed.
pub proof fn lemma_number_bounded(s: Seq<char>, max: nat)
    ensures
        number_value(s, max) matches Ok(n) ==> n <= max,
{
    lemma_digits_bounded(s, max);
    if s.len() > 0 {
        lemma_digits_bounded(s.skip(1), max);
    }
}

proof fn lemma_digits_bounded(s: Seq<char>, max: nat)
    ensures
        digits_value(s, max) matches Ok(n) ==> n <= max,
    decreases s.len(),
{
    if s.len() > 0 {
        lemma_digits_bounded(s.drop_last(), max);
    }
}

/// A number written in decimal reads as itself.
pub proof fn lemma_decimal_reads_back(n: nat, max: nat)
    requires
        n <= max,
    ensures
        digits_value(decimal(n), max) == Ok::<nat, NumberError>(n),
        decimal(n).len() > 0,
        is_digit(decimal(n)[0]),
    decreases n,
{
    if n < 10 {
        let s = decimal(n);
        assert(s.drop_last() =~= Seq::empty());
        assert(digits_value(s.drop_last(), max) == Ok::<nat, NumberError>(0));
    } else {
        lemma_decimal_reads_back(n / 10, max);
        let s = decimal(n);
        assert(s.drop_last() =~= decimal(n / 10));
    }
}

// ---- lines ------------------------------------------------------------------------

/// A text without a carriage return at its end.
pub open spec fn without_cr(s: Seq<char>) -> Seq<char> {
    if s.len() > 0 && s.last() == '\r' {
        s.drop_last()
    } else {
        s
    }
}

/// The lines of a text: what line feeds end, each without a carriage return at
/// its end, and what follows the last line feed unless that is nothing.
pub open spec fn lines_of(s: Seq<char>) -> Seq<Seq<char>> {
    let parts = split_on(s, '\n');
    let whole = parts.drop_last().map_values(|p: Seq<char>| without_cr(p));
    if parts.last().len() == 0 {
        whole
    } else {
        whole.push(parts.last())
    }
}

/// The lines of a text.
pub fn lines_chars(cs: &Vec<char>) -> (r: Vec<Vec<char>>)
    ensures
        parts_view(r@) == lines_of(cs@),
{
    let parts = split_chars(cs, '\n');
    let n: usize = parts.len();
    let ghost views = parts_view(parts@);
    let mut out: Vec<Vec<char>> = Vec::new();
    let mut i: usize = 0;
    assert(parts_view(out@) =~= views.take(0).map_values(|p: Seq<char>| without_cr(p)));
    while i + 1 < n
        invariant
            n == parts@.len(),
            i < n,
            views == parts_view(parts@),
            parts_view(out@) == views.take(i as int).map_values(|p: Seq<char>| without_cr(p)),
        decreases n - i,
    {
        let part = &parts[i];
        let m: usize = part.len();
        let ghost before = out@;
        let line = if m > 0 && part[m - 1] == '\r' {
            sub_chars(part, 0, m - 1)
        } else {
            sub_chars(part, 0, m)
        };
        let ghost text = line@;
        assert(text =~= without_cr(views[i as int]));
        out.push(line);
        assert(parts_view(out@) =~= parts_view(before).push(text));
        assert(views.take(i + 1) =~= views.take(i as int).push(views[i as int]));
        i += 1;
        assert(parts_view(out@) =~= views.take(i as int).map_values(
            |p: Seq<char>| without_cr(p),
        ));
    }
    assert(views.take(i as int) =~= views.drop_last());
    let last = &parts[n - 1];
    assert(last@ == views.last());
    if last.len() > 0 {
        let line = sub_chars(last, 0, last.len());
        assert(line@ =~= views.last());
        let ghost before = out@;
        out.push(line);
        assert(parts_view(out@) =~= parts_view(before).push(views.last()));
    }
    out
}

/// What follows a beginning, where the text has it.
pub open spec fn after_prefix(s: Seq<char>, prefix: Seq<char>) -> Option<Seq<char>> {
    if prefix.len() <= s.len() && s.take(prefix.len() as int) == prefix {
        Some(s.skip(prefix.len() as int))
    } else {
        None
    }
}

/// What follows a beginning, where the text has it.
pub fn strip_prefix_chars(cs: &Vec<char>, prefix: &Vec<char>) -> (r: Option<Vec<char>>)
    ensures
        match r {
            Some(rest) => after_prefix(cs@, prefix@) == Some(rest@),
            None => after_prefix(cs@, prefix@) is None,
        },
{
    let n: usize = cs.len();
    let m: usize = prefix.len();
    if m > n {
        return None;
    }
    let head = sub_chars(cs, 0, m);
    assert(head@ =~= cs@.take(m as int));
    if chars_eq(&head, prefix) {
        let rest = sub_chars(cs, m, n);
        assert(rest@ =~= cs@.skip(m as int));
        Some(rest)
    } else {
        None
    }
}

} // verus!
