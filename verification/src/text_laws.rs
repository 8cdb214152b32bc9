//! What cutting and joining texts comes to, told by the pieces.
use vstd::prelude::*;

verus! {

/// A text without the separator is one part.
pub proof fn lemma_split_whole(s: Seq<char>, sep: char)
    requires
        !s.contains(sep),
    ensures
        crate::text::split_on(s, sep) == seq![s],
    decreases s.len(),
{
    if s.len() > 0 {
        let t = s.drop_last();
        assert forall|k: int| 0 <= k < t.len() implies t[k] != sep by {
            assert(s[k] != sep) by {
                if s[k] == sep {
                    assert(s.contains(sep));
                }
            }
        }
        assert(!t.contains(sep));
        lemma_split_whole(t, sep);
        assert(s[s.len() - 1] != sep) by {
            if s[s.len() - 1] == sep {
                assert(s.contains(sep));
            }
        }
        let before = crate::text::split_on(t, sep);
        assert(t.push(s.last()) =~= s);
        assert(before.drop_last().push(before.last().push(s.last())) =~= seq![s]);
    } else {
        assert(s =~= Seq::empty());
    }
}

/// The parts of two texts with the separator between them are the parts of the one and
/// then those of the other.
pub proof fn lemma_split_concat(a: Seq<char>, b: Seq<char>, sep: char)
    ensures
        crate::text::split_on(a + seq![sep] + b, sep) == crate::text::split_on(a, sep)
            + crate::text::split_on(b, sep),
    decreases b.len(),
{
    let all = a + seq![sep] + b;
    crate::text::lemma_split_join(a, sep);
    crate::text::lemma_split_join(b, sep);
    if b.len() == 0 {
        assert(all.drop_last() =~= a);
        assert(crate::text::split_on(all, sep) =~= crate::text::split_on(a, sep).push(Seq::empty()));
    } else {
        let c = b.drop_last();
        lemma_split_concat(a, c, sep);
        crate::text::lemma_split_join(c, sep);
        assert(all.drop_last() =~= a + seq![sep] + c);
        let front = crate::text::split_on(a, sep);
        let back = crate::text::split_on(c, sep);
        assert((front + back).drop_last() =~= front + back.drop_last());
        assert((front + back).last() == back.last());
        if b.last() == sep {
            assert((front + back).push(Seq::empty()) =~= front + back.push(Seq::empty()));
        } else {
            let grown = back.last().push(b.last());
            assert((front + back.drop_last()).push(grown) =~= front + back.drop_last().push(grown));
        }
    }
}

/// A pattern that stands at a place and at none before it is first found there; one that
/// stands nowhere is not found.
pub proof fn lemma_first_occurrence(s: Seq<char>, pat: Seq<char>, i: int)
    ensures
        crate::text::occurs_at(s, pat, i) && (forall|k: int|
            0 <= k < i ==> !#[trigger] crate::text::occurs_at(s, pat, k))
            ==> crate::text::first_occurrence(s, pat) == Some(i),
        (forall|k: int| !#[trigger] crate::text::occurs_at(s, pat, k))
            ==> crate::text::first_occurrence(s, pat) is None,
{
    if crate::text::occurs_at(s, pat, i) && (forall|k: int|
        0 <= k < i ==> !#[trigger] crate::text::occurs_at(s, pat, k)) {
        let j = choose|j: int|
            crate::text::occurs_at(s, pat, j) && forall|k: int|
                0 <= k < j ==> !crate::text::occurs_at(s, pat, k);
        assert(j == i);
    }
}

/// What stands before the last separator and what stands after it are the two pieces
/// between which it was put.
pub proof fn lemma_around_last(front: Seq<char>, back: Seq<char>, c: char)
    requires
        !back.contains(c),
    ensures
        crate::text::before_last(front + seq![c] + back, c) == front,
        crate::text::after_last(front + seq![c] + back, c) == back,
{
    let s = front + seq![c] + back;
    let n = front.len() as int;
    assert forall|k: int| n < k < s.len() implies s[k] != c by {
        if s[k] == c {
            assert(back[k - n - 1] == c);
        }
    }
    crate::text::lemma_before_last_at(s, c, n);
    assert(s.take(n) =~= front);
    lemma_split_concat(front, back, c);
    lemma_split_whole(back, c);
}

/// Where the separator is missing, all of the text stands before it and after it.
pub proof fn lemma_around_missing(s: Seq<char>, c: char)
    requires
        !s.contains(c),
    ensures
        crate::text::before_last(s, c) == s,
        crate::text::after_last(s, c) == s,
{
    lemma_split_whole(s, c);
}

/// A number in decimal is made of digits.
pub proof fn lemma_decimal_is_digits(n: nat)
    ensures
        forall|k: int|
            0 <= k < crate::text::decimal(n).len() ==> '0' <= #[trigger] crate::text::decimal(n)[k]
                && crate::text::decimal(n)[k] <= '9',
        crate::text::decimal(n).len() > 0,
    decreases n,
{
    if n >= 10 {
        lemma_decimal_is_digits(n / 10);
    }
}

/// Two lines, each ended by a line feed, are read as those two lines.
pub proof fn lemma_two_lines(a: Seq<char>, b: Seq<char>)
    requires
        !a.contains('\n'),
        !b.contains('\n'),
        a.len() > 0 ==> a.last() != '\r',
        b.len() > 0 ==> b.last() != '\r',
    ensures
        crate::text::lines_of(a + seq!['\n'] + (b + seq!['\n'] + Seq::empty())) == seq![a, b],
{
    let none = Seq::<char>::empty();
    let low = b + seq!['\n'] + none;
    lemma_split_concat(a, low, '\n');
    lemma_split_concat(b, none, '\n');
    lemma_split_whole(a, '\n');
    lemma_split_whole(b, '\n');
    lemma_split_whole(none, '\n');
    let parts = crate::text::split_on(a + seq!['\n'] + low, '\n');
    assert(parts =~= seq![a, b, none]);
    let whole = parts.drop_last().map_values(|p: Seq<char>| crate::text::without_cr(p));
    assert(whole =~= seq![a, b]);
}

/// What follows a beginning is what was put after it.
pub proof fn lemma_after_prefix(prefix: Seq<char>, rest: Seq<char>)
    ensures
        crate::text::after_prefix(prefix + rest, prefix) == Some(rest),
{
    let s = prefix + rest;
    assert(s.take(prefix.len() as int) =~= prefix);
    assert(s.skip(prefix.len() as int) =~= rest);
}

/// A number below zero is its decimal digits after a minus sign.
pub proof fn lemma_negative_number(n: nat)
    requires
        n > 0,
    ensures
        crate::text::signed_decimal(-(n as int)) == seq!['-'] + crate::text::decimal(n),
        crate::text::signed_decimal(n as int) == crate::text::decimal(n),
{
}

/// A line may end with a carriage return before its line feed, which is no part of it.
pub proof fn lemma_carriage_return_ends_a_line(line: Seq<char>)
    requires
        !line.contains('\n'),
    ensures
        crate::text::lines_of(line + seq!['\r', '\n']) == seq![line],
{
    let whole = line + seq!['\r', '\n'];
    let first = line.push('\r');
    assert(!first.contains('\n')) by {
        if first.contains('\n') {
            let k = choose|k: int| 0 <= k < first.len() && first[k] == '\n';
            if k < line.len() {
                assert(line[k] == '\n');
            }
        }
    }
    assert(whole =~= first + seq!['\n'] + Seq::empty());
    lemma_split_concat(first, Seq::empty(), '\n');
    lemma_split_whole(first, '\n');
    lemma_split_whole(Seq::empty(), '\n');
    let parts = crate::text::split_on(whole, '\n');
    assert(parts =~= seq![first, Seq::empty()]);
    assert(parts.drop_last() =~= seq![first]);
    assert(crate::text::without_cr(first) =~= line);
    assert(crate::text::lines_of(whole) =~= seq![line]);
}

} // verus!
