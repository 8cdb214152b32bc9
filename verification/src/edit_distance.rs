//! The Levenshtein distance between two texts: how it is computed, and why it
//! is the least number of single-character edits that turn one into the other.
use vstd::prelude::*;

use crate::text::to_chars;

verus! {

/// The lesser of two numbers.
pub open spec fn min2(a: nat, b: nat) -> nat {
    if a <= b {
        a
    } else {
        b
    }
}

/// The Levenshtein distance: compare the last characters, and where they
/// differ take the cheapest of dropping one, dropping the other or both.
pub open spec fn distance(a: Seq<char>, b: Seq<char>) -> nat
    decreases a.len() + b.len(),
{
    if a.len() == 0 {
        b.len()
    } else if b.len() == 0 {
        a.len()
    } else if a.last() == b.last() {
        distance(a.drop_last(), b.drop_last())
    } else {
        1 + min2(
            distance(a.drop_last(), b.drop_last()),
            min2(distance(a.drop_last(), b), distance(a, b.drop_last())),
        )
    }
}

proof fn lemma_distance_bounded(a: Seq<char>, b: Seq<char>)
    ensures
        distance(a, b) <= a.len() || distance(a, b) <= b.len(),
    decreases a.len() + b.len(),
{
    if a.len() > 0 && b.len() > 0 {
        lemma_distance_bounded(a.drop_last(), b.drop_last());
    }
}

/// The distance is at most the length of the longer text.
pub proof fn lemma_distance_at_most_longer(a: Seq<char>, b: Seq<char>)
    ensures
        distance(a, b) <= (if a.len() >= b.len() {
            a.len()
        } else {
            b.len()
        }),
{
    lemma_distance_bounded(a, b);
}

/// Levenshtein edit distance over characters.
pub fn levenshtein(a: &str, b: &str) -> (r: usize)
    ensures
        r == distance(a@, b@),
{
    let a = to_chars(a);
    let b = to_chars(b);
    let m: usize = a.len();
    let n: usize = b.len();
    // `row[j]` is the distance between the first `i` characters of `a` and the
    // first `j + 1` of `b`.
    let mut row: Vec<usize> = Vec::new();
    let mut j: usize = 0;
    while j < n
        invariant
            n == b.len(),
            j <= n,
            row.len() == j,
            forall|k: int|
                0 <= k < j ==> #[trigger] row@[k] == distance(a@.take(0), b@.take(k + 1)),
        decreases n - j,
    {
        row.push(j + 1);
        j += 1;
    }
    let mut i: usize = 0;
    while i < m
        invariant
            m == a.len(),
            n == b.len(),
            i <= m,
            row.len() == n,
            forall|k: int|
                0 <= k < n ==> #[trigger] row@[k] == distance(a@.take(i as int), b@.take(k + 1)),
        decreases m - i,
    {
        let ghost old_row = row@;
        // Distances to the empty prefix of `b`.
        let mut diagonal: usize = i;
        let mut left: usize = i + 1;
        let mut j: usize = 0;
        assert(a@.take(i as int).len() == i);
        assert(distance(a@.take(i as int), b@.take(0)) == i);
        assert(distance(a@.take(i + 1), b@.take(0)) == i + 1);
        while j < n
            invariant
                m == a.len(),
                n == b.len(),
                i < m,
                j <= n,
                row.len() == n,
                diagonal == distance(a@.take(i as int), b@.take(j as int)),
                left == distance(a@.take(i + 1), b@.take(j as int)),
                forall|k: int|
                    0 <= k < j ==> #[trigger] row@[k] == distance(a@.take(i + 1), b@.take(k + 1)),
                forall|k: int|
                    j <= k < n ==> #[trigger] row@[k] == distance(
                        a@.take(i as int),
                        b@.take(k + 1),
                    ),
            decreases n - j,
        {
            let up: usize = row[j];
            proof {
                let x = a@.take(i + 1);
                let y = b@.take(j + 1);
                assert(x.drop_last() =~= a@.take(i as int));
                assert(y.drop_last() =~= b@.take(j as int));
                assert(x.last() == a@[i as int]);
                assert(y.last() == b@[j as int]);
                lemma_distance_bounded(a@.take(i as int), b@.take(j as int));
            }
            let cell: usize = if a[i] == b[j] {
                diagonal
            } else {
                let mut least: usize = diagonal;
                if up < least {
                    least = up;
                }
                if left < least {
                    least = left;
                }
                1 + least
            };
            row.set(j, cell);
            diagonal = up;
            left = cell;
            j += 1;
        }
        i += 1;
    }
    assert(a@.take(m as int) =~= a@);
    assert(b@.take(n as int) =~= b@);
    if n == 0 {
        m
    } else {
        row[n - 1]
    }
}

// ---- the distance counts edits --------------------------------------------

/// `t` comes from `s` by inserting, removing or replacing one character.
pub open spec fn one_edit(s: Seq<char>, t: Seq<char>) -> bool {
    ||| exists|i: int, c: char| 0 <= i <= s.len() && t == #[trigger] s.insert(i, c)
    ||| exists|i: int| 0 <= i < s.len() && t == #[trigger] s.remove(i)
    ||| exists|i: int, c: char| 0 <= i < s.len() && t == #[trigger] s.update(i, c)
}

/// `t` comes from `s` by exactly `n` edits of one character.
pub open spec fn edits(s: Seq<char>, t: Seq<char>, n: nat) -> bool
    decreases n,
{
    if n == 0 {
        s == t
    } else {
        exists|m: Seq<char>| #[trigger] one_edit(s, m) && edits(m, t, (n - 1) as nat)
    }
}

/// Dropping or adding the last character of either text moves the distance by
/// at most one.
proof fn lemma_distance_step(a: Seq<char>, b: Seq<char>)
    ensures
        a.len() > 0 ==> distance(a, b) <= distance(a.drop_last(), b) + 1,
        a.len() > 0 ==> distance(a.drop_last(), b) <= distance(a, b) + 1,
        b.len() > 0 ==> distance(a, b) <= distance(a, b.drop_last()) + 1,
        b.len() > 0 ==> distance(a, b.drop_last()) <= distance(a, b) + 1,
    decreases a.len() + b.len(),
{
    if a.len() > 0 && b.len() > 0 {
        lemma_distance_step(a.drop_last(), b);
        lemma_distance_step(a, b.drop_last());
        lemma_distance_step(a.drop_last(), b.drop_last());
    }
}

/// The step where both texts keep their last character `x` of `a` and `m`, and
/// the edit lies before it.
proof fn lemma_edit_before_last(a: Seq<char>, m: Seq<char>, b: Seq<char>)
    requires
        a.len() > 0,
        m.len() > 0,
        a.last() == m.last(),
        one_edit(a, m),
        one_edit(a.drop_last(), m.drop_last()),
    ensures
        distance(a, b) <= distance(m, b) + 1,
    decreases a.len() + b.len(), 0nat,
{
    if b.len() == 0 {
    } else {
        lemma_edit_moves_one(a.drop_last(), m.drop_last(), b.drop_last());
        lemma_edit_moves_one(a.drop_last(), m.drop_last(), b);
        lemma_edit_moves_one(a, m, b.drop_last());
        lemma_distance_step(a, b);
    }
}

/// One edit moves the distance by at most one.
proof fn lemma_edit_moves_one(a: Seq<char>, m: Seq<char>, b: Seq<char>)
    requires
        one_edit(a, m),
    ensures
        distance(a, b) <= distance(m, b) + 1,
    decreases a.len() + b.len(), 1nat,
{
    lemma_distance_step(a, b);
    lemma_distance_step(m, b);
    if exists|i: int, c: char| 0 <= i <= a.len() && m == #[trigger] a.insert(i, c) {
        let (i, c) = choose|i: int, c: char| 0 <= i <= a.len() && m == #[trigger] a.insert(i, c);
        if i == a.len() {
            assert(m.drop_last() =~= a);
        } else {
            assert(m.drop_last() =~= a.drop_last().insert(i, c));
            lemma_edit_before_last(a, m, b);
        }
    } else if exists|i: int| 0 <= i < a.len() && m == #[trigger] a.remove(i) {
        let i = choose|i: int| 0 <= i < a.len() && m == #[trigger] a.remove(i);
        if i == a.len() - 1 {
            assert(m =~= a.drop_last());
        } else {
            assert(m.drop_last() =~= a.drop_last().remove(i));
            lemma_edit_before_last(a, m, b);
        }
    } else {
        let (i, c) = choose|i: int, c: char| 0 <= i < a.len() && m == #[trigger] a.update(i, c);
        if i == a.len() - 1 {
            assert(m.drop_last() =~= a.drop_last());
            if b.len() > 0 {
                lemma_edit_moves_one(a, m, b.drop_last());
            }
        } else {
            assert(m.drop_last() =~= a.drop_last().update(i, c));
            lemma_edit_before_last(a, m, b);
        }
    }
}

/// No chain of edits is shorter than the distance.
pub proof fn lemma_distance_is_least(a: Seq<char>, b: Seq<char>, n: nat)
    requires
        edits(a, b, n),
    ensures
        distance(a, b) <= n,
    decreases n,
{
    if n == 0 {
        lemma_distance_self(a);
    } else {
        let m = choose|m: Seq<char>| #[trigger] one_edit(a, m) && edits(m, b, (n - 1) as nat);
        lemma_distance_is_least(m, b, (n - 1) as nat);
        lemma_edit_moves_one(a, m, b);
    }
}

proof fn lemma_one_edit_push(s: Seq<char>, t: Seq<char>, c: char)
    requires
        one_edit(s, t),
    ensures
        one_edit(s.push(c), t.push(c)),
{
    if exists|i: int, d: char| 0 <= i <= s.len() && t == #[trigger] s.insert(i, d) {
        let (i, d) = choose|i: int, d: char| 0 <= i <= s.len() && t == #[trigger] s.insert(i, d);
        assert(t.push(c) =~= s.push(c).insert(i, d));
    } else if exists|i: int| 0 <= i < s.len() && t == #[trigger] s.remove(i) {
        let i = choose|i: int| 0 <= i < s.len() && t == #[trigger] s.remove(i);
        assert(t.push(c) =~= s.push(c).remove(i));
    } else {
        let (i, d) = choose|i: int, d: char| 0 <= i < s.len() && t == #[trigger] s.update(i, d);
        assert(t.push(c) =~= s.push(c).update(i, d));
    }
}

proof fn lemma_edits_push(s: Seq<char>, t: Seq<char>, c: char, n: nat)
    requires
        edits(s, t, n),
    ensures
        edits(s.push(c), t.push(c), n),
    decreases n,
{
    if n > 0 {
        let m = choose|m: Seq<char>| #[trigger] one_edit(s, m) && edits(m, t, (n - 1) as nat);
        lemma_one_edit_push(s, m, c);
        lemma_edits_push(m, t, c, (n - 1) as nat);
    }
}

proof fn lemma_edits_then_one(s: Seq<char>, t: Seq<char>, u: Seq<char>, n: nat)
    requires
        edits(s, t, n),
        one_edit(t, u),
    ensures
        edits(s, u, n + 1),
    decreases n,
{
    if n == 0 {
        assert(edits(u, u, 0));
    } else {
        let m = choose|m: Seq<char>| #[trigger] one_edit(s, m) && edits(m, t, (n - 1) as nat);
        lemma_edits_then_one(m, t, u, (n - 1) as nat);
        assert(edits(m, u, ((n + 1) - 1) as nat));
    }
}

/// Some chain of edits is as short as the distance.
pub proof fn lemma_distance_is_reached(a: Seq<char>, b: Seq<char>)
    ensures
        edits(a, b, distance(a, b)),
    decreases a.len() + b.len(),
{
    if a.len() == 0 && b.len() == 0 {
        assert(a =~= b);
    } else if a.len() == 0 {
        let c = b.drop_last();
        lemma_distance_is_reached(a, c);
        assert(b =~= c.insert(c.len() as int, b.last()));
        lemma_edits_then_one(a, c, b, distance(a, c));
    } else if b.len() == 0 {
        lemma_distance_is_reached(a.drop_last(), b);
        assert(a.drop_last() =~= a.remove(a.len() - 1));
        assert(one_edit(a, a.drop_last()));
    } else {
        let x = a.drop_last();
        let y = b.drop_last();
        assert(a =~= x.push(a.last()));
        assert(b =~= y.push(b.last()));
        if a.last() == b.last() {
            lemma_distance_is_reached(x, y);
            lemma_edits_push(x, y, a.last(), distance(x, y));
        } else if distance(a, b) == 1 + distance(x, y) {
            lemma_distance_is_reached(x, y);
            lemma_edits_push(x, y, a.last(), distance(x, y));
            let last = y.len() as int;
            assert(b =~= y.push(a.last()).update(last, b.last()));
            lemma_edits_then_one(a, y.push(a.last()), b, distance(x, y));
        } else if distance(a, b) == 1 + distance(x, b) {
            lemma_distance_is_reached(x, b);
            assert(x =~= a.remove(a.len() - 1));
            assert(one_edit(a, x));
        } else {
            lemma_distance_is_reached(a, y);
            assert(b =~= y.insert(y.len() as int, b.last()));
            lemma_edits_then_one(a, y, b, distance(a, y));
        }
    }
}

/// A text is at distance zero from itself.
pub proof fn lemma_distance_self(a: Seq<char>)
    ensures
        distance(a, a) == 0,
    decreases a.len(),
{
    if a.len() > 0 {
        lemma_distance_self(a.drop_last());
    }
}

/// Only equal texts are at distance zero.
pub proof fn lemma_distance_zero(a: Seq<char>, b: Seq<char>)
    requires
        distance(a, b) == 0,
    ensures
        a == b,
{
    lemma_distance_is_reached(a, b);
}

/// The distance is the same both ways.
pub proof fn lemma_distance_symmetric(a: Seq<char>, b: Seq<char>)
    ensures
        distance(a, b) == distance(b, a),
    decreases a.len() + b.len(),
{
    if a.len() > 0 && b.len() > 0 {
        lemma_distance_symmetric(a.drop_last(), b.drop_last());
        lemma_distance_symmetric(a.drop_last(), b);
        lemma_distance_symmetric(a, b.drop_last());
    }
}

proof fn lemma_edits_chain(a: Seq<char>, b: Seq<char>, c: Seq<char>, m: nat, n: nat)
    requires
        edits(a, b, m),
        edits(b, c, n),
    ensures
        edits(a, c, m + n),
    decreases m,
{
    if m > 0 {
        let x = choose|x: Seq<char>| #[trigger] one_edit(a, x) && edits(x, b, (m - 1) as nat);
        lemma_edits_chain(x, b, c, (m - 1) as nat, n);
        assert(edits(x, c, ((m + n) - 1) as nat));
    }
}

/// Going through a third text is never shorter.
pub proof fn lemma_distance_triangle(a: Seq<char>, b: Seq<char>, c: Seq<char>)
    ensures
        distance(a, c) <= distance(a, b) + distance(b, c),
{
    lemma_distance_is_reached(a, b);
    lemma_distance_is_reached(b, c);
    lemma_edits_chain(a, b, c, distance(a, b), distance(b, c));
    lemma_distance_is_least(a, c, distance(a, b) + distance(b, c));
}

} // verus!
