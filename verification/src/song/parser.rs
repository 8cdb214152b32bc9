//! Track metadata read out of a Soulseek path.
use vstd::prelude::*;

use crate::text::{
    before_last_chars, find_chars, from_chars, split_chars, sub_chars, to_chars,
    trim_chars,
};

verus! {

/// Metadata parsed from a Soulseek file path.
#[derive(Debug)]
pub struct ParsedSoulseekMetadata {
    pub title: String,
    pub artist: String,
    pub album: Option<String>,
}

/// What a path says about a track.
#[verifier::ext_equal]
pub struct TrackNames {
    pub title: Seq<char>,
    pub artist: Seq<char>,
    pub album: Option<Seq<char>>,
}

impl View for ParsedSoulseekMetadata {
    type V = TrackNames;

    open spec fn view(&self) -> TrackNames {
        TrackNames {
            title: self.title@,
            artist: self.artist@,
            album: match self.album {
                Some(a) => Some(a@),
                None => None,
            },
        }
    }
}

impl Default for ParsedSoulseekMetadata {
    fn default() -> (r: Self)
        ensures
            r.title@ == Seq::<char>::empty(),
            r.artist@ == Seq::<char>::empty(),
            r.album is None,
    {
        ParsedSoulseekMetadata { title: String::new(), artist: String::new(), album: None }
    }
}

/// `c` is one of the digits `0` to `9`.
pub open spec fn is_digit(c: char) -> bool {
    '0' <= c && c <= '9'
}

/// `c` may stand between a track number and the title.
pub open spec fn is_number_separator(c: char) -> bool {
    c == '-' || c == '.' || c == ' '
}

/// How many digits `s` starts with.
pub open spec fn leading_digits(s: Seq<char>) -> nat
    decreases s.len(),
{
    if s.len() > 0 && is_digit(s[0]) {
        1 + leading_digits(s.skip(1))
    } else {
        0
    }
}

/// `s` without the separators it starts with.
pub open spec fn without_separators(s: Seq<char>) -> Seq<char>
    decreases s.len(),
{
    if s.len() > 0 && is_number_separator(s[0]) {
        without_separators(s.skip(1))
    } else {
        s
    }
}

/// `s` trimmed and, where it starts with a track number of one to three digits
/// and something follows, without that number and its separators.
pub open spec fn without_track_number(s: Seq<char>) -> Seq<char> {
    let t = crate::text::trimmed(s);
    let d = leading_digits(t);
    let rest = without_separators(t.skip(d as int));
    if d == 0 || d > 3 || rest.len() == 0 {
        t
    } else {
        rest
    }
}

/// The separator between an artist and a title.
pub open spec fn artist_separator() -> Seq<char> {
    seq![' ', '-', ' ']
}

/// The artist and the title on either side of the first ` - `, when both are
/// there.
pub open spec fn artist_and_title(s: Seq<char>) -> Option<(Seq<char>, Seq<char>)> {
    match crate::text::first_occurrence(s, artist_separator()) {
        Some(i) => {
            let artist = crate::text::trimmed(s.take(i));
            let title = crate::text::trimmed(s.skip(i + 3));
            if artist.len() == 0 || title.len() == 0 {
                None
            } else {
                Some((artist, title))
            }
        },
        None => None,
    }
}

/// What a backslash-separated path says about its track. The first component
/// is the share's name and says nothing where others follow; the last is the
/// file's name; the one before it the album; the one before that the artist,
/// unless the file's name itself has one.
pub open spec fn track_names(path: Seq<char>) -> TrackNames {
    let parts = crate::text::split_on(path, '\\');
    let meaningful = if parts.len() > 1 {
        parts.skip(1)
    } else {
        parts
    };
    let dirs = meaningful.drop_last();
    let stem = without_track_number(crate::text::before_last(meaningful.last(), '.'));
    let album = if dirs.len() > 0 {
        Some(dirs.last())
    } else {
        None
    };
    match artist_and_title(stem) {
        Some((artist, title)) => TrackNames { title, artist, album },
        None => TrackNames {
            title: crate::text::trimmed(stem),
            artist: if dirs.len() >= 2 {
                dirs[dirs.len() - 2]
            } else {
                Seq::empty()
            },
            album,
        },
    }
}

/// The digits in front end at the first character that is none.
pub proof fn lemma_leading_digits_at(s: Seq<char>, i: int)
    requires
        0 <= i <= s.len(),
        forall|k: int| 0 <= k < i ==> is_digit(#[trigger] s[k]),
        i < s.len() ==> !is_digit(s[i]),
    ensures
        leading_digits(s) == i,
    decreases i,
{
    if i > 0 {
        let t = s.skip(1);
        assert(is_digit(s[0]));
        assert forall|k: int| 0 <= k < i - 1 implies is_digit(#[trigger] t[k]) by {
            assert(is_digit(s[k + 1]));
        }
        lemma_leading_digits_at(t, i - 1);
    }
}

/// The separators in front end at the first character that is none.
pub proof fn lemma_without_separators_at(s: Seq<char>, i: int)
    requires
        0 <= i <= s.len(),
        forall|k: int| 0 <= k < i ==> is_number_separator(#[trigger] s[k]),
        i < s.len() ==> !is_number_separator(s[i]),
    ensures
        without_separators(s) == s.skip(i),
    decreases i,
{
    if i > 0 {
        let t = s.skip(1);
        assert(is_number_separator(s[0]));
        assert forall|k: int| 0 <= k < i - 1 implies is_number_separator(#[trigger] t[k]) by {
            assert(is_number_separator(s[k + 1]));
        }
        lemma_without_separators_at(t, i - 1);
        assert(t.skip(i - 1) =~= s.skip(i));
    } else {
        assert(s.skip(0) =~= s);
    }
}

fn strip_number_chars(s: &Vec<char>) -> (r: Vec<char>)
    ensures
        r@ == without_track_number(s@),
{
    let t = trim_chars(s);
    let n: usize = t.len();
    let mut d: usize = 0;
    while d < n && '0' <= t[d] && t[d] <= '9'
        invariant
            n == t.len(),
            d <= n,
            forall|k: int| 0 <= k < d ==> is_digit(#[trigger] t@[k]),
        decreases n - d,
    {
        d += 1;
    }
    proof {
        lemma_leading_digits_at(t@, d as int);
    }
    if d == 0 || d > 3 {
        return t;
    }
    let mut i: usize = d;
    while i < n && (t[i] == '-' || t[i] == '.' || t[i] == ' ')
        invariant
            n == t.len(),
            d <= i <= n,
            forall|k: int| d <= k < i ==> is_number_separator(#[trigger] t@[k]),
        decreases n - i,
    {
        i += 1;
    }
    proof {
        let u = t@.skip(d as int);
        assert forall|k: int| 0 <= k < i - d implies is_number_separator(#[trigger] u[k]) by {
            assert(is_number_separator(t@[k + d]));
        }
        lemma_without_separators_at(u, i - d);
        assert(u.skip(i - d) =~= t@.subrange(i as int, n as int));
    }
    if i < n {
        sub_chars(&t, i, n)
    } else {
        t
    }
}

/// Strip a leading track number from the stem of a file name, as in
/// `01 - Title`, `01. Title` or `01 Title`.
pub fn strip_track_number(s: &str) -> (r: String)
    ensures
        r@ == without_track_number(s@),
{
    from_chars(&strip_number_chars(&to_chars(s)))
}

fn separator_chars() -> (r: Vec<char>)
    ensures
        r@ == artist_separator(),
{
    let mut sep: Vec<char> = Vec::new();
    sep.push(' ');
    sep.push('-');
    sep.push(' ');
    assert(sep@ =~= artist_separator());
    sep
}

fn split_artist_title(s: &Vec<char>) -> (r: Option<(String, String)>)
    ensures
        match r {
            Some((artist, title)) => artist_and_title(s@) == Some((artist@, title@)),
            None => artist_and_title(s@) is None,
        },
{
    let sep = separator_chars();
    match find_chars(s, &sep) {
        Some(i) => {
            let n: usize = s.len();
            assert(sep@.len() == 3);
            let artist = trim_chars(&sub_chars(s, 0, i));
            let title = trim_chars(&sub_chars(s, i + 3, n));
            assert(s@.subrange(0, i as int) =~= s@.take(i as int));
            assert(s@.subrange(i + 3, s@.len() as int) =~= s@.skip(i + 3));
            if artist.len() == 0 || title.len() == 0 {
                None
            } else {
                Some((from_chars(&artist), from_chars(&title)))
            }
        },
        None => None,
    }
}

/// Try to read `Artist - Title` from the stem of a file name.
pub fn parse_artist_title_from_filename(s: &str) -> (r: Option<(String, String)>)
    ensures
        match r {
            Some((artist, title)) => artist_and_title(s@) == Some((artist@, title@)),
            None => artist_and_title(s@) is None,
        },
{
    split_artist_title(&to_chars(s))
}

/// Read track metadata from a backslash-separated path such as
/// `@@share\Artist\Album\01 - Title.flac`.
pub fn parse_soulseek_filename(path: &str) -> (r: ParsedSoulseekMetadata)
    ensures
        r@ == track_names(path@),
{
    let cs = to_chars(path);
    let parts = split_chars(&cs, '\\');
    let ghost pv = crate::text::parts_view(parts@);
    let n: usize = parts.len();
    let first: usize = if n > 1 {
        1
    } else {
        0
    };
    let ghost meaningful = if pv.len() > 1 {
        pv.skip(1)
    } else {
        pv
    };
    assert(meaningful =~= pv.skip(first as int));
    let ghost dirs = meaningful.drop_last();
    assert(meaningful.last() == parts@[n - 1]@);
    let stem = strip_number_chars(&before_last_chars(&parts[n - 1], '.'));
    let album = if n - first > 1 {
        assert(dirs.last() == parts@[n - 2]@);
        Some(from_chars(&parts[n - 2]))
    } else {
        None
    };
    match split_artist_title(&stem) {
        Some((artist, title)) => ParsedSoulseekMetadata { title, artist, album },
        None => {
            let artist = if n - first > 2 {
                assert(dirs[dirs.len() - 2] == parts@[n - 3]@);
                from_chars(&parts[n - 3])
            } else {
                String::new()
            };
            ParsedSoulseekMetadata { title: from_chars(&trim_chars(&stem)), artist, album }
        },
    }
}

/// An artist and a title that were read from a stem are not empty, and neither
/// starts or ends in white space.
pub proof fn lemma_artist_and_title_trimmed(s: Seq<char>)
    ensures
        artist_and_title(s) matches Some((artist, title)) ==> {
            &&& artist.len() > 0
            &&& title.len() > 0
            &&& crate::text::trimmed(artist) == artist
            &&& crate::text::trimmed(title) == title
        },
{
    match crate::text::first_occurrence(s, artist_separator()) {
        Some(i) => {
            crate::text::lemma_trimmed_idempotent(s.take(i));
            crate::text::lemma_trimmed_idempotent(s.skip(i + 3));
        },
        None => {},
    }
}

/// Stripping a track number leaves something: a stem that is not blank keeps at
/// least one character.
pub proof fn lemma_track_number_keeps_something(s: Seq<char>)
    ensures
        crate::text::trimmed(s).len() > 0 ==> without_track_number(s).len() > 0,
{
}

} // verus!
