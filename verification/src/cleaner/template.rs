//! The names of files, made from templates.
//!
//! A template is text with placeholders in braces: `{title}`, `{album}`,
//! `{artist}`, `{album_artist}`, `{track_number}`, `{disc_number}`, `{year}` and
//! `{ext}`. A slash in the template separates directories; a slash in what takes
//! the place of a placeholder does not.
use vstd::prelude::*;

use super::track::ResolvedTrackMetadata;
use crate::text::{
    append_str, from_chars, replace_chars, signed_decimal_chars, to_chars, trim_chars,
};

verus! {

/// What takes the place of the placeholders, before it is made safe.
#[verifier::ext_equal]
pub struct Names {
    pub title: Seq<char>,
    pub album: Seq<char>,
    pub artist: Seq<char>,
    pub album_artist: Seq<char>,
    pub track_number: Seq<char>,
    pub year: Seq<char>,
}

/// A number with at least two places.
pub open spec fn two_places(n: int) -> Seq<char> {
    if 0 <= n < 10 {
        seq!['0'] + crate::text::signed_decimal(n)
    } else {
        crate::text::signed_decimal(n)
    }
}

/// A year, or nothing where it is unknown.
pub open spec fn year_text(year: Option<i32>) -> Seq<char> {
    match year {
        Some(y) => crate::text::signed_decimal(y as int),
        None => Seq::empty(),
    }
}

/// What takes the place of the placeholders. An album without an artist of its
/// own has that of the track, and a track without an artist has an unknown one.
pub open spec fn names_of(meta: ResolvedTrackMetadata) -> Names {
    match meta {
        ResolvedTrackMetadata::MusicBrainz(m) => {
            let artist = if m.track_artists@.len() > 0 {
                m.track_artists@[0].name@
            } else {
                "Unknown Artist"@
            };
            Names {
                title: m.track_title@,
                album: m.album_title@,
                artist,
                album_artist: if m.album_artists@.len() > 0 {
                    m.album_artists@[0].name@
                } else {
                    artist
                },
                track_number: two_places(m.track_number as int),
                year: year_text(m.album_year),
            }
        },
        ResolvedTrackMetadata::ExistingFile(f) => {
            let artist = if f.track_artists@.len() > 0 {
                f.track_artists@[0]@
            } else {
                "Unknown Artist"@
            };
            Names {
                title: f.track_title@,
                album: f.album_title@,
                artist,
                album_artist: if f.album_artists@.len() > 0 {
                    f.album_artists@[0]@
                } else {
                    artist
                },
                track_number: two_places(
                    match f.track_number {
                        Some(n) => n as int,
                        None => 0,
                    },
                ),
                year: year_text(f.album_year),
            }
        },
    }
}

/// A character that may stand in the name of a file, in place of one that may
/// not.
pub open spec fn safe_char(c: char) -> char {
    if c == ':' || c == '?' || c == '*' || c == '"' || c == '<' || c == '>' || c == '|' || c == '\\'
        || c == '/' {
        '-'
    } else if c == '\0' {
        ' '
    } else {
        c
    }
}

/// A text that may stand in the name of a file: characters that may not are
/// replaced, and white space at the ends is gone.
pub open spec fn sanitized(s: Seq<char>) -> Seq<char> {
    crate::text::trimmed(s.map_values(|c: char| safe_char(c)))
}

/// A template with its placeholders replaced, one kind after the other.
pub open spec fn rendered(template: Seq<char>, names: Names, ext: Seq<char>) -> Seq<char> {
    let t1 = crate::text::replace_all(template, "{title}"@, sanitized(names.title));
    let t2 = crate::text::replace_all(t1, "{album}"@, sanitized(names.album));
    let t3 = crate::text::replace_all(t2, "{artist}"@, sanitized(names.artist));
    let t4 = crate::text::replace_all(t3, "{album_artist}"@, sanitized(names.album_artist));
    let t5 = crate::text::replace_all(t4, "{track_number}"@, names.track_number);
    let t6 = crate::text::replace_all(t5, "{disc_number}"@, "1"@);
    let t7 = crate::text::replace_all(t6, "{year}"@, sanitized(names.year));
    crate::text::replace_all(t7, "{ext}"@, ext)
}

/// A text that may stand in the name of a file.
pub fn sanitize_component(s: &str) -> (r: String)
    ensures
        r@ == sanitized(s@),
{
    let chars = to_chars(s);
    let mut out: Vec<char> = Vec::new();
    let mut i: usize = 0;
    assert(out@ =~= chars@.take(0).map_values(|c: char| safe_char(c)));
    while i < chars.len()
        invariant
            i <= chars@.len(),
            out@ == chars@.take(i as int).map_values(|c: char| safe_char(c)),
        decreases chars@.len() - i,
    {
        let c: char = chars[i];
        if c == ':' || c == '?' || c == '*' || c == '"' || c == '<' || c == '>' || c == '|' || c
            == '\\' || c == '/' {
            out.push('-');
        } else if c == '\0' {
            out.push(' ');
        } else {
            out.push(c);
        }
        i += 1;
        assert(out@ =~= chars@.take(i as int).map_values(|c: char| safe_char(c)));
    }
    assert(chars@.take(i as int) =~= chars@);
    from_chars(&trim_chars(&out))
}

fn replaced(text: Vec<char>, placeholder: &str, with: &str) -> (r: Vec<char>)
    requires
        placeholder@.len() > 0,
    ensures
        r@ == crate::text::replace_all(text@, placeholder@, with@),
{
    replace_chars(&text, &to_chars(placeholder), &to_chars(with))
}

fn two_places_text(n: i32) -> (r: String)
    ensures
        r@ == two_places(n as int),
{
    let digits = from_chars(&signed_decimal_chars(n));
    if 0 <= n && n < 10 {
        let out = append_str("0", digits.as_str());
        proof {
            reveal_strlit("0");
            assert("0"@ =~= seq!['0']);
        }
        out
    } else {
        digits
    }
}

fn year_string(year: Option<i32>) -> (r: String)
    ensures
        r@ == year_text(year),
{
    match year {
        Some(y) => from_chars(&signed_decimal_chars(y)),
        None => String::new(),
    }
}

/// What takes the place of the placeholders.
struct NameTexts {
    title: String,
    album: String,
    artist: String,
    album_artist: String,
    track_number: String,
    year: String,
}

impl NameTexts {
    spec fn is(self, names: Names) -> bool {
        &&& self.title@ == names.title
        &&& self.album@ == names.album
        &&& self.artist@ == names.artist
        &&& self.album_artist@ == names.album_artist
        &&& self.track_number@ == names.track_number
        &&& self.year@ == names.year
    }
}

fn name_texts(meta: &ResolvedTrackMetadata) -> (r: NameTexts)
    ensures
        r.is(names_of(*meta)),
{
    match meta {
        ResolvedTrackMetadata::MusicBrainz(m) => {
            let artist = if m.track_artists.len() > 0 {
                m.track_artists[0].name.clone()
            } else {
                "Unknown Artist".to_owned()
            };
            let album_artist = if m.album_artists.len() > 0 {
                m.album_artists[0].name.clone()
            } else {
                artist.clone()
            };
            NameTexts {
                title: m.track_title.clone(),
                album: m.album_title.clone(),
                artist,
                album_artist,
                track_number: two_places_text(m.track_number),
                year: year_string(m.album_year),
            }
        },
        ResolvedTrackMetadata::ExistingFile(f) => {
            let artist = if f.track_artists.len() > 0 {
                f.track_artists[0].clone()
            } else {
                "Unknown Artist".to_owned()
            };
            let album_artist = if f.album_artists.len() > 0 {
                f.album_artists[0].clone()
            } else {
                artist.clone()
            };
            let number: i32 = match f.track_number {
                Some(n) => n,
                None => 0,
            };
            NameTexts {
                title: f.track_title.clone(),
                album: f.album_title.clone(),
                artist,
                album_artist,
                track_number: two_places_text(number),
                year: year_string(f.album_year),
            }
        },
    }
}

/// The path of a file, relative to where files go, as a template makes it from
/// what is known of the track and the extension of the file.
pub fn render(template: &str, meta: &ResolvedTrackMetadata, source_ext: &str) -> (r: String)
    ensures
        r@ == rendered(template@, names_of(*meta), source_ext@),
{
    proof {
        reveal_strlit("{title}");
        reveal_strlit("{album}");
        reveal_strlit("{artist}");
        reveal_strlit("{album_artist}");
        reveal_strlit("{track_number}");
        reveal_strlit("{disc_number}");
        reveal_strlit("{year}");
        reveal_strlit("{ext}");
    }
    let names = name_texts(meta);
    let mut text = to_chars(template);
    text = replaced(text, "{title}", sanitize_component(names.title.as_str()).as_str());
    text = replaced(text, "{album}", sanitize_component(names.album.as_str()).as_str());
    text = replaced(text, "{artist}", sanitize_component(names.artist.as_str()).as_str());
    text = replaced(
        text,
        "{album_artist}",
        sanitize_component(names.album_artist.as_str()).as_str(),
    );
    text = replaced(text, "{track_number}", names.track_number.as_str());
    text = replaced(text, "{disc_number}", "1");
    text = replaced(text, "{year}", sanitize_component(names.year.as_str()).as_str());
    text = replaced(text, "{ext}", source_ext);
    from_chars(&text)
}

// ---- laws -------------------------------------------------------------------------

/// The character may stand in the name of a file.
pub open spec fn is_safe(c: char) -> bool {
    safe_char(c) == c
}

/// Trimming keeps only characters that were there.
proof fn lemma_trimmed_subset(s: Seq<char>)
    ensures
        forall|i: int|
            0 <= i < crate::text::trimmed(s).len() ==> s.contains(
                #[trigger] crate::text::trimmed(s)[i],
            ),
{
    lemma_trim_start_subset(s);
    let t = crate::text::trim_start(s);
    lemma_trim_end_subset(t);
    let u = crate::text::trimmed(s);
    assert forall|i: int| 0 <= i < u.len() implies s.contains(#[trigger] u[i]) by {
        assert(t.contains(u[i]));
        let j = choose|j: int| 0 <= j < t.len() && t[j] == u[i];
        assert(s.contains(t[j]));
    }
}

proof fn lemma_trim_start_subset(s: Seq<char>)
    ensures
        forall|i: int|
            0 <= i < crate::text::trim_start(s).len() ==> s.contains(
                #[trigger] crate::text::trim_start(s)[i],
            ),
    decreases s.len(),
{
    let t = crate::text::trim_start(s);
    if s.len() > 0 && crate::text::white_space(s[0]) {
        lemma_trim_start_subset(s.skip(1));
        assert forall|i: int| 0 <= i < t.len() implies s.contains(#[trigger] t[i]) by {
            let rest = s.skip(1);
            assert(rest.contains(crate::text::trim_start(rest)[i]));
            let j = choose|j: int| 0 <= j < rest.len() && rest[j] == t[i];
            assert(s[j + 1] == t[i]);
        }
    }
}

proof fn lemma_trim_end_subset(s: Seq<char>)
    ensures
        forall|i: int|
            0 <= i < crate::text::trim_end(s).len() ==> s.contains(
                #[trigger] crate::text::trim_end(s)[i],
            ),
    decreases s.len(),
{
    let t = crate::text::trim_end(s);
    if s.len() > 0 && crate::text::white_space(s.last()) {
        lemma_trim_end_subset(s.drop_last());
        assert forall|i: int| 0 <= i < t.len() implies s.contains(#[trigger] t[i]) by {
            let rest = s.drop_last();
            assert(rest.contains(crate::text::trim_end(rest)[i]));
            let j = choose|j: int| 0 <= j < rest.len() && rest[j] == t[i];
            assert(s[j] == t[i]);
        }
    }
}

/// What takes the place of a placeholder holds no character that may not stand in
/// the name of a file.
pub proof fn lemma_sanitized_is_safe(s: Seq<char>)
    ensures
        forall|i: int| 0 <= i < sanitized(s).len() ==> is_safe(#[trigger] sanitized(s)[i]),
        !sanitized(s).contains('/'),
        !sanitized(s).contains('\0'),
{
    let m = s.map_values(|c: char| safe_char(c));
    let t = sanitized(s);
    lemma_trimmed_subset(m);
    assert forall|i: int| 0 <= i < t.len() implies is_safe(#[trigger] t[i]) by {
        assert(m.contains(t[i]));
        let j = choose|j: int| 0 <= j < m.len() && m[j] == t[i];
        assert(m[j] == safe_char(s[j]));
    }
    if t.contains('/') {
        let i = choose|i: int| 0 <= i < t.len() && t[i] == '/';
        assert(is_safe(t[i]));
    }
    if t.contains('\0') {
        let i = choose|i: int| 0 <= i < t.len() && t[i] == '\0';
        assert(is_safe(t[i]));
    }
}

/// A text that has been made safe stays as it is.
pub proof fn lemma_sanitized_idempotent(s: Seq<char>)
    ensures
        sanitized(sanitized(s)) == sanitized(s),
{
    let t = sanitized(s);
    lemma_sanitized_is_safe(s);
    assert(t.map_values(|c: char| safe_char(c)) =~= t) by {
        assert forall|i: int| 0 <= i < t.len() implies safe_char(t[i]) == t[i] by {
            assert(is_safe(t[i]));
        }
    }
    crate::text::lemma_trimmed_idempotent(s.map_values(|c: char| safe_char(c)));
}

/// How many slashes a text holds.
pub open spec fn slashes(s: Seq<char>) -> nat
    decreases s.len(),
{
    if s.len() == 0 {
        0
    } else {
        slashes(s.skip(1)) + if s[0] == '/' {
            1nat
        } else {
            0
        }
    }
}

proof fn lemma_slashes_concat(a: Seq<char>, b: Seq<char>)
    ensures
        slashes(a + b) == slashes(a) + slashes(b),
    decreases a.len(),
{
    if a.len() == 0 {
        assert(a + b =~= b);
    } else {
        assert((a + b).skip(1) =~= a.skip(1) + b);
        lemma_slashes_concat(a.skip(1), b);
    }
}

proof fn lemma_no_slashes(s: Seq<char>)
    requires
        !s.contains('/'),
    ensures
        slashes(s) == 0,
    decreases s.len(),
{
    if s.len() > 0 {
        assert(s[0] != '/') by {
            if s[0] == '/' {
                assert(s.contains('/'));
            }
        }
        assert(!s.skip(1).contains('/')) by {
            if s.skip(1).contains('/') {
                let i = choose|i: int| 0 <= i < s.skip(1).len() && s.skip(1)[i] == '/';
                assert(s[i + 1] == '/');
            }
        }
        lemma_no_slashes(s.skip(1));
    }
}

proof fn lemma_replace_keeps_slashes(s: Seq<char>, pat: Seq<char>, with: Seq<char>)
    requires
        !pat.contains('/'),
        !with.contains('/'),
    ensures
        slashes(crate::text::replace_all(s, pat, with)) == slashes(s),
    decreases s.len(),
{
    if pat.len() == 0 || s.len() < pat.len() {
    } else if crate::text::occurs_at(s, pat, 0) {
        let rest = s.skip(pat.len() as int);
        lemma_replace_keeps_slashes(rest, pat, with);
        lemma_slashes_concat(with, crate::text::replace_all(rest, pat, with));
        lemma_slashes_concat(pat, rest);
        lemma_no_slashes(pat);
        lemma_no_slashes(with);
        assert(s =~= pat + rest);
    } else {
        let rest = s.skip(1);
        lemma_replace_keeps_slashes(rest, pat, with);
        lemma_slashes_concat(seq![s[0]], crate::text::replace_all(rest, pat, with));
        lemma_slashes_concat(seq![s[0]], rest);
        assert(s =~= seq![s[0]] + rest);
    }
}

proof fn lemma_decimal_has_no_slash(n: nat)
    ensures
        !crate::text::decimal(n).contains('/'),
    decreases n,
{
    let s = crate::text::decimal(n);
    if n >= 10 {
        lemma_decimal_has_no_slash(n / 10);
    }
    if s.contains('/') {
        let i = choose|i: int| 0 <= i < s.len() && s[i] == '/';
        if n >= 10 && i < s.len() - 1 {
            assert(crate::text::decimal(n / 10)[i] == '/');
            assert(crate::text::decimal(n / 10).contains('/'));
        }
    }
}

proof fn lemma_two_places_has_no_slash(n: int)
    ensures
        !two_places(n).contains('/'),
{
    let digits = if n < 0 {
        crate::text::decimal((-n) as nat)
    } else {
        crate::text::decimal(n as nat)
    };
    if n < 0 {
        lemma_decimal_has_no_slash((-n) as nat);
    } else {
        lemma_decimal_has_no_slash(n as nat);
    }
    let s = two_places(n);
    if s.contains('/') {
        let i = choose|i: int| 0 <= i < s.len() && s[i] == '/';
        let k = i - (s.len() - digits.len());
        if k >= 0 {
            assert(digits[k] == '/');
            assert(digits.contains('/'));
        }
    }
}

/// The directories of a rendered path are those of the template: whatever the
/// track is called, the path has as many slashes as the template.
pub proof fn lemma_template_decides_directories(
    template: Seq<char>,
    meta: ResolvedTrackMetadata,
    ext: Seq<char>,
)
    requires
        !ext.contains('/'),
    ensures
        slashes(rendered(template, names_of(meta), ext)) == slashes(template),
{
    reveal_strlit("{title}");
    reveal_strlit("{album}");
    reveal_strlit("{artist}");
    reveal_strlit("{album_artist}");
    reveal_strlit("{track_number}");
    reveal_strlit("{disc_number}");
    reveal_strlit("{year}");
    reveal_strlit("{ext}");
    reveal_strlit("1");
    let names = names_of(meta);
    lemma_sanitized_is_safe(names.title);
    lemma_sanitized_is_safe(names.album);
    lemma_sanitized_is_safe(names.artist);
    lemma_sanitized_is_safe(names.album_artist);
    lemma_sanitized_is_safe(names.year);
    match meta {
        ResolvedTrackMetadata::MusicBrainz(m) => {
            lemma_two_places_has_no_slash(m.track_number as int);
        },
        ResolvedTrackMetadata::ExistingFile(f) => {
            lemma_two_places_has_no_slash(
                match f.track_number {
                    Some(n) => n as int,
                    None => 0,
                },
            );
        },
    }
    let t1 = crate::text::replace_all(template, "{title}"@, sanitized(names.title));
    let t2 = crate::text::replace_all(t1, "{album}"@, sanitized(names.album));
    let t3 = crate::text::replace_all(t2, "{artist}"@, sanitized(names.artist));
    let t4 = crate::text::replace_all(t3, "{album_artist}"@, sanitized(names.album_artist));
    let t5 = crate::text::replace_all(t4, "{track_number}"@, names.track_number);
    let t6 = crate::text::replace_all(t5, "{disc_number}"@, "1"@);
    let t7 = crate::text::replace_all(t6, "{year}"@, sanitized(names.year));
    lemma_replace_keeps_slashes(template, "{title}"@, sanitized(names.title));
    lemma_replace_keeps_slashes(t1, "{album}"@, sanitized(names.album));
    lemma_replace_keeps_slashes(t2, "{artist}"@, sanitized(names.artist));
    lemma_replace_keeps_slashes(t3, "{album_artist}"@, sanitized(names.album_artist));
    lemma_replace_keeps_slashes(t4, "{track_number}"@, names.track_number);
    lemma_replace_keeps_slashes(t5, "{disc_number}"@, "1"@);
    lemma_replace_keeps_slashes(t6, "{year}"@, sanitized(names.year));
    lemma_replace_keeps_slashes(t7, "{ext}"@, ext);
}

} // verus!
