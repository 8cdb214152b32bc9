//! What a template makes of a track, told piece by piece.
use vstd::prelude::*;

use super::track::ResolvedTrackMetadata;

verus! {

/// What a template is made of: text, and places for what is known of the track.
pub enum Piece {
    Text(Seq<char>),
    Title,
    Album,
    Artist,
    AlbumArtist,
    TrackNumber,
    DiscNumber,
    Year,
    Extension,
}

/// A piece as it stands in a template.
pub open spec fn written(p: Piece) -> Seq<char> {
    match p {
        Piece::Text(s) => s,
        Piece::Title => "{title}"@,
        Piece::Album => "{album}"@,
        Piece::Artist => "{artist}"@,
        Piece::AlbumArtist => "{album_artist}"@,
        Piece::TrackNumber => "{track_number}"@,
        Piece::DiscNumber => "{disc_number}"@,
        Piece::Year => "{year}"@,
        Piece::Extension => "{ext}"@,
    }
}

/// Pieces, one after another, as they stand in a template.
pub open spec fn template_of(pieces: Seq<Piece>) -> Seq<char>
    decreases pieces.len(),
{
    if pieces.len() == 0 {
        Seq::empty()
    } else {
        written(pieces[0]) + template_of(pieces.skip(1))
    }
}

/// Each piece in the path: text as it stands, and in each place what is known of the track.
pub open spec fn path_of(pieces: Seq<Piece>, names: super::template::Names, ext: Seq<char>) -> Seq<
    char,
>
    decreases pieces.len(),
{
    if pieces.len() == 0 {
        Seq::empty()
    } else {
        let first = match pieces[0] {
            Piece::Text(s) => s,
            Piece::Title => super::template::sanitized(names.title),
            Piece::Album => super::template::sanitized(names.album),
            Piece::Artist => super::template::sanitized(names.artist),
            Piece::AlbumArtist => super::template::sanitized(names.album_artist),
            Piece::TrackNumber => names.track_number,
            Piece::DiscNumber => seq!['1'],
            Piece::Year => super::template::sanitized(names.year),
            Piece::Extension => ext,
        };
        first + path_of(pieces.skip(1), names, ext)
    }
}

/// The pieces once a kind of place is filled.
pub open spec fn filled(pieces: Seq<Piece>, place: Piece, value: Seq<char>) -> Seq<Piece> {
    Seq::new(
        pieces.len(),
        |i: int|
            if pieces[i] == place {
                Piece::Text(value)
            } else {
                pieces[i]
            },
    )
}

/// No text among the pieces holds an opening brace.
pub open spec fn plain(pieces: Seq<Piece>) -> bool {
    forall|i: int|
        0 <= i < pieces.len() ==> (#[trigger] pieces[i] matches Piece::Text(s) ==> !s.contains('{'))
}

/// A placeholder: it starts with an opening brace, ends with a closing one, and has neither
/// in between.
pub open spec fn is_placeholder(s: Seq<char>) -> bool {
    &&& s.len() >= 2
    &&& s[0] == '{'
    &&& s.last() == '}'
    &&& forall|k: int| 0 < k < s.len() - 1 ==> #[trigger] s[k] != '{' && s[k] != '}'
}

proof fn lemma_skip_text(a: Seq<char>, b: Seq<char>, pat: Seq<char>, with: Seq<char>)
    requires
        is_placeholder(pat),
        forall|k: int| 0 <= k < a.len() ==> #[trigger] a[k] != '{',
    ensures
        crate::text::replace_all(a + b, pat, with) == a + crate::text::replace_all(b, pat, with),
    decreases a.len(),
{
    let s = a + b;
    if a.len() == 0 {
        assert(s =~= b);
        assert(a + crate::text::replace_all(b, pat, with) =~= crate::text::replace_all(
            b,
            pat,
            with,
        ));
    } else {
        let rest = a.skip(1);
        assert(s.skip(1) =~= rest + b);
        assert forall|k: int| 0 <= k < rest.len() implies #[trigger] rest[k] != '{' by {
            assert(a[k + 1] != '{');
        }
        lemma_skip_text(rest, b, pat, with);
        assert(!crate::text::occurs_at(s, pat, 0)) by {
            if crate::text::occurs_at(s, pat, 0) {
                assert(s.subrange(0, pat.len() as int)[0] == pat[0]);
                assert(a[0] != '{');
            }
        }
        let tail = crate::text::replace_all(b, pat, with);
        if s.len() < pat.len() {
            lemma_short(b, pat, with);
            assert(s =~= a + b);
        } else {
            assert(seq![s[0]] + (rest + tail) =~= a + tail);
        }
    }
}

proof fn lemma_short(b: Seq<char>, pat: Seq<char>, with: Seq<char>)
    requires
        b.len() < pat.len(),
    ensures
        crate::text::replace_all(b, pat, with) == b,
{
}

proof fn lemma_fill(b: Seq<char>, pat: Seq<char>, with: Seq<char>)
    requires
        is_placeholder(pat),
    ensures
        crate::text::replace_all(pat + b, pat, with) == with + crate::text::replace_all(
            b,
            pat,
            with,
        ),
{
    let s = pat + b;
    assert(s.subrange(0, pat.len() as int) =~= pat);
    assert(s.skip(pat.len() as int) =~= b);
}

proof fn lemma_skip_other(q: Seq<char>, b: Seq<char>, pat: Seq<char>, with: Seq<char>)
    requires
        is_placeholder(pat),
        is_placeholder(q),
        q != pat,
    ensures
        crate::text::replace_all(q + b, pat, with) == q + crate::text::replace_all(b, pat, with),
{
    let s = q + b;
    let rest = q.skip(1);
    assert(!crate::text::occurs_at(s, pat, 0)) by {
        if crate::text::occurs_at(s, pat, 0) {
            let head = s.subrange(0, pat.len() as int);
            let n = q.len() as int;
            let m = pat.len() as int;
            if n < m {
                assert(head[n - 1] == pat[n - 1]);
                assert(s[n - 1] == q[n - 1]);
            } else if m < n {
                assert(head[m - 1] == pat[m - 1]);
                assert(s[m - 1] == q[m - 1]);
            } else {
                assert forall|k: int| 0 <= k < n implies q[k] == pat[k] by {
                    assert(head[k] == pat[k]);
                }
                assert(q =~= pat);
            }
        }
    }
    assert forall|k: int| 0 <= k < rest.len() implies #[trigger] rest[k] != '{' by {
        assert(rest[k] == q[k + 1]);
        if k + 1 < q.len() - 1 {
            assert(q[k + 1] != '{');
        }
    }
    lemma_skip_text(rest, b, pat, with);
    assert(s.skip(1) =~= rest + b);
    let tail = crate::text::replace_all(b, pat, with);
    if s.len() < pat.len() {
        lemma_short(b, pat, with);
    } else {
        assert(seq![s[0]] + (rest + tail) =~= q + tail);
    }
}

proof fn lemma_fill_all(pieces: Seq<Piece>, place: Piece, value: Seq<char>)
    requires
        plain(pieces),
        !(place is Text),
    ensures
        crate::text::replace_all(template_of(pieces), written(place), value) == template_of(
            filled(pieces, place, value),
        ),
    decreases pieces.len(),
{
    let pat = written(place);
    lemma_places();
    if pieces.len() == 0 {
        assert(template_of(pieces) =~= Seq::empty());
        assert(filled(pieces, place, value) =~= Seq::empty());
    } else {
        let first = pieces[0];
        let rest = pieces.skip(1);
        assert forall|i: int| 0 <= i < rest.len() implies (#[trigger] rest[i] matches Piece::Text(s)
            ==> !s.contains('{')) by {
            assert(rest[i] == pieces[i + 1]);
        }
        lemma_fill_all(rest, place, value);
        assert(filled(pieces, place, value).skip(1) =~= filled(rest, place, value));
        let b = template_of(rest);
        match first {
            Piece::Text(s) => {
                assert(pieces[0] is Text);
                assert forall|k: int| 0 <= k < s.len() implies #[trigger] s[k] != '{' by {
                    if s[k] == '{' {
                        assert(s.contains('{'));
                    }
                }
                lemma_skip_text(s, b, pat, value);
            },
            _ => {
                if first == place {
                    lemma_fill(b, pat, value);
                } else {
                    lemma_places_differ(first, place);
                    lemma_skip_other(written(first), b, pat, value);
                }
            },
        }
    }
}

proof fn lemma_places()
    ensures
        forall|p: Piece| !(p is Text) ==> is_placeholder(#[trigger] written(p)),
{
    reveal_strlit("{title}");
    reveal_strlit("{album}");
    reveal_strlit("{artist}");
    reveal_strlit("{album_artist}");
    reveal_strlit("{track_number}");
    reveal_strlit("{disc_number}");
    reveal_strlit("{year}");
    reveal_strlit("{ext}");
}

proof fn lemma_places_differ(p: Piece, q: Piece)
    requires
        !(p is Text),
        !(q is Text),
        p != q,
    ensures
        written(p) != written(q),
{
    reveal_strlit("{title}");
    reveal_strlit("{album}");
    reveal_strlit("{artist}");
    reveal_strlit("{album_artist}");
    reveal_strlit("{track_number}");
    reveal_strlit("{disc_number}");
    reveal_strlit("{year}");
    reveal_strlit("{ext}");
    assert("{title}"@.len() == 7 && "{album}"@.len() == 7 && "{artist}"@.len() == 8
        && "{album_artist}"@.len() == 14 && "{track_number}"@.len() == 14 && "{disc_number}"@.len()
        == 13 && "{year}"@.len() == 6 && "{ext}"@.len() == 5);
    assert("{title}"@[1] == 't' && "{album}"@[1] == 'a');
    assert("{album_artist}"@[1] == 'a' && "{track_number}"@[1] == 't');
}

proof fn lemma_filled_plain(pieces: Seq<Piece>, place: Piece, value: Seq<char>)
    requires
        plain(pieces),
        !value.contains('{'),
    ensures
        plain(filled(pieces, place, value)),
{
    let after = filled(pieces, place, value);
    assert forall|i: int| 0 <= i < after.len() implies (#[trigger] after[i] matches Piece::Text(s)
        ==> !s.contains('{')) by {
        assert(pieces[i] matches Piece::Text(s) ==> !s.contains('{'));
    }
}

/// A template is rendered piece by piece: its text stays, and in each place stands what is
/// known of the track, made safe: its title, its album, its artist, the artist of the
/// album, its number, the disc, the year and the extension of the file.
pub proof fn lemma_rendered_piece_by_piece(
    pieces: Seq<Piece>,
    names: super::template::Names,
    ext: Seq<char>,
)
    requires
        plain(pieces),
        !super::template::sanitized(names.title).contains('{'),
        !super::template::sanitized(names.album).contains('{'),
        !super::template::sanitized(names.artist).contains('{'),
        !super::template::sanitized(names.album_artist).contains('{'),
        !names.track_number.contains('{'),
        !super::template::sanitized(names.year).contains('{'),
    ensures
        super::template::rendered(template_of(pieces), names, ext) == path_of(pieces, names, ext),
{
    reveal_strlit("1");
    assert("1"@ =~= seq!['1']);
    let v1 = super::template::sanitized(names.title);
    let v2 = super::template::sanitized(names.album);
    let v3 = super::template::sanitized(names.artist);
    let v4 = super::template::sanitized(names.album_artist);
    let v5 = names.track_number;
    let v6 = "1"@;
    let v7 = super::template::sanitized(names.year);
    let p1 = filled(pieces, Piece::Title, v1);
    let p2 = filled(p1, Piece::Album, v2);
    let p3 = filled(p2, Piece::Artist, v3);
    let p4 = filled(p3, Piece::AlbumArtist, v4);
    let p5 = filled(p4, Piece::TrackNumber, v5);
    let p6 = filled(p5, Piece::DiscNumber, v6);
    let p7 = filled(p6, Piece::Year, v7);
    let p8 = filled(p7, Piece::Extension, ext);
    lemma_fill_all(pieces, Piece::Title, v1);
    lemma_filled_plain(pieces, Piece::Title, v1);
    lemma_fill_all(p1, Piece::Album, v2);
    lemma_filled_plain(p1, Piece::Album, v2);
    lemma_fill_all(p2, Piece::Artist, v3);
    lemma_filled_plain(p2, Piece::Artist, v3);
    lemma_fill_all(p3, Piece::AlbumArtist, v4);
    lemma_filled_plain(p3, Piece::AlbumArtist, v4);
    lemma_fill_all(p4, Piece::TrackNumber, v5);
    lemma_filled_plain(p4, Piece::TrackNumber, v5);
    lemma_fill_all(p5, Piece::DiscNumber, v6);
    lemma_filled_plain(p5, Piece::DiscNumber, v6);
    lemma_fill_all(p6, Piece::Year, v7);
    lemma_filled_plain(p6, Piece::Year, v7);
    lemma_fill_all(p7, Piece::Extension, ext);
    assert forall|i: int| 0 <= i < pieces.len() implies #[trigger] p8[i] == whole(
        pieces[i],
        names,
        ext,
    ) by {}
    lemma_all_text(p8, pieces, names, ext);
}

/// What stands in the path for a piece.
pub open spec fn whole(p: Piece, names: super::template::Names, ext: Seq<char>) -> Piece {
    match p {
        Piece::Text(s) => Piece::Text(s),
        Piece::Title => Piece::Text(super::template::sanitized(names.title)),
        Piece::Album => Piece::Text(super::template::sanitized(names.album)),
        Piece::Artist => Piece::Text(super::template::sanitized(names.artist)),
        Piece::AlbumArtist => Piece::Text(super::template::sanitized(names.album_artist)),
        Piece::TrackNumber => Piece::Text(names.track_number),
        Piece::DiscNumber => Piece::Text("1"@),
        Piece::Year => Piece::Text(super::template::sanitized(names.year)),
        Piece::Extension => Piece::Text(ext),
    }
}

proof fn lemma_all_text(
    after: Seq<Piece>,
    pieces: Seq<Piece>,
    names: super::template::Names,
    ext: Seq<char>,
)
    requires
        after.len() == pieces.len(),
        forall|i: int|
            0 <= i < pieces.len() ==> #[trigger] after[i] == whole(pieces[i], names, ext),
    ensures
        template_of(after) == path_of(pieces, names, ext),
    decreases pieces.len(),
{
    if pieces.len() > 0 {
        reveal_strlit("1");
        assert("1"@ =~= seq!['1']);
        let a = after.skip(1);
        let p = pieces.skip(1);
        assert forall|i: int| 0 <= i < p.len() implies #[trigger] a[i] == whole(p[i], names, ext) by {
            assert(after[i + 1] == whole(pieces[i + 1], names, ext));
        }
        lemma_all_text(a, p, names, ext);
        assert(after[0] == whole(pieces[0], names, ext));
    }
}

/// What a template is filled with is what is known of the track: its own title, album and
/// number, its first artist, and the first artist of the album or else that of the track.
pub proof fn lemma_filled_with_what_is_known(meta: ResolvedTrackMetadata)
    ensures
        ({
            let names = super::template::names_of(meta);
            match meta {
                ResolvedTrackMetadata::MusicBrainz(m) => {
                    &&& names.title == m.track_title@
                    &&& names.album == m.album_title@
                    &&& m.track_artists@.len() > 0 ==> names.artist == m.track_artists@[0].name@
                    &&& m.track_artists@.len() == 0 ==> names.artist == "Unknown Artist"@
                    &&& m.album_artists@.len() > 0 ==> names.album_artist
                        == m.album_artists@[0].name@
                    &&& m.album_artists@.len() == 0 ==> names.album_artist == names.artist
                    &&& 0 <= m.track_number < 10 ==> names.track_number == seq!['0']
                        + crate::text::decimal(m.track_number as nat)
                    &&& m.track_number >= 10 ==> names.track_number == crate::text::decimal(
                        m.track_number as nat,
                    )
                    &&& m.album_year matches Some(y) ==> (y >= 0 ==> names.year
                        == crate::text::decimal(y as nat))
                    &&& m.album_year is None ==> names.year.len() == 0
                },
                ResolvedTrackMetadata::ExistingFile(f) => {
                    &&& names.title == f.track_title@
                    &&& names.album == f.album_title@
                    &&& f.track_artists@.len() > 0 ==> names.artist == f.track_artists@[0]@
                    &&& f.track_artists@.len() == 0 ==> names.artist == "Unknown Artist"@
                    &&& f.album_artists@.len() > 0 ==> names.album_artist == f.album_artists@[0]@
                    &&& f.album_artists@.len() == 0 ==> names.album_artist == names.artist
                    &&& f.track_number matches Some(n) ==> {
                        &&& 0 <= n < 10 ==> names.track_number == seq!['0'] + crate::text::decimal(
                            n as nat,
                        )
                        &&& n >= 10 ==> names.track_number == crate::text::decimal(n as nat)
                    }
                    &&& f.track_number is None ==> names.track_number == seq!['0', '0']
                    &&& f.album_year matches Some(y) ==> (y >= 0 ==> names.year
                        == crate::text::decimal(y as nat))
                    &&& f.album_year is None ==> names.year.len() == 0
                },
            }
        }),
{
    assert(crate::text::decimal(0) =~= seq!['0']);
    assert(seq!['0'] + crate::text::decimal(0) =~= seq!['0', '0']);
}

/// The character stands for something else in the paths of some system.
pub open spec fn is_forbidden(c: char) -> bool {
    c == ':' || c == '?' || c == '*' || c == '"' || c == '<' || c == '>' || c == '|' || c == '\\'
        || c == '/'
}

/// Making a text safe loses nothing but white space at its ends: every character stays in
/// its place, one that may not stand in a name becomes a hyphen, and a zero a space.
pub proof fn lemma_safe_text_keeps_its_characters(s: Seq<char>)
    requires
        s.len() > 0,
        !crate::text::white_space(s[0]),
        !crate::text::white_space(s.last()),
        s[0] != '\0',
        s.last() != '\0',
    ensures
        super::template::sanitized(s).len() == s.len(),
        forall|i: int|
            0 <= i < s.len() ==> #[trigger] super::template::sanitized(s)[i] == if is_forbidden(
                s[i],
            ) {
                '-'
            } else if s[i] == '\0' {
                ' '
            } else {
                s[i]
            },
{
    let m = s.map_values(|c: char| super::template::safe_char(c));
    assert(m[0] == super::template::safe_char(s[0]));
    assert(m.last() == super::template::safe_char(s.last()));
    crate::text::lemma_trimmed_fixed(m);
}

/// No character that may not stand in a name is left of a text that was made safe.
pub proof fn lemma_safe_text_is_safe(s: Seq<char>, i: int)
    requires
        0 <= i < super::template::sanitized(s).len(),
    ensures
        !is_forbidden(super::template::sanitized(s)[i]),
        super::template::sanitized(s)[i] != '\0',
{
    super::template::lemma_sanitized_is_safe(s);
}

/// The path of a track is its template, with each placeholder replaced by what is known of
/// the track.
pub proof fn lemma_path_of_a_track(
    template: &str,
    meta: ResolvedTrackMetadata,
    ext: &str,
    pieces: Seq<Piece>,
    r: String,
)
    requires
        call_ensures(super::template::render, (template, &meta, ext), r),
        template@ == template_of(pieces),
        plain(pieces),
        ({
            let names = super::template::names_of(meta);
            &&& !super::template::sanitized(names.title).contains('{')
            &&& !super::template::sanitized(names.album).contains('{')
            &&& !super::template::sanitized(names.artist).contains('{')
            &&& !super::template::sanitized(names.album_artist).contains('{')
            &&& !names.track_number.contains('{')
            &&& !super::template::sanitized(names.year).contains('{')
        }),
    ensures
        r@ == path_of(pieces, super::template::names_of(meta), ext@),
{
    lemma_rendered_piece_by_piece(pieces, super::template::names_of(meta), ext@);
}

} // verus!
