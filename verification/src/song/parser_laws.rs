//! What a shared path says about its track, told by the pieces the path is made of.
use vstd::prelude::*;

use super::parser::ParsedSoulseekMetadata;

verus! {

/// The directories of a path name the artist and the album, however deep they lie: the
/// directory that holds the file is the album, and the one above it is the artist, unless
/// the file's own name has one.
pub proof fn lemma_directories_name_artist_and_album(
    share: Seq<char>,
    artist: Seq<char>,
    album: Seq<char>,
    file: Seq<char>,
)
    requires
        !artist.contains('\\'),
        !album.contains('\\'),
        !file.contains('\\'),
    ensures
        ({
            let path = share + seq!['\\'] + (artist + seq!['\\'] + (album + seq!['\\'] + file));
            let stem = super::parser::without_track_number(crate::text::before_last(file, '.'));
            let names = super::parser::track_names(path);
            &&& names.album == Some(album)
            &&& super::parser::artist_and_title(stem) is None ==> names.artist == artist
                && names.title == crate::text::trimmed(stem)
        }),
{
    let c = '\\';
    let low = album + seq![c] + file;
    let mid = artist + seq![c] + low;
    let path = share + seq![c] + mid;
    crate::text_laws::lemma_split_concat(share, mid, c);
    crate::text_laws::lemma_split_concat(artist, low, c);
    crate::text_laws::lemma_split_concat(album, file, c);
    crate::text_laws::lemma_split_whole(artist, c);
    crate::text_laws::lemma_split_whole(album, c);
    crate::text_laws::lemma_split_whole(file, c);
    crate::text::lemma_split_join(share, c);
    let front = crate::text::split_on(share, c);
    let parts = crate::text::split_on(path, c);
    assert(parts =~= front + seq![artist, album, file]);
    let dirs = parts.skip(1).drop_last();
    assert(parts.skip(1).last() == file);
    assert(dirs.last() == album);
    assert(dirs[dirs.len() - 2] == artist);
}

/// What stands in front of the artist's directory never matters.
pub proof fn lemma_share_does_not_matter(
    share: Seq<char>,
    other: Seq<char>,
    artist: Seq<char>,
    album: Seq<char>,
    file: Seq<char>,
)
    requires
        !artist.contains('\\'),
        !album.contains('\\'),
        !file.contains('\\'),
    ensures
        ({
            let rest = artist + seq!['\\'] + (album + seq!['\\'] + file);
            super::parser::track_names(share + seq!['\\'] + rest) == super::parser::track_names(
                other + seq!['\\'] + rest,
            )
        }),
{
    lemma_directories_name_artist_and_album(share, artist, album, file);
    lemma_directories_name_artist_and_album(other, artist, album, file);
    lemma_file_name_alone_names_artist(share, artist + seq!['\\'] + album, file);
    lemma_file_name_alone_names_artist(other, artist + seq!['\\'] + album, file);
    let rest = artist + seq!['\\'] + (album + seq!['\\'] + file);
    assert(rest =~= (artist + seq!['\\'] + album) + seq!['\\'] + file);
}

/// Where the file's own name has an artist and a title, they count, whatever the
/// directories are.
pub proof fn lemma_file_name_alone_names_artist(
    share: Seq<char>,
    dirs: Seq<char>,
    file: Seq<char>,
)
    requires
        !file.contains('\\'),
    ensures
        ({
            let path = share + seq!['\\'] + (dirs + seq!['\\'] + file);
            let stem = super::parser::without_track_number(crate::text::before_last(file, '.'));
            super::parser::artist_and_title(stem) matches Some((artist, title)) ==> {
                &&& super::parser::track_names(path).artist == artist
                &&& super::parser::track_names(path).title == title
            }
        }),
{
    let c = '\\';
    let low = dirs + seq![c] + file;
    crate::text_laws::lemma_split_concat(share, low, c);
    crate::text_laws::lemma_split_concat(dirs, file, c);
    crate::text_laws::lemma_split_whole(file, c);
    crate::text::lemma_split_join(share, c);
    crate::text::lemma_split_join(dirs, c);
    let parts = crate::text::split_on(share + seq![c] + low, c);
    assert(parts.skip(1).last() == file);
}

/// Neither a digit, nor a separator, nor white space: what a name can start with that is
/// not taken for a track number or for padding.
pub open spec fn starts_a_name(c: char) -> bool {
    !('0' <= c <= '9') && c != '-' && c != '.' && c != ' ' && !crate::text::white_space(c)
}

/// A name: it is not empty, starts as a name does, and does not end in white space.
pub open spec fn is_name(s: Seq<char>) -> bool {
    s.len() > 0 && starts_a_name(s[0]) && !crate::text::white_space(s.last())
}

/// A name of its own is left as it is.
pub proof fn lemma_name_has_no_track_number(s: Seq<char>)
    requires
        is_name(s),
    ensures
        super::parser::without_track_number(s) == s,
{
    crate::text::lemma_trimmed_fixed(s);
}

/// A track number of one to three digits in front of a name is dropped, with any dashes,
/// points and spaces that follow it.
pub proof fn lemma_track_number_is_dropped(
    number: Seq<char>,
    separators: Seq<char>,
    name: Seq<char>,
)
    requires
        1 <= number.len() <= 3,
        forall|k: int| 0 <= k < number.len() ==> '0' <= #[trigger] number[k] && number[k] <= '9',
        forall|k: int|
            0 <= k < separators.len() ==> (#[trigger] separators[k] == '-' || separators[k] == '.'
                || separators[k] == ' '),
        is_name(name),
    ensures
        super::parser::without_track_number(number + separators + name) == name,
{
    let s = number + separators + name;
    let d = number.len() as int;
    let n = d + separators.len();
    assert(s[0] == number[0]);
    assert('0' <= number[0] && number[0] <= '9');
    assert(s.last() == name.last());
    crate::text::lemma_trimmed_fixed(s);
    assert forall|k: int| 0 <= k < d implies super::parser::is_digit(#[trigger] s[k]) by {
        assert('0' <= number[k] && number[k] <= '9');
    }
    assert(!super::parser::is_digit(s[d])) by {
        if separators.len() > 0 {
            assert(s[d] == separators[0]);
        } else {
            assert(s[d] == name[0]);
        }
    }
    super::parser::lemma_leading_digits_at(s, d);
    let t = s.skip(d);
    assert forall|k: int| 0 <= k < separators.len() implies super::parser::is_number_separator(
        #[trigger] t[k],
    ) by {
        assert(t[k] == separators[k]);
    }
    assert(t[separators.len() as int] == name[0]);
    super::parser::lemma_without_separators_at(t, separators.len() as int);
    assert(t.skip(separators.len() as int) =~= name);
}

/// More than three digits in front are part of the name, as a year is.
pub proof fn lemma_long_number_is_kept(number: Seq<char>, rest: Seq<char>)
    requires
        number.len() > 3,
        forall|k: int| 0 <= k < number.len() ==> '0' <= #[trigger] number[k] && number[k] <= '9',
        rest.len() > 0 ==> !crate::text::white_space(rest.last()),
    ensures
        super::parser::without_track_number(number + rest) == number + rest,
{
    let s = number + rest;
    assert(s[0] == number[0]);
    assert('0' <= number[0] && number[0] <= '9');
    assert('0' <= number.last() && number.last() <= '9') by {
        assert(number[number.len() - 1] == number.last());
    }
    assert(!crate::text::white_space(s.last()));
    crate::text::lemma_trimmed_fixed(s);
    lemma_at_least_leading_digits(s, number.len());
}

proof fn lemma_at_least_leading_digits(s: Seq<char>, n: nat)
    requires
        n <= s.len(),
        forall|k: int| 0 <= k < n ==> '0' <= #[trigger] s[k] && s[k] <= '9',
    ensures
        super::parser::leading_digits(s) >= n,
    decreases n,
{
    if n > 0 {
        assert('0' <= s[0] && s[0] <= '9');
        assert forall|k: int| 0 <= k < n - 1 implies '0' <= #[trigger] s.skip(1)[k] && s.skip(1)[k]
            <= '9' by {
            assert('0' <= s[k + 1] && s[k + 1] <= '9');
        }
        lemma_at_least_leading_digits(s.skip(1), (n - 1) as nat);
    }
}

/// `Artist - Title` is read as that artist and that title.
pub proof fn lemma_artist_and_title_are_read(artist: Seq<char>, title: Seq<char>)
    requires
        artist.len() > 0,
        !crate::text::white_space(artist[0]),
        !crate::text::white_space(artist.last()),
        !artist.contains('-'),
        title.len() > 0,
        !crate::text::white_space(title[0]),
        !crate::text::white_space(title.last()),
    ensures
        super::parser::artist_and_title(artist + seq![' ', '-', ' '] + title) == Some(
            (artist, title),
        ),
{
    let sep = super::parser::artist_separator();
    let s = artist + sep + title;
    let n = artist.len() as int;
    lemma_separator_is_found(artist, title);
    crate::text::lemma_trimmed_fixed(artist);
    crate::text::lemma_trimmed_fixed(title);
    lemma_read_around(s, n, artist, title);
}

proof fn lemma_read_around(s: Seq<char>, n: int, artist: Seq<char>, title: Seq<char>)
    requires
        s == artist + super::parser::artist_separator() + title,
        n == artist.len(),
        crate::text::first_occurrence(s, super::parser::artist_separator()) == Some(n),
        crate::text::trimmed(artist) == artist,
        crate::text::trimmed(title) == title,
        artist.len() > 0,
        title.len() > 0,
    ensures
        super::parser::artist_and_title(s) == Some((artist, title)),
{
    assert(s.take(n) =~= artist);
    assert(s.skip(n + 3) =~= title);
}

proof fn lemma_separator_is_found(artist: Seq<char>, title: Seq<char>)
    requires
        !artist.contains('-'),
    ensures
        crate::text::first_occurrence(
            artist + super::parser::artist_separator() + title,
            super::parser::artist_separator(),
        ) == Some(artist.len() as int),
{
    let sep = super::parser::artist_separator();
    let s = artist + sep + title;
    let n = artist.len() as int;
    assert(s.subrange(n, n + 3) =~= sep);
    assert(crate::text::occurs_at(s, sep, n));
    assert forall|k: int| 0 <= k < n implies !#[trigger] crate::text::occurs_at(s, sep, k) by {
        if s.subrange(k, k + 3) == sep {
            assert(s.subrange(k, k + 3)[1] == sep[1]);
            if k + 1 < n {
                assert(artist[k + 1] == '-');
                assert(artist.contains('-'));
            } else {
                assert(s[k + 1] == sep[0]);
            }
        }
    }
    crate::text_laws::lemma_first_occurrence(s, sep, n);
}

/// A stem without a dash names no artist.
pub proof fn lemma_no_dash_no_artist(stem: Seq<char>)
    requires
        !stem.contains('-'),
    ensures
        super::parser::artist_and_title(stem) is None,
{
    let sep = super::parser::artist_separator();
    assert forall|k: int| !#[trigger] crate::text::occurs_at(stem, sep, k) by {
        if crate::text::occurs_at(stem, sep, k) {
            assert(stem.subrange(k, k + 3)[1] == sep[1]);
            assert(stem[k + 1] == '-');
        }
    }
    crate::text_laws::lemma_first_occurrence(stem, sep, 0);
}

/// A file in its place, `share\artist\album\NN - title.ext`, is read as that artist, that
/// album and that title, whatever the share, the number and the extension.
pub proof fn lemma_filed_track_is_read(
    share: Seq<char>,
    artist: Seq<char>,
    album: Seq<char>,
    number: Seq<char>,
    separators: Seq<char>,
    title: Seq<char>,
    ext: Seq<char>,
)
    requires
        !artist.contains('\\'),
        !album.contains('\\'),
        !(number + separators + title + seq!['.'] + ext).contains('\\'),
        1 <= number.len() <= 3,
        forall|k: int| 0 <= k < number.len() ==> '0' <= #[trigger] number[k] && number[k] <= '9',
        forall|k: int|
            0 <= k < separators.len() ==> (#[trigger] separators[k] == '-' || separators[k] == '.'
                || separators[k] == ' '),
        is_name(title),
        !title.contains('-'),
        !ext.contains('.'),
    ensures
        ({
            let file = number + separators + title + seq!['.'] + ext;
            let path = share + seq!['\\'] + (artist + seq!['\\'] + (album + seq!['\\'] + file));
            let names = super::parser::track_names(path);
            &&& names.artist == artist
            &&& names.album == Some(album)
            &&& names.title == title
        }),
{
    let stem = number + separators + title;
    let file = stem + seq!['.'] + ext;
    lemma_directories_name_artist_and_album(share, artist, album, file);
    crate::text_laws::lemma_around_last(stem, ext, '.');
    lemma_track_number_is_dropped(number, separators, title);
    lemma_no_dash_no_artist(title);
    crate::text::lemma_trimmed_fixed(title);
}

/// A file whose own name is `Artist - Title.ext` is read as that artist and that title,
/// wherever it lies.
pub proof fn lemma_named_track_is_read(
    share: Seq<char>,
    dirs: Seq<char>,
    artist: Seq<char>,
    title: Seq<char>,
    ext: Seq<char>,
)
    requires
        !(artist + seq![' ', '-', ' '] + title + seq!['.'] + ext).contains('\\'),
        is_name(artist),
        !artist.contains('-'),
        title.len() > 0,
        !crate::text::white_space(title[0]),
        !crate::text::white_space(title.last()),
        !ext.contains('.'),
    ensures
        ({
            let file = artist + seq![' ', '-', ' '] + title + seq!['.'] + ext;
            let path = share + seq!['\\'] + (dirs + seq!['\\'] + file);
            let names = super::parser::track_names(path);
            names.artist == artist && names.title == title
        }),
{
    let stem = artist + seq![' ', '-', ' '] + title;
    let file = stem + seq!['.'] + ext;
    crate::text_laws::lemma_around_last(stem, ext, '.');
    assert(stem[0] == artist[0]);
    assert(stem.last() == title.last());
    lemma_name_has_no_track_number(stem);
    lemma_artist_and_title_are_read(artist, title);
    lemma_file_name_alone_names_artist(share, dirs, file);
}

/// A file that is in no directory of its own has no album, and one in a single directory
/// has that as its album; neither has an artist unless its name has one. The title is what
/// the name says.
pub proof fn lemma_shallow_track_is_read(share: Seq<char>, album: Seq<char>, file: Seq<char>)
    requires
        !share.contains('\\'),
        !album.contains('\\'),
        !file.contains('\\'),
    ensures
        ({
            let stem = super::parser::without_track_number(crate::text::before_last(file, '.'));
            let alone = super::parser::track_names(file);
            let shared = super::parser::track_names(share + seq!['\\'] + file);
            let filed = super::parser::track_names(
                share + seq!['\\'] + (album + seq!['\\'] + file),
            );
            &&& alone.album is None
            &&& shared.album is None
            &&& filed.album == Some(album)
            &&& alone.title == shared.title && shared.title == filed.title
            &&& alone.artist == shared.artist && shared.artist == filed.artist
            &&& match super::parser::artist_and_title(stem) {
                Some((artist, title)) => alone.artist == artist && alone.title == title,
                None => alone.artist.len() == 0 && alone.title == crate::text::trimmed(stem),
            }
        }),
{
    let c = '\\';
    crate::text_laws::lemma_split_whole(file, c);
    crate::text_laws::lemma_split_whole(album, c);
    crate::text_laws::lemma_split_whole(share, c);
    crate::text_laws::lemma_split_concat(share, file, c);
    crate::text_laws::lemma_split_concat(album, file, c);
    crate::text_laws::lemma_split_concat(share, album + seq![c] + file, c);
    let two = crate::text::split_on(share + seq![c] + file, c);
    let three = crate::text::split_on(share + seq![c] + (album + seq![c] + file), c);
    assert(two =~= seq![share, file]);
    assert(two.skip(1) =~= seq![file]);
    assert(three =~= seq![share, album, file]);
    assert(three.skip(1) =~= seq![album, file]);
    assert(seq![album, file].drop_last() =~= seq![album]);
}

/// What is read of a file in its place, `share\artist\album\NN - title.ext`, is that artist,
/// that album and that title.
pub proof fn lemma_filed_track_is_parsed(
    path: &str,
    share: Seq<char>,
    artist: Seq<char>,
    album: Seq<char>,
    number: Seq<char>,
    separators: Seq<char>,
    title: Seq<char>,
    ext: Seq<char>,
    r: ParsedSoulseekMetadata,
)
    requires
        call_ensures(super::parser::parse_soulseek_filename, (path,), r),
        !artist.contains('\\'),
        !album.contains('\\'),
        !(number + separators + title + seq!['.'] + ext).contains('\\'),
        1 <= number.len() <= 3,
        forall|k: int| 0 <= k < number.len() ==> '0' <= #[trigger] number[k] && number[k] <= '9',
        forall|k: int|
            0 <= k < separators.len() ==> (#[trigger] separators[k] == '-' || separators[k] == '.'
                || separators[k] == ' '),
        is_name(title),
        !title.contains('-'),
        !ext.contains('.'),
        path@ == share + seq!['\\'] + (artist + seq!['\\'] + (album + seq!['\\'] + (number
            + separators + title + seq!['.'] + ext))),
    ensures
        r.artist@ == artist,
        r.title@ == title,
        r.album matches Some(a) && a@ == album,
{
    lemma_filed_track_is_read(share, artist, album, number, separators, title, ext);
}

/// What is read of a file whose own name is `artist - title.ext` is that artist and that
/// title, wherever it lies.
pub proof fn lemma_named_track_is_parsed(
    path: &str,
    share: Seq<char>,
    dirs: Seq<char>,
    artist: Seq<char>,
    title: Seq<char>,
    ext: Seq<char>,
    r: ParsedSoulseekMetadata,
)
    requires
        call_ensures(super::parser::parse_soulseek_filename, (path,), r),
        !(artist + seq![' ', '-', ' '] + title + seq!['.'] + ext).contains('\\'),
        is_name(artist),
        !artist.contains('-'),
        title.len() > 0,
        !crate::text::white_space(title[0]),
        !crate::text::white_space(title.last()),
        !ext.contains('.'),
        path@ == share + seq!['\\'] + (dirs + seq!['\\'] + (artist + seq![' ', '-', ' '] + title
            + seq!['.'] + ext)),
    ensures
        r.artist@ == artist,
        r.title@ == title,
{
    lemma_named_track_is_read(share, dirs, artist, title, ext);
}

} // verus!
