//! What the archive of covers is asked and what its answers mean.
use vstd::prelude::*;

use crate::cover_art::{AlbumArt, CoverArtArchiveError};

verus! {

/// The archive is asked for the front cover of a release at the address of that release.
pub proof fn lemma_front_cover_is_asked_for(mbid: &str, r: Result<String, CoverArtArchiveError>)
    requires
        call_ensures(crate::cover_art::front_url, (mbid,), r),
        mbid@.len() > 0,
        forall|i: int|
            0 <= i < mbid@.len() ==> ('a' <= #[trigger] mbid@[i] && mbid@[i] <= 'z') || ('0'
                <= mbid@[i] && mbid@[i] <= '9') || mbid@[i] == '-',
    ensures
        r matches Ok(u) && u@ == "https://coverartarchive.org/release/"@ + mbid@ + "/front"@,
{
    reveal_strlit("/front");
    let reference = mbid@ + "/front"@;
    assert(crate::cover_art::is_plain(reference)) by {
        assert forall|i: int| 0 <= i < reference.len() implies {
            let c = #[trigger] reference[i];
            ('a' <= c && c <= 'z') || ('0' <= c && c <= '9') || c == '-' || c == '/'
        } by {
            if i < mbid@.len() {
                assert(reference[i] == mbid@[i]);
            } else {
                assert(reference[i] == "/front"@[i - mbid@.len()]);
            }
        }
        assert(reference[0] == mbid@[0]);
    }
    assert("https://coverartarchive.org/release/"@ + reference
        =~= "https://coverartarchive.org/release/"@ + mbid@ + "/front"@);
}

/// The archive sends us on to the image where it has one and says where; a release that it
/// does not know, or that has no cover, and one asked for too often are told apart.
pub proof fn lemma_answers_for_a_cover(
    status: u16,
    location: Option<String>,
    r: Result<String, CoverArtArchiveError>,
)
    requires
        call_ensures(crate::cover_art::after_front, (status, location), r),
    ensures
        r is Ok <==> status == 307 && location is Some,
        r matches Ok(u) ==> location == Some(u),
        r == Err::<String, CoverArtArchiveError>(CoverArtArchiveError::InvalidMBID) <==> status
            == 400,
        r == Err::<String, CoverArtArchiveError>(CoverArtArchiveError::NotFound) <==> status == 404,
        r == Err::<String, CoverArtArchiveError>(CoverArtArchiveError::RateLimitExceeded)
            <==> status == 503,
        r == Err::<String, CoverArtArchiveError>(CoverArtArchiveError::UnexpectedError) <==> status
            == 307 && location is None,
        r == Err::<String, CoverArtArchiveError>(CoverArtArchiveError::UnexpectedStatus(status))
            <==> status != 307 && status != 400 && status != 404 && status != 503,
{
}

/// The image that comes is the cover, with the extension that its address ends with; one
/// that does not come, and one that is not there, are told apart.
pub proof fn lemma_image_is_the_cover(
    url: &str,
    before: Seq<char>,
    extension: Seq<char>,
    status: u16,
    data: Option<Vec<u8>>,
    r: Result<AlbumArt, CoverArtArchiveError>,
)
    requires
        call_ensures(crate::cover_art::after_image, (url, status, data), r),
        url@ == before + seq!['.'] + extension,
        !extension.contains('.'),
    ensures
        r is Ok <==> status == 200 && data is Some,
        r matches Ok(art) ==> data == Some(art.data) && art.extension@ == extension,
        r == Err::<AlbumArt, CoverArtArchiveError>(CoverArtArchiveError::NotFound) <==> status
            == 404,
        r == Err::<AlbumArt, CoverArtArchiveError>(
            CoverArtArchiveError::UnexpectedImageStatus(status),
        ) <==> status != 200 && status != 404,
{
    crate::text_laws::lemma_around_last(before, extension, '.');
}

} // verus!
