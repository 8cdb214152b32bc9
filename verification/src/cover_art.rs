//! Front covers from the Cover Art Archive.
use vstd::prelude::*;

use crate::text::{after_last_chars, append_str, decimal_chars, from_chars, to_chars};

verus! {

/// Why there is no cover.
#[derive(Debug, Clone, Copy, PartialEq, Eq, Structural)]
pub enum CoverArtArchiveError {
    InvalidMBID,
    NotFound,
    RateLimitExceeded,
    UnexpectedStatus(u16),
    UnexpectedImageStatus(u16),
    NetworkError,
    UnexpectedError,
}

/// The words that describe why there is no cover.
pub open spec fn error_words(e: CoverArtArchiveError) -> Seq<char> {
    match e {
        CoverArtArchiveError::InvalidMBID => "invalid MBID"@,
        CoverArtArchiveError::NotFound => "not found"@,
        CoverArtArchiveError::RateLimitExceeded => "rate limit exceeded"@,
        CoverArtArchiveError::UnexpectedStatus(n) => "unexpected status: "@ + crate::text::decimal(
            n as nat,
        ),
        CoverArtArchiveError::UnexpectedImageStatus(n) => "unexpected image status: "@
            + crate::text::decimal(n as nat),
        CoverArtArchiveError::NetworkError => "network error"@,
        CoverArtArchiveError::UnexpectedError => "unexpected error"@,
    }
}

impl CoverArtArchiveError {
    /// The error in words.
    pub fn message(&self) -> (r: String)
        ensures
            r@ == error_words(*self),
    {
        match self {
            CoverArtArchiveError::InvalidMBID => "invalid MBID".to_owned(),
            CoverArtArchiveError::NotFound => "not found".to_owned(),
            CoverArtArchiveError::RateLimitExceeded => "rate limit exceeded".to_owned(),
            CoverArtArchiveError::UnexpectedStatus(n) => append_str(
                "unexpected status: ",
                from_chars(&decimal_chars(*n as u64)).as_str(),
            ),
            CoverArtArchiveError::UnexpectedImageStatus(n) => append_str(
                "unexpected image status: ",
                from_chars(&decimal_chars(*n as u64)).as_str(),
            ),
            CoverArtArchiveError::NetworkError => "network error".to_owned(),
            CoverArtArchiveError::UnexpectedError => "unexpected error".to_owned(),
        }
    }
}

/// A cover: the bytes of an image and the extension its name had.
#[derive(Debug)]
pub struct AlbumArt {
    pub data: Vec<u8>,
    pub extension: String,
}

/// The address that a reference leads to from a base address; `None` where one of
/// them is no address.
pub uninterp spec fn joined(base: Seq<char>, reference: Seq<char>) -> Option<Seq<char>>;

/// A reference made of small letters, digits, hyphens and, but for its start,
/// slashes.
pub open spec fn is_plain(reference: Seq<char>) -> bool {
    &&& reference.len() > 0
    &&& reference[0] != '/'
    &&& forall|i: int|
        0 <= i < reference.len() ==> {
            let c = #[trigger] reference[i];
            ('a' <= c && c <= 'z') || ('0' <= c && c <= '9') || c == '-' || c == '/'
        }
}

/// Where the archive keeps its releases.
pub open spec fn releases() -> Seq<char> {
    "https://coverartarchive.org/release/"@
}

/// `url::Url::parse` of the base and `url::Url::join` with the reference, as text.
/// Whether they succeed, and with what, is a function of the two texts. From the
/// address of the archive a plain reference leads to that address with the
/// reference after it.
#[verifier::external_body]
fn join_url(base: &str, reference: &str) -> (r: Option<String>)
    ensures
        match r {
            Some(u) => {
                &&& joined(base@, reference@) == Some(u@)
                &&& base@ == releases() && is_plain(reference@) ==> u@ == base@ + reference@
            },
            None => {
                &&& joined(base@, reference@) is None
                &&& !(base@ == releases() && is_plain(reference@))
            },
        },
{
    url::Url::parse(base).ok()?.join(reference).ok().map(String::from)
}

/// The address at which the archive answers for the front cover of a release.
pub fn front_url(release_mbid: &str) -> (r: Result<String, CoverArtArchiveError>)
    ensures
        match r {
            Ok(u) => joined(releases(), release_mbid@ + "/front"@) == Some(u@),
            Err(e) => {
                &&& joined(releases(), release_mbid@ + "/front"@) is None
                &&& e == CoverArtArchiveError::UnexpectedError
            },
        },
        is_plain(release_mbid@ + "/front"@) ==> (r matches Ok(u) && u@ == releases() + (
        release_mbid@ + "/front"@)),
{
    let reference = append_str(release_mbid, "/front");
    match join_url("https://coverartarchive.org/release/", reference.as_str()) {
        Some(u) => Ok(u),
        None => Err(CoverArtArchiveError::UnexpectedError),
    }
}

/// What the archive answers for a front cover: the address of the image, or why
/// there is none. The address is `None` where the answer names none in text.
pub fn after_front(status: u16, location: Option<String>) -> (r: Result<
    String,
    CoverArtArchiveError,
>)
    ensures
        r == if status == 307 {
            match location {
                Some(u) => Ok::<String, CoverArtArchiveError>(u),
                None => Err(CoverArtArchiveError::UnexpectedError),
            }
        } else if status == 400 {
            Err(CoverArtArchiveError::InvalidMBID)
        } else if status == 404 {
            Err(CoverArtArchiveError::NotFound)
        } else if status == 503 {
            Err(CoverArtArchiveError::RateLimitExceeded)
        } else {
            Err(CoverArtArchiveError::UnexpectedStatus(status))
        },
{
    if status == 307 {
        match location {
            Some(u) => Ok(u),
            None => Err(CoverArtArchiveError::UnexpectedError),
        }
    } else if status == 400 {
        Err(CoverArtArchiveError::InvalidMBID)
    } else if status == 404 {
        Err(CoverArtArchiveError::NotFound)
    } else if status == 503 {
        Err(CoverArtArchiveError::RateLimitExceeded)
    } else {
        Err(CoverArtArchiveError::UnexpectedStatus(status))
    }
}

/// What comes of asking for the image: the cover, or why there is none. The bytes
/// are `None` where they could not be read.
pub fn after_image(image_url: &str, status: u16, data: Option<Vec<u8>>) -> (r: Result<
    AlbumArt,
    CoverArtArchiveError,
>)
    ensures
        if status == 200 {
            match data {
                Some(data) => r matches Ok(art) && art.data == data && art.extension@
                    == crate::text::after_last(image_url@, '.'),
                None => r == Err::<AlbumArt, CoverArtArchiveError>(
                    CoverArtArchiveError::UnexpectedError,
                ),
            }
        } else if status == 404 {
            r == Err::<AlbumArt, CoverArtArchiveError>(CoverArtArchiveError::NotFound)
        } else {
            r == Err::<AlbumArt, CoverArtArchiveError>(
                CoverArtArchiveError::UnexpectedImageStatus(status),
            )
        },
{
    if status == 200 {
        let extension = from_chars(&after_last_chars(&to_chars(image_url), '.'));
        match data {
            Some(data) => Ok(AlbumArt { data, extension }),
            None => Err(CoverArtArchiveError::UnexpectedError),
        }
    } else if status == 404 {
        Err(CoverArtArchiveError::NotFound)
    } else {
        Err(CoverArtArchiveError::UnexpectedImageStatus(status))
    }
}

} // verus!
