//! Why a song could not be found or fetched.
use vstd::prelude::*;

use crate::soulseek::error::SoulseekRs;
use crate::text::append_str;

verus! {

/// Why a song could not be found or fetched.
#[derive(Debug)]
pub enum Error {
    Soulseek(SoulseekRs),
    NoResults,
    DownloadFailed,
}

/// The words that describe an error.
pub open spec fn error_words(e: Error) -> Seq<char> {
    match e {
        Error::Soulseek(s) => "soulseek error: "@ + crate::soulseek::error::error_words(s),
        Error::NoResults => "no results found for query"@,
        Error::DownloadFailed => "download failed"@,
    }
}

impl Error {
    /// The error in words.
    pub fn message(&self) -> (r: String)
        ensures
            r@ == error_words(*self),
    {
        match self {
            Error::Soulseek(s) => append_str("soulseek error: ", s.message().as_str()),
            Error::NoResults => "no results found for query".to_owned(),
            Error::DownloadFailed => "download failed".to_owned(),
        }
    }
}

impl From<SoulseekRs> for Error {
    fn from(e: SoulseekRs) -> (r: Self) {
        Error::Soulseek(e)
    }
}

impl vstd::std_specs::convert::FromSpecImpl<SoulseekRs> for Error {
    open spec fn obeys_from_spec() -> bool {
        true
    }

    open spec fn from_spec(e: SoulseekRs) -> Self {
        Error::Soulseek(e)
    }
}

} // verus!
