//! What `fpcalc` says of a file.
use vstd::prelude::*;

use super::error::Error;
use crate::text::{from_chars, lines_chars, parse_number, strip_prefix_chars, to_chars, NumberError};

verus! {

/// What the lines so far give: the last fingerprint and the last duration.
#[verifier::ext_equal]
pub struct Found {
    pub fingerprint: Option<Seq<char>>,
    pub duration: Option<nat>,
}

/// What the first `n` lines give; an error for the first duration that is no
/// number.
pub open spec fn found_in(lines: Seq<Seq<char>>, n: nat) -> Result<Found, NumberError>
    decreases n,
{
    if n == 0 {
        Ok(Found { fingerprint: None, duration: None })
    } else {
        match found_in(lines, (n - 1) as nat) {
            Ok(found) => match crate::text::after_prefix(lines[n - 1], "FINGERPRINT="@) {
                Some(v) => Ok(Found { fingerprint: Some(v), ..found }),
                None => match crate::text::after_prefix(lines[n - 1], "DURATION="@) {
                    Some(v) => match crate::text::number_value(v, u32::MAX as nat) {
                        Ok(d) => Ok(Found { duration: Some(d), ..found }),
                        Err(e) => Err(e),
                    },
                    None => Ok(found),
                },
            },
            Err(e) => Err(e),
        }
    }
}

/// What the output says: the fingerprint and the duration in seconds.
pub open spec fn fingerprint_in(stdout: Seq<char>) -> Result<Found, NumberError> {
    found_in(crate::text::lines_of(stdout), crate::text::lines_of(stdout).len())
}

proof fn lemma_found_error(lines: Seq<Seq<char>>, k: nat, n: nat)
    requires
        k <= n,
        found_in(lines, k) is Err,
    ensures
        found_in(lines, n) == found_in(lines, k),
    decreases n,
{
    if k < n {
        lemma_found_error(lines, k, (n - 1) as nat);
    }
}

/// Read the fingerprint and the duration in seconds from the output of `fpcalc`.
pub fn fingerprint(stdout: &str) -> (r: Result<(String, u32), Error>)
    ensures
        match fingerprint_in(stdout@) {
            Err(e) => r == Err::<(String, u32), Error>(Error::FpcalcBadDuration(e)),
            Ok(found) => match r {
                Ok((fp, duration)) => {
                    &&& found.fingerprint == Some(fp@)
                    &&& found.duration == Some(duration as nat)
                },
                Err(e) => {
                    ||| {
                        &&& found.fingerprint is None
                        &&& e == Error::FpcalcMissingFingerprint
                    }
                    ||| {
                        &&& found.fingerprint is Some
                        &&& found.duration is None
                        &&& e == Error::FpcalcMissingDuration
                    }
                },
            },
        },
{
    let chars = to_chars(stdout);
    let lines = lines_chars(&chars);
    let ghost views = crate::text::parts_view(lines@);
    let fp_prefix = to_chars("FINGERPRINT=");
    let duration_prefix = to_chars("DURATION=");
    let mut fp: Option<Vec<char>> = None;
    let mut duration: Option<u32> = None;
    let mut i: usize = 0;
    while i < lines.len()
        invariant
            i <= lines@.len(),
            views == crate::text::parts_view(lines@),
            views == crate::text::lines_of(stdout@),
            fp_prefix@ == "FINGERPRINT="@,
            duration_prefix@ == "DURATION="@,
            found_in(views, i as nat) == Ok::<Found, NumberError>(
                Found {
                    fingerprint: match fp {
                        Some(v) => Some(v@),
                        None => None,
                    },
                    duration: match duration {
                        Some(d) => Some(d as nat),
                        None => None,
                    },
                },
            ),
        decreases lines@.len() - i,
    {
        assert(views[i as int] == lines@[i as int]@);
        match strip_prefix_chars(&lines[i], &fp_prefix) {
            Some(v) => {
                fp = Some(v);
            },
            None => {
                match strip_prefix_chars(&lines[i], &duration_prefix) {
                    Some(v) => {
                        match parse_number(&v, 0xffff_ffff) {
                            Ok(d) => {
                                proof {
                                    crate::text::lemma_number_bounded(v@, 0xffff_ffff);
                                }
                                duration = Some(d as u32);
                            },
                            Err(e) => {
                                proof {
                                    lemma_found_error(views, (i + 1) as nat, views.len());
                                }
                                return Err(Error::FpcalcBadDuration(e));
                            },
                        }
                    },
                    None => {},
                }
            },
        }
        i += 1;
    }
    match fp {
        None => Err(Error::FpcalcMissingFingerprint),
        Some(fp) => match duration {
            None => Err(Error::FpcalcMissingDuration),
            Some(duration) => Ok((from_chars(&fp), duration)),
        },
    }
}

} // verus!
