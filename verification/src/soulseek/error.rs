//! Errors of the Soulseek client.
use vstd::prelude::*;

use crate::text::append_str;

verus! {

/// What can go wrong in the Soulseek client.
#[derive(Debug)]
pub enum SoulseekRs {
    /// The network failed; the reason in words.
    NetworkError(String),
    /// Authentication failed during login.
    AuthenticationFailed,
    /// A message or other data could not be parsed.
    ParseError(String),
    /// The operation timed out.
    Timeout,
    /// The connection was closed unexpectedly.
    ConnectionClosed,
    /// A message was malformed.
    InvalidMessage(String),
    /// The server is not connected.
    NotConnected,
    /// Compressed data could not be read.
    CompressionError(String),
    /// A lock was poisoned.
    LockPoisoned,
    /// The download was cancelled by its caller.
    DownloadCancelled,
    /// The download made no progress for too long.
    DownloadTimedOut,
}

impl Clone for SoulseekRs {
    fn clone(&self) -> (r: Self)
        ensures
            r == *self,
    {
        match self {
            SoulseekRs::NetworkError(s) => SoulseekRs::NetworkError(s.clone()),
            SoulseekRs::AuthenticationFailed => SoulseekRs::AuthenticationFailed,
            SoulseekRs::ParseError(s) => SoulseekRs::ParseError(s.clone()),
            SoulseekRs::Timeout => SoulseekRs::Timeout,
            SoulseekRs::ConnectionClosed => SoulseekRs::ConnectionClosed,
            SoulseekRs::InvalidMessage(s) => SoulseekRs::InvalidMessage(s.clone()),
            SoulseekRs::NotConnected => SoulseekRs::NotConnected,
            SoulseekRs::CompressionError(s) => SoulseekRs::CompressionError(s.clone()),
            SoulseekRs::LockPoisoned => SoulseekRs::LockPoisoned,
            SoulseekRs::DownloadCancelled => SoulseekRs::DownloadCancelled,
            SoulseekRs::DownloadTimedOut => SoulseekRs::DownloadTimedOut,
        }
    }
}

/// The words that describe an error.
pub open spec fn error_words(e: SoulseekRs) -> Seq<char> {
    match e {
        SoulseekRs::NetworkError(s) => "Network error: "@ + s@,
        SoulseekRs::AuthenticationFailed => "Authentication failed"@,
        SoulseekRs::ParseError(s) => "Parse error: "@ + s@,
        SoulseekRs::Timeout => "Operation timed out"@,
        SoulseekRs::ConnectionClosed => "Connection closed"@,
        SoulseekRs::InvalidMessage(s) => "Invalid message: "@ + s@,
        SoulseekRs::NotConnected => "Not connected to server"@,
        SoulseekRs::CompressionError(s) => "Compression error: "@ + s@,
        SoulseekRs::LockPoisoned => "Lock poisoned"@,
        SoulseekRs::DownloadCancelled => "Download cancelled"@,
        SoulseekRs::DownloadTimedOut => "Download timed out"@,
    }
}

impl SoulseekRs {
    /// The error in words.
    pub fn message(&self) -> (r: String)
        ensures
            r@ == error_words(*self),
    {
        match self {
            SoulseekRs::NetworkError(s) => append_str("Network error: ", s.as_str()),
            SoulseekRs::AuthenticationFailed => "Authentication failed".to_owned(),
            SoulseekRs::ParseError(s) => append_str("Parse error: ", s.as_str()),
            SoulseekRs::Timeout => "Operation timed out".to_owned(),
            SoulseekRs::ConnectionClosed => "Connection closed".to_owned(),
            SoulseekRs::InvalidMessage(s) => append_str("Invalid message: ", s.as_str()),
            SoulseekRs::NotConnected => "Not connected to server".to_owned(),
            SoulseekRs::CompressionError(s) => append_str("Compression error: ", s.as_str()),
            SoulseekRs::LockPoisoned => "Lock poisoned".to_owned(),
            SoulseekRs::DownloadCancelled => "Download cancelled".to_owned(),
            SoulseekRs::DownloadTimedOut => "Download timed out".to_owned(),
        }
    }

    /// The error for a number that could not be read, for the given reason.
    pub fn from_parse_int(reason: &str) -> (r: SoulseekRs)
        ensures
            r matches SoulseekRs::ParseError(s) && s@ == "Integer parse error: "@ + reason@,
    {
        SoulseekRs::ParseError(append_str("Integer parse error: ", reason))
    }
}

impl From<String> for SoulseekRs {
    fn from(err: String) -> (r: SoulseekRs) {
        SoulseekRs::CompressionError(err)
    }
}

impl vstd::std_specs::convert::FromSpecImpl<String> for SoulseekRs {
    open spec fn obeys_from_spec() -> bool {
        true
    }

    open spec fn from_spec(err: String) -> SoulseekRs {
        SoulseekRs::CompressionError(err)
    }
}

/// What the operations of the Soulseek client return.
pub type Result<T> = core::result::Result<T, SoulseekRs>;

} // verus!
