//! The handle by which a caller follows its download.
use vstd::prelude::*;

use super::context::OperationChannel;
use super::slots::SlotOperation;
use crate::soulseek::token::DownloadToken;
use crate::soulseek::types::DownloadStatus;
use crate::time::Duration;

verus! {

/// How long a caller waits for word unless it says otherwise, in seconds.
pub const DEFAULT_RECV_TIMEOUT_SECS: u64 = 180;

/// What a wait for word came to.
#[derive(Debug, Clone, Copy, PartialEq, Eq, Structural)]
pub enum RecvOutcome {
    /// Word of the download.
    Status(DownloadStatus),
    /// The download ended without a word.
    Closed,
    /// No word came in time; the download has been cancelled.
    Timeout,
}

/// What the caller holds of its download. When it lets go of it, the download is
/// cancelled.
#[derive(Debug)]
pub struct DownloadHandle {
    pub cancelled: bool,
    /// For the download itself: how long it may go without a byte.
    pub progress_timeout: Option<Duration>,
    /// For the caller: how long to wait for word.
    pub recv_timeout: Option<Duration>,
    /// Where the worker is told, if there was one.
    pub op_tx: Option<OperationChannel>,
    pub token: DownloadToken,
}

impl DownloadHandle {
    /// The handle of a download that has not been cancelled.
    pub fn new(
        progress_timeout: Option<Duration>,
        recv_timeout: Option<Duration>,
        op_tx: Option<OperationChannel>,
        token: DownloadToken,
    ) -> (r: Self)
        ensures
            r == (DownloadHandle {
                cancelled: false,
                progress_timeout,
                recv_timeout,
                op_tx,
                token,
            }),
    {
        DownloadHandle { cancelled: false, progress_timeout, recv_timeout, op_tx, token }
    }

    /// Cancel the download.
    pub fn cancel(&mut self)
        ensures
            *final(self) == (DownloadHandle { cancelled: true, ..*old(self) }),
    {
        self.cancelled = true;
    }

    /// How long the caller waits for word.
    pub fn recv_limit(&self) -> (r: Duration)
        ensures
            match self.recv_timeout {
                Some(d) => r == d,
                None => r@ == 180_000_000_000,
            },
    {
        match self.recv_timeout {
            Some(d) => d,
            None => Duration::from_secs(DEFAULT_RECV_TIMEOUT_SECS),
        }
    }

    /// A wait has ended: with word, with the channel closed (`Some(None)`), or with
    /// nothing in time (`None`), which cancels the download.
    pub fn recv_typed(&mut self, heard: Option<Option<DownloadStatus>>) -> (r: RecvOutcome)
        ensures
            r == match heard {
                Some(Some(status)) => RecvOutcome::Status(status),
                Some(None) => RecvOutcome::Closed,
                None => RecvOutcome::Timeout,
            },
            *final(self) == (DownloadHandle {
                cancelled: old(self).cancelled || heard is None,
                ..*old(self)
            }),
    {
        match heard {
            Some(Some(status)) => RecvOutcome::Status(status),
            Some(None) => RecvOutcome::Closed,
            None => {
                self.cancel();
                RecvOutcome::Timeout
            },
        }
    }

    /// As [`DownloadHandle::recv_typed`], where a wait that took too long counts
    /// as word that the download was cancelled.
    pub fn recv(&mut self, heard: Option<Option<DownloadStatus>>) -> (r: Option<DownloadStatus>)
        ensures
            r == match heard {
                Some(status) => status,
                None => Some(DownloadStatus::Cancelled),
            },
            *final(self) == (DownloadHandle {
                cancelled: old(self).cancelled || heard is None,
                ..*old(self)
            }),
    {
        match self.recv_typed(heard) {
            RecvOutcome::Status(status) => Some(status),
            RecvOutcome::Closed => None,
            RecvOutcome::Timeout => Some(DownloadStatus::Cancelled),
        }
    }

    /// The caller lets go: the download is cancelled, and the worker is told where
    /// there was one.
    pub fn dropped(&mut self) -> (r: Option<(OperationChannel, SlotOperation)>)
        ensures
            *final(self) == (DownloadHandle { cancelled: true, ..*old(self) }),
            r == match old(self).op_tx {
                Some(channel) => Some((channel, SlotOperation::CancelDownload(old(self).token))),
                None => None,
            },
    {
        self.cancel();
        match self.op_tx {
            Some(channel) => Some((channel, SlotOperation::CancelDownload(self.token))),
            None => None,
        }
    }
}

} // verus!
