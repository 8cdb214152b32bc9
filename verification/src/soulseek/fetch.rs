//! Fetching one file over one stream, step by step.
//!
//! Where the file is known from the start, the output is opened, the peer is told to
//! start, and the file is read. Where the peer names the file, it is greeted first,
//! and the first bytes that it sends are the token of the file.
use vstd::prelude::*;

use super::download_peer::{pierced_token, DownloadError, Progress};
use super::token::DownloadToken;
use crate::time::Duration;

verus! {

/// What a fetch waits for.
#[derive(Debug, Clone, Copy, PartialEq, Eq, Structural)]
pub enum FetchStage {
    Connecting,
    Shaking,
    ReadingFirst,
    Resolving { token: DownloadToken },
    Starting,
    Opening,
    WritingFirst,
    Reading,
    Writing { bytes: u64 },
    Flushing,
    Over,
}

/// What has come of the last step; a failure with what the system reported.
#[derive(Debug)]
pub enum FetchEvent {
    /// There is a stream.
    Connected,
    /// The peer has no address.
    NoAddress { address: String },
    HandshakeSent,
    /// The first bytes of a peer that names the file.
    FirstRead { bytes: Vec<u8> },
    /// How large the file with the token is, where it is known.
    Resolved { size: Option<u64> },
    StartSent,
    Opened,
    /// The path of the output cannot be told.
    NoPath { error: DownloadError },
    Written,
    /// Bytes have come; none where the peer has closed the stream.
    Read { bytes: Vec<u8> },
    Flushed,
    Failed { reason: String },
    Cancelled,
    /// Nothing has come for too long.
    Stalled,
}

/// What is done next.
#[derive(Debug)]
pub enum FetchStep {
    /// Connect, unless there is a stream already.
    Connect,
    /// Send the token, so that the peer knows the connection.
    SendHandshake { token: u32 },
    /// Read for the first time.
    ReadFirst,
    /// See whether the file with the token is known.
    Resolve { token: DownloadToken },
    /// Tell the peer to start.
    SendStart,
    /// Open the output.
    OpenOutput,
    /// Write what came after the token.
    WriteFirst { bytes: Vec<u8> },
    /// Report the progress; at first there is no speed to report.
    Report { initial: bool },
    Read,
    /// Write what was read.
    WriteRead { bytes: Vec<u8> },
    Flush,
    /// The fetch has ended, with the number of bytes that came.
    Finish { outcome: Result<u64, DownloadError> },
}

/// A fetch under way.
#[derive(Debug)]
pub struct Fetch {
    pub stage: FetchStage,
    /// The token for the handshake, where the peer names the file.
    pub pierce: Option<u32>,
    /// The token of the file, once the peer has named it.
    pub named: Option<DownloadToken>,
    /// What came with the token and is yet to be written.
    pub first: Vec<u8>,
    pub progress: Progress,
}

/// What is done next, as a value.
pub enum StepModel {
    Connect,
    SendHandshake { token: u32 },
    ReadFirst,
    Resolve { token: DownloadToken },
    SendStart,
    OpenOutput,
    WriteFirst { bytes: Seq<u8> },
    Report { initial: bool },
    Read,
    WriteRead { bytes: Seq<u8> },
    Flush,
    Finish { outcome: Result<u64, DownloadError> },
}

/// A fetch, as a value.
#[verifier::ext_equal]
pub struct FetchModel {
    pub stage: FetchStage,
    pub pierce: Option<u32>,
    pub named: Option<DownloadToken>,
    pub first: Seq<u8>,
    pub progress: Progress,
}

impl View for FetchStep {
    type V = StepModel;

    open spec fn view(&self) -> StepModel {
        match *self {
            FetchStep::Connect => StepModel::Connect,
            FetchStep::SendHandshake { token } => StepModel::SendHandshake { token },
            FetchStep::ReadFirst => StepModel::ReadFirst,
            FetchStep::Resolve { token } => StepModel::Resolve { token },
            FetchStep::SendStart => StepModel::SendStart,
            FetchStep::OpenOutput => StepModel::OpenOutput,
            FetchStep::WriteFirst { bytes } => StepModel::WriteFirst { bytes: bytes@ },
            FetchStep::Report { initial } => StepModel::Report { initial },
            FetchStep::Read => StepModel::Read,
            FetchStep::WriteRead { bytes } => StepModel::WriteRead { bytes: bytes@ },
            FetchStep::Flush => StepModel::Flush,
            FetchStep::Finish { outcome } => StepModel::Finish { outcome },
        }
    }
}

impl View for Fetch {
    type V = FetchModel;

    open spec fn view(&self) -> FetchModel {
        FetchModel {
            stage: self.stage,
            pierce: self.pierce,
            named: self.named,
            first: self.first@,
            progress: self.progress,
        }
    }
}

/// Steps as values.
pub open spec fn steps_view(steps: Seq<FetchStep>) -> Seq<StepModel> {
    steps.map_values(|s: FetchStep| s@)
}

/// How long a transfer may stand still where nothing else was asked for.
pub const STALL_LIMIT_SECS: u64 = 30;

/// What is done when nothing has come for a while.
#[derive(Debug, Clone, Copy, PartialEq, Eq, Structural)]
pub enum Patience {
    /// Wait on.
    Wait,
    /// The transfer has stood still for longer than was asked for.
    Stalled,
    /// The transfer has stood still for longer than any may.
    Failed,
}

/// Whether to wait on when nothing has come for the given time.
pub fn patience(waited: Duration, limit: Option<Duration>) -> (r: Patience)
    ensures
        r == match limit {
            Some(limit) => if waited@ >= limit@ {
                Patience::Stalled
            } else {
                Patience::Wait
            },
            None => if waited@ >= STALL_LIMIT_SECS * 1_000_000_000 {
                Patience::Failed
            } else {
                Patience::Wait
            },
        },
{
    match limit {
        Some(limit) => {
            if waited.as_nanos() >= limit.as_nanos() {
                Patience::Stalled
            } else {
                Patience::Wait
            }
        },
        None => {
            if waited.as_nanos() >= STALL_LIMIT_SECS as u128 * 1_000_000_000 {
                Patience::Failed
            } else {
                Patience::Wait
            }
        },
    }
}

/// What came after the token in the first bytes of a peer that names the file.
fn after_token(bytes: &Vec<u8>) -> (r: Vec<u8>)
    requires
        bytes@.len() >= 4,
    ensures
        r@ == bytes@.skip(4),
{
    let mut out: Vec<u8> = Vec::new();
    let mut i: usize = 4;
    assert(out@ =~= bytes@.subrange(4, 4));
    while i < bytes.len()
        invariant
            4 <= i <= bytes@.len(),
            out@ == bytes@.subrange(4, i as int),
        decreases bytes@.len() - i,
    {
        out.push(bytes[i]);
        i += 1;
        assert(out@ =~= bytes@.subrange(4, i as int));
    }
    assert(out@ =~= bytes@.skip(4));
    out
}

/// The error that a failure at a stage amounts to.
pub open spec fn failure_at(stage: FetchStage, reason: String) -> DownloadError {
    match stage {
        FetchStage::Connecting => DownloadError::ConnectionFailed(reason),
        FetchStage::Shaking => DownloadError::HandshakeFailed(reason),
        FetchStage::ReadingFirst => DownloadError::StreamReadError(reason),
        FetchStage::Reading => DownloadError::StreamReadError(reason),
        FetchStage::Starting => DownloadError::StreamWriteError(reason),
        _ => DownloadError::FileWriteError(reason),
    }
}

impl FetchModel {
    /// The event is one that can come now. No more bytes come than can be counted.
    pub open spec fn expects(self, event: FetchEvent) -> bool {
        match self.stage {
            FetchStage::Connecting => event is Connected || event is NoAddress || event is Failed,
            FetchStage::Shaking => event is HandshakeSent || event is Failed,
            FetchStage::ReadingFirst => event is FirstRead || event is Failed,
            FetchStage::Resolving { .. } => event is Resolved,
            FetchStage::Starting => event is StartSent || event is Failed,
            FetchStage::Opening => event is Opened || event is NoPath || event is Failed,
            FetchStage::WritingFirst => event is Written || event is Failed,
            FetchStage::Reading => {
                ||| event is Cancelled
                ||| event is Stalled
                ||| event is Failed
                ||| {
                    &&& event matches FetchEvent::Read { bytes }
                    &&& self.progress.total_bytes + bytes@.len() <= u64::MAX
                    &&& self.progress.chunks < u64::MAX
                }
            },
            FetchStage::Writing { bytes } => {
                &&& event is Written || event is Failed
                &&& self.progress.total_bytes + bytes <= u64::MAX
                &&& self.progress.chunks < u64::MAX
            },
            FetchStage::Flushing => event is Flushed || event is Failed,
            FetchStage::Over => false,
        }
    }

    /// The fetch has ended.
    pub open spec fn ended(self, outcome: Result<u64, DownloadError>) -> (FetchModel, Seq<StepModel>) {
        (FetchModel { stage: FetchStage::Over, ..self }, seq![StepModel::Finish { outcome }])
    }

    /// The fetch goes on with one step.
    pub open spec fn goes_on(self, stage: FetchStage, step: StepModel) -> (FetchModel, Seq<StepModel>) {
        (FetchModel { stage, ..self }, seq![step])
    }

    /// Bytes that were read have been written: they are counted, progress is reported
    /// from time to time, and the fetch is done when every byte has come.
    pub open spec fn wrote(self, bytes: u64) -> (FetchModel, Seq<StepModel>) {
        let progress = Progress {
            total_bytes: (self.progress.total_bytes + bytes) as u64,
            chunks: (self.progress.chunks + 1) as u64,
            size: self.progress.size,
        };
        let report: Seq<StepModel> = if progress.chunks as int
            % super::download_peer::PROGRESS_UPDATE_CHUNKS as int == 0 {
            seq![StepModel::Report { initial: false }]
        } else {
            Seq::empty()
        };
        if progress.total_bytes >= progress.size {
            (
                FetchModel { stage: FetchStage::Flushing, progress, ..self },
                report.push(StepModel::Flush),
            )
        } else {
            (FetchModel { stage: FetchStage::Reading, progress, ..self }, report.push(StepModel::Read))
        }
    }

    /// What an event leads to.
    pub open spec fn next(self, event: FetchEvent) -> (FetchModel, Seq<StepModel>) {
        match (self.stage, event) {
            (stage, FetchEvent::Failed { reason }) => self.ended(Err(failure_at(stage, reason))),
            (FetchStage::Connecting, FetchEvent::NoAddress { address }) => self.ended(
                Err(DownloadError::InvalidAddress(address)),
            ),
            (FetchStage::Connecting, FetchEvent::Connected) => match self.pierce {
                Some(token) => self.goes_on(
                    FetchStage::Shaking,
                    StepModel::SendHandshake { token },
                ),
                None => self.goes_on(FetchStage::Opening, StepModel::OpenOutput),
            },
            (FetchStage::Shaking, FetchEvent::HandshakeSent) => self.goes_on(
                FetchStage::ReadingFirst,
                StepModel::ReadFirst,
            ),
            (FetchStage::ReadingFirst, FetchEvent::FirstRead { bytes }) => if bytes@.len() < 4 {
                self.ended(Err(DownloadError::InvalidTokenBytes))
            } else {
                let token = DownloadToken(super::message::le32(bytes@, 0) as u32);
                FetchModel {
                    named: Some(token),
                    first: bytes@.skip(4),
                    progress: Progress { total_bytes: (bytes@.len() - 4) as u64, ..self.progress },
                    ..self
                }.goes_on(FetchStage::Resolving { token }, StepModel::Resolve { token })
            },
            (FetchStage::Resolving { token }, FetchEvent::Resolved { size }) => match size {
                Some(size) => FetchModel {
                    progress: Progress { size, ..self.progress },
                    ..self
                }.goes_on(FetchStage::Starting, StepModel::SendStart),
                None => self.ended(Err(DownloadError::TokenNotFound(token))),
            },
            (FetchStage::Starting, FetchEvent::StartSent) => if self.pierce is Some {
                self.goes_on(FetchStage::Opening, StepModel::OpenOutput)
            } else {
                self.goes_on(FetchStage::Reading, StepModel::Read)
            },
            (FetchStage::Opening, FetchEvent::NoPath { error }) => self.ended(Err(error)),
            (FetchStage::Opening, FetchEvent::Opened) => if self.pierce is None {
                self.goes_on(FetchStage::Starting, StepModel::SendStart)
            } else if self.progress.total_bytes > 0 {
                (
                    FetchModel { stage: FetchStage::WritingFirst, first: Seq::empty(), ..self },
                    seq![StepModel::WriteFirst { bytes: self.first }],
                )
            } else {
                self.goes_on(FetchStage::Reading, StepModel::Read)
            },
            (FetchStage::WritingFirst, FetchEvent::Written) => (
                FetchModel { stage: FetchStage::Reading, ..self },
                if self.progress.total_bytes >= super::download_peer::PROGRESS_UPDATE_CHUNKS
                    * super::download_peer::READ_BUFFER_SIZE {
                    seq![StepModel::Report { initial: true }, StepModel::Read]
                } else {
                    seq![StepModel::Read]
                },
            ),
            (FetchStage::Reading, FetchEvent::Cancelled) => self.ended(
                Err(DownloadError::Cancelled),
            ),
            (FetchStage::Reading, FetchEvent::Stalled) => self.ended(
                Err(DownloadError::NoProgressTimeout),
            ),
            (FetchStage::Reading, FetchEvent::Read { bytes }) => if bytes@.len() == 0 {
                self.goes_on(FetchStage::Flushing, StepModel::Flush)
            } else {
                self.goes_on(
                    FetchStage::Writing { bytes: bytes@.len() as u64 },
                    StepModel::WriteRead { bytes: bytes@ },
                )
            },
            (FetchStage::Writing { bytes }, FetchEvent::Written) => self.wrote(bytes),
            (FetchStage::Flushing, FetchEvent::Flushed) => self.ended(
                Ok(self.progress.total_bytes),
            ),
            _ => (self, Seq::empty()),
        }
    }
}

impl Fetch {
    /// A fetch of a file of the given size.
    pub fn download_direct(size: u64) -> (r: (Fetch, FetchStep))
        ensures
            r.0@ == (FetchModel {
                stage: FetchStage::Connecting,
                pierce: None,
                named: None,
                first: Seq::empty(),
                progress: Progress { total_bytes: 0, chunks: 0, size },
            }),
            r.1 == FetchStep::Connect,
    {
        (
            Fetch {
                stage: FetchStage::Connecting,
                pierce: None,
                named: None,
                first: Vec::new(),
                progress: Progress::new(0, size),
            },
            FetchStep::Connect,
        )
    }

    /// A fetch of a file that the peer names, after a handshake with the given token.
    pub fn download_pierced(token: u32) -> (r: (Fetch, FetchStep))
        ensures
            r.0@ == (FetchModel {
                stage: FetchStage::Connecting,
                pierce: Some(token),
                named: None,
                first: Seq::empty(),
                progress: Progress { total_bytes: 0, chunks: 0, size: 0 },
            }),
            r.1 == FetchStep::Connect,
    {
        (
            Fetch {
                stage: FetchStage::Connecting,
                pierce: Some(token),
                named: None,
                first: Vec::new(),
                progress: Progress::new(0, 0),
            },
            FetchStep::Connect,
        )
    }

    fn end(&mut self, outcome: Result<u64, DownloadError>) -> (r: Vec<FetchStep>)
        ensures
            (final(self)@, steps_view(r@)) == old(self)@.ended(outcome),
    {
        self.stage = FetchStage::Over;
        let mut out: Vec<FetchStep> = Vec::new();
        out.push(FetchStep::Finish { outcome });
        assert(steps_view(out@) =~= seq![StepModel::Finish { outcome }]);
        out
    }

    fn go_on(&mut self, stage: FetchStage, step: FetchStep) -> (r: Vec<FetchStep>)
        ensures
            (final(self)@, steps_view(r@)) == old(self)@.goes_on(stage, step@),
    {
        self.stage = stage;
        let mut out: Vec<FetchStep> = Vec::new();
        out.push(step);
        assert(steps_view(out@) =~= seq![step@]);
        out
    }

    fn read_stream(&mut self, bytes: u64) -> (r: Vec<FetchStep>)
        requires
            old(self).progress.total_bytes + bytes <= u64::MAX,
            old(self).progress.chunks < u64::MAX,
        ensures
            (final(self)@, steps_view(r@)) == old(self)@.wrote(bytes),
    {
        let outcome = self.progress.on_chunk(bytes);
        let mut out: Vec<FetchStep> = Vec::new();
        if outcome.report {
            out.push(FetchStep::Report { initial: false });
        }
        if outcome.done {
            self.stage = FetchStage::Flushing;
            out.push(FetchStep::Flush);
        } else {
            self.stage = FetchStage::Reading;
            out.push(FetchStep::Read);
        }
        assert(steps_view(out@) =~= old(self)@.wrote(bytes).1);
        out
    }

    fn fail(&mut self, reason: String) -> (r: Vec<FetchStep>)
        ensures
            (final(self)@, steps_view(r@)) == old(self)@.ended(Err(failure_at(old(self).stage, reason))),
    {
        let error = match self.stage {
            FetchStage::Connecting => DownloadError::ConnectionFailed(reason),
            FetchStage::Shaking => DownloadError::HandshakeFailed(reason),
            FetchStage::ReadingFirst => DownloadError::StreamReadError(reason),
            FetchStage::Reading => DownloadError::StreamReadError(reason),
            FetchStage::Starting => DownloadError::StreamWriteError(reason),
            _ => DownloadError::FileWriteError(reason),
        };
        self.end(Err(error))
    }

    fn name_file(&mut self, bytes: Vec<u8>) -> (r: Vec<FetchStep>)
        requires
            old(self).stage == FetchStage::ReadingFirst,
        ensures
            (final(self)@, steps_view(r@)) == old(self)@.next(FetchEvent::FirstRead { bytes }),
    {
        match pierced_token(&bytes) {
            Ok(token) => {
                self.named = Some(token);
                self.progress.total_bytes = (bytes.len() - 4) as u64;
                self.first = after_token(&bytes);
                self.go_on(FetchStage::Resolving { token }, FetchStep::Resolve { token })
            },
            Err(e) => self.end(Err(e)),
        }
    }

    /// Take note of what has come of the last step, and say what is done next.
    pub fn handle(&mut self, event: FetchEvent) -> (r: Vec<FetchStep>)
        requires
            old(self)@.expects(event),
        ensures
            (final(self)@, steps_view(r@)) == old(self)@.next(event),
    {
        match (self.stage, event) {
            (_, FetchEvent::Failed { reason }) => self.fail(reason),
            (FetchStage::Connecting, FetchEvent::NoAddress { address }) => self.end(
                Err(DownloadError::InvalidAddress(address)),
            ),
            (FetchStage::Connecting, FetchEvent::Connected) => match self.pierce {
                Some(token) => self.go_on(FetchStage::Shaking, FetchStep::SendHandshake { token }),
                None => self.go_on(FetchStage::Opening, FetchStep::OpenOutput),
            },
            (FetchStage::Shaking, FetchEvent::HandshakeSent) => self.go_on(
                FetchStage::ReadingFirst,
                FetchStep::ReadFirst,
            ),
            (FetchStage::ReadingFirst, FetchEvent::FirstRead { bytes }) => self.name_file(bytes),
            (FetchStage::Resolving { token }, FetchEvent::Resolved { size }) => match size {
                Some(size) => {
                    self.progress.size = size;
                    self.go_on(FetchStage::Starting, FetchStep::SendStart)
                },
                None => self.end(Err(DownloadError::TokenNotFound(token))),
            },
            (FetchStage::Starting, FetchEvent::StartSent) => if self.pierce.is_some() {
                self.go_on(FetchStage::Opening, FetchStep::OpenOutput)
            } else {
                self.go_on(FetchStage::Reading, FetchStep::Read)
            },
            (FetchStage::Opening, FetchEvent::NoPath { error }) => self.end(Err(error)),
            (FetchStage::Opening, FetchEvent::Opened) => if self.pierce.is_none() {
                self.go_on(FetchStage::Starting, FetchStep::SendStart)
            } else if self.progress.total_bytes > 0 {
                let mut bytes: Vec<u8> = Vec::new();
                core::mem::swap(&mut bytes, &mut self.first);
                self.go_on(FetchStage::WritingFirst, FetchStep::WriteFirst { bytes })
            } else {
                self.go_on(FetchStage::Reading, FetchStep::Read)
            },
            (FetchStage::WritingFirst, FetchEvent::Written) => {
                let mut out: Vec<FetchStep> = Vec::new();
                if self.progress.report_initial() {
                    out.push(FetchStep::Report { initial: true });
                }
                out.push(FetchStep::Read);
                self.stage = FetchStage::Reading;
                assert(steps_view(out@) =~= old(self)@.next(FetchEvent::Written).1);
                out
            },
            (FetchStage::Reading, FetchEvent::Cancelled) => self.end(
                Err(DownloadError::Cancelled),
            ),
            (FetchStage::Reading, FetchEvent::Stalled) => self.end(
                Err(DownloadError::NoProgressTimeout),
            ),
            (FetchStage::Reading, FetchEvent::Read { bytes }) => if bytes.len() == 0 {
                self.go_on(FetchStage::Flushing, FetchStep::Flush)
            } else {
                self.go_on(
                    FetchStage::Writing { bytes: bytes.len() as u64 },
                    FetchStep::WriteRead { bytes },
                )
            },
            (FetchStage::Writing { bytes }, FetchEvent::Written) => self.read_stream(bytes),
            (FetchStage::Flushing, FetchEvent::Flushed) => self.end(
                Ok(self.progress.total_bytes),
            ),
            _ => {
                let out: Vec<FetchStep> = Vec::new();
                assert(steps_view(out@) =~= Seq::empty());
                out
            },
        }
    }
}

// ---- laws --------------------------------------------------------------------------------------

/// A fetch goes on until it has ended: every event is answered by a step, the last of
/// which is the one that the next event is about.
pub proof fn lemma_every_event_is_answered(f: FetchModel, event: FetchEvent)
    requires
        f.expects(event),
    ensures
        f.next(event).1.len() > 0,
        f.next(event).0.stage is Over <==> f.next(event).1.last() is Finish,
{
}

/// The peer has been told to start.
pub open spec fn has_started(f: FetchModel) -> bool {
    match f.stage {
        FetchStage::WritingFirst => true,
        FetchStage::Reading => true,
        FetchStage::Writing { .. } => true,
        FetchStage::Flushing => true,
        FetchStage::Opening => f.pierce is Some,
        _ => false,
    }
}

/// None of the file is read or written before the peer was told to start.
pub proof fn lemma_start_comes_first(f: FetchModel, event: FetchEvent)
    requires
        f.expects(event),
        !has_started(f),
        has_started(f.next(event).0),
    ensures
        f.stage is Starting,
        event is StartSent,
{
}

/// A file of which every byte has come is not read further, and one of which bytes
/// are missing is read on.
pub proof fn lemma_reading_ends_with_the_file(f: FetchModel, bytes: u64)
    requires
        f.stage == (FetchStage::Writing { bytes }),
        f.expects(FetchEvent::Written),
    ensures
        f.next(FetchEvent::Written).0.progress.total_bytes == f.progress.total_bytes + bytes,
        f.next(FetchEvent::Written).0.stage is Flushing <==> f.progress.total_bytes + bytes
            >= f.progress.size,
        f.next(FetchEvent::Written).0.stage is Reading <==> f.progress.total_bytes + bytes
            < f.progress.size,
{
}

/// The bytes that the steps write, laid end to end.
pub open spec fn written(steps: Seq<StepModel>) -> Seq<u8>
    decreases steps.len(),
{
    if steps.len() == 0 {
        Seq::empty()
    } else {
        let before = written(steps.drop_last());
        match steps.last() {
            StepModel::WriteFirst { bytes } => before + bytes,
            StepModel::WriteRead { bytes } => before + bytes,
            _ => before,
        }
    }
}

/// The bytes that the events bring, laid end to end.
pub open spec fn received(events: Seq<FetchEvent>) -> Seq<u8>
    decreases events.len(),
{
    if events.len() == 0 {
        Seq::empty()
    } else {
        let before = received(events.drop_last());
        match events.last() {
            FetchEvent::FirstRead { bytes } => before + bytes@,
            FetchEvent::Read { bytes } => before + bytes@,
            _ => before,
        }
    }
}

/// A fetch after some events, with the steps that they led to.
pub open spec fn after_events(f: FetchModel, events: Seq<FetchEvent>) -> (FetchModel, Seq<StepModel>)
    decreases events.len(),
{
    if events.len() == 0 {
        (f, Seq::empty())
    } else {
        let (before, steps) = after_events(f, events.drop_last());
        let (after, more) = before.next(events.last());
        (after, steps + more)
    }
}

/// Each of the events can come when it comes.
pub open spec fn all_expected(f: FetchModel, events: Seq<FetchEvent>) -> bool
    decreases events.len(),
{
    events.len() == 0 || {
        &&& all_expected(f, events.drop_last())
        &&& after_events(f, events.drop_last()).0.expects(events.last())
    }
}

/// A fetch that has just begun.
pub open spec fn has_begun(f: FetchModel) -> bool {
    &&& f.stage is Connecting
    &&& f.first.len() == 0
    &&& f.progress.total_bytes == 0
}

/// What has come of the file itself: where the peer names it, what follows the token.
pub open spec fn of_the_file(f: FetchModel, events: Seq<FetchEvent>) -> Seq<u8> {
    if f.pierce is Some {
        received(events).skip(4)
    } else {
        received(events)
    }
}

/// The peer that names the file has not done so yet.
pub open spec fn unnamed(f: FetchModel) -> bool {
    f.stage is Connecting || f.stage is Shaking || f.stage is ReadingFirst
}

proof fn lemma_written_sum(a: Seq<StepModel>, b: Seq<StepModel>)
    ensures
        written(a + b) == written(a) + written(b),
    decreases b.len(),
{
    if b.len() == 0 {
        assert(a + b =~= a);
        assert(written(a) + written(b) =~= written(a));
    } else {
        lemma_written_sum(a, b.drop_last());
        assert((a + b).drop_last() =~= a + b.drop_last());
        assert(written(a + b) =~= written(a) + written(b));
    }
}

/// At every point of a fetch what has come of the file is what has been written and
/// what waits to be written, in order, and every byte of it is counted.
proof fn lemma_bytes_accounted_for(f: FetchModel, events: Seq<FetchEvent>)
    requires
        has_begun(f),
        all_expected(f, events),
        !(after_events(f, events).0.stage is Over),
    ensures
        ({
            let (now, steps) = after_events(f, events);
            let came = of_the_file(f, events);
            let under_way = match now.stage {
                FetchStage::Writing { bytes } => bytes as int,
                _ => 0,
            };
            &&& now.pierce == f.pierce
            &&& if unnamed(now) {
                &&& received(events).len() == 0
                &&& written(steps).len() == 0
                &&& now.first.len() == 0
                &&& now.progress.total_bytes == 0
                &&& now.stage is Connecting || f.pierce is Some
            } else {
                &&& f.pierce is Some ==> received(events).len() >= 4
                &&& written(steps) + now.first == came
                &&& now.progress.total_bytes + under_way == came.len()
                &&& f.pierce is None ==> now.first.len() == 0
                &&& if now.stage is Resolving || now.stage is Starting || now.stage is Opening {
                    written(steps).len() == 0
                } else {
                    now.first.len() == 0
                }
            }
        }),
    decreases events.len(),
{
    if events.len() > 0 {
        let prior = events.drop_last();
        let event = events.last();
        let (before, steps) = after_events(f, prior);
        let (now, more) = before.next(event);
        assert(!(before.stage is Over));
        lemma_bytes_accounted_for(f, prior);
        lemma_written_sum(steps, more);
        let all = received(prior);
        match (before.stage, event) {
            (FetchStage::ReadingFirst, FetchEvent::FirstRead { bytes }) => {
                assert(received(events) =~= bytes@);
                assert(bytes.len() == bytes@.len());
                assert(written(more) =~= Seq::empty()) by {
                    reveal_with_fuel(written, 3);
                }
                assert(written(steps + more) + now.first =~= bytes@.skip(4));
            },
            (FetchStage::Reading, FetchEvent::Read { bytes }) => {
                assert(received(events) =~= all + bytes@);
                if f.pierce is Some {
                    assert((all + bytes@).skip(4) =~= all.skip(4) + bytes@);
                }
                assert(before.first =~= Seq::empty());
                if bytes@.len() > 0 {
                    assert(more =~= seq![StepModel::WriteRead { bytes: bytes@ }]);
                    assert(written(more) =~= bytes@) by {
                        reveal_with_fuel(written, 3);
                    }
                } else {
                    assert(written(more) =~= Seq::empty()) by {
                        reveal_with_fuel(written, 3);
                    }
                }
                assert(written(steps + more) + now.first =~= of_the_file(f, events));
            },
            (FetchStage::Opening, FetchEvent::Opened) => {
                assert(received(events) == all);
                assert(written(steps) =~= Seq::empty());
                if f.pierce is Some && before.progress.total_bytes > 0 {
                    assert(more =~= seq![StepModel::WriteFirst { bytes: before.first }]);
                    assert(written(more) =~= before.first) by {
                        reveal_with_fuel(written, 3);
                    }
                } else {
                    assert(written(more) =~= Seq::empty()) by {
                        reveal_with_fuel(written, 3);
                    }
                }
                assert(written(steps + more) + now.first =~= of_the_file(f, events));
            },
            _ => {
                assert(received(events) == all);
                assert(written(more) =~= Seq::empty()) by {
                    reveal_with_fuel(written, 4);
                }
                assert(written(steps + more) =~= written(steps));
                if unnamed(before) {
                    assert(written(steps + more) + now.first =~= received(events));
                }
            },
        }
    } else {
        assert(received(events).len() == 0);
    }
}

/// The output holds the file and nothing else: when a fetch has read to the end, the
/// bytes that it has written are the bytes that came, in their order, without the
/// token where the peer named the file, and as many as it reports.
pub proof fn lemma_output_is_the_file(f: FetchModel, events: Seq<FetchEvent>)
    requires
        has_begun(f),
        all_expected(f, events),
        after_events(f, events).0.stage is Flushing,
    ensures
        written(after_events(f, events).1) == of_the_file(f, events),
        after_events(f, events).0.next(FetchEvent::Flushed).1 == seq![
            StepModel::Finish { outcome: Ok(of_the_file(f, events).len() as u64) },
        ],
{
    lemma_bytes_accounted_for(f, events);
    let (now, steps) = after_events(f, events);
    assert(written(steps) + now.first =~= written(steps));
}

} // verus!
