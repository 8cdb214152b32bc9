//! Limits on how often we search and on how many downloads run at a time.
use std::collections::VecDeque;

use vstd::prelude::*;

use crate::soulseek::path::SoulseekPath;
use crate::soulseek::token::DownloadToken;
use crate::soulseek::types::{Download, DownloadStatus, StatusChannel};
use crate::time::{clock_now, nanos_since, Duration};

verus! {

// ---- searches -------------------------------------------------------------------

/// Lets at most a number of searches through in any period.
#[derive(Debug)]
pub struct SearchRateLimiter {
    limit: u32,
    period: Duration,
    /// When searches were issued, in nanoseconds since `origin`.
    issued_at: VecDeque<u128>,
    origin: std::time::Instant,
}

/// A limiter as a value: times are in nanoseconds.
#[verifier::ext_equal]
pub struct RateModel {
    pub limit: nat,
    pub period: nat,
    pub issued: Seq<u128>,
}

impl View for SearchRateLimiter {
    type V = RateModel;

    closed spec fn view(&self) -> RateModel {
        RateModel { limit: self.limit as nat, period: self.period@, issued: self.issued_at@ }
    }
}

/// How long ago `then` was, 0 where it is yet to come.
pub open spec fn age(then: u128, now: u128) -> nat {
    if then <= now {
        (now - then) as nat
    } else {
        0
    }
}

/// The times without those at the front that are at least a period ago.
pub open spec fn recent(issued: Seq<u128>, now: u128, period: nat) -> Seq<u128>
    decreases issued.len(),
{
    if issued.len() > 0 && age(issued[0], now) >= period {
        recent(issued.skip(1), now, period)
    } else {
        issued
    }
}

impl RateModel {
    /// The limiter once it has forgotten what is at least a period ago.
    pub open spec fn pruned(self, now: u128) -> RateModel {
        RateModel { issued: recent(self.issued, now, self.period), ..self }
    }

    /// How long a search has to wait; `None` where it may go ahead.
    pub open spec fn wait(self, now: u128) -> Option<nat> {
        let left = recent(self.issued, now, self.period);
        if left.len() >= self.limit {
            Some((self.period - age(left[0], now)) as nat)
        } else {
            None
        }
    }
}

/// What is left after the old times are gone starts with a time less than a
/// period ago.
proof fn lemma_recent_front(issued: Seq<u128>, now: u128, period: nat)
    ensures
        recent(issued, now, period).len() > 0 ==> age(recent(issued, now, period)[0], now)
            < period,
        recent(issued, now, period).len() <= issued.len(),
    decreases issued.len(),
{
    if issued.len() > 0 && age(issued[0], now) >= period {
        lemma_recent_front(issued.skip(1), now, period);
    }
}

impl SearchRateLimiter {
    /// A limiter that has seen no search.
    pub fn new(limit: u32, period: Duration) -> (r: Self)
        ensures
            r@ == (RateModel { limit: limit as nat, period: period@, issued: Seq::empty() }),
    {
        SearchRateLimiter { limit, period, issued_at: VecDeque::new(), origin: clock_now() }
    }

    /// How long a search has to wait at the given time; `None` where it may go
    /// ahead. Times that are at least a period ago are forgotten.
    pub fn wait_duration_at(&mut self, now: u128) -> (r: Option<Duration>)
        requires
            old(self)@.limit > 0 || recent(old(self)@.issued, now, old(self)@.period).len() > 0,
        ensures
            final(self)@ == old(self)@.pruned(now),
            match r {
                Some(d) => old(self)@.wait(now) == Some(d@),
                None => old(self)@.wait(now) is None,
            },
    {
        let period: u128 = self.period.as_nanos();
        proof {
            lemma_recent_front(self.issued_at@, now, self.period@);
        }
        while self.issued_at.len() > 0 && elapsed(self.issued_at[0], now) >= period
            invariant
                period == self.period@,
                self.limit == old(self).limit,
                self.period == old(self).period,
                recent(self.issued_at@, now, period as nat) == recent(
                    old(self).issued_at@,
                    now,
                    period as nat,
                ),
            decreases self.issued_at@.len(),
        {
            let ghost before = self.issued_at@;
            self.issued_at.pop_front();
            assert(self.issued_at@ =~= before.skip(1));
        }
        assert(self.issued_at@ == recent(old(self).issued_at@, now, period as nat));
        if self.issued_at.len() >= self.limit as usize {
            let spent: u128 = elapsed(self.issued_at[0], now);
            Some(Duration::from_nanos(period - spent))
        } else {
            None
        }
    }

    /// How long a search has to wait now; `None` where it may go ahead.
    pub fn wait_duration(&mut self) -> (r: Option<Duration>)
        requires
            old(self)@.limit > 0,
        ensures
            exists|now: u128|
                {
                    &&& final(self)@ == #[trigger] old(self)@.pruned(now)
                    &&& match r {
                        Some(d) => old(self)@.wait(now) == Some(d@),
                        None => old(self)@.wait(now) is None,
                    }
                },
    {
        let now: u128 = nanos_since(&self.origin);
        let r = self.wait_duration_at(now);
        assert(self@ == old(self)@.pruned(now));
        r
    }

    /// Take note of a search at the given time.
    pub fn record_at(&mut self, now: u128)
        ensures
            final(self)@ == (RateModel { issued: old(self)@.issued.push(now), ..old(self)@ }),
    {
        self.issued_at.push_back(now);
    }

    /// Take note of a search now.
    pub fn record(&mut self)
        ensures
            exists|now: u128|
                final(self)@ == (RateModel {
                    issued: #[trigger] old(self)@.issued.push(now),
                    ..old(self)@
                }),
    {
        let now: u128 = nanos_since(&self.origin);
        self.record_at(now);
    }
}

fn elapsed(then: u128, now: u128) -> (r: u128)
    ensures
        r == age(then, now),
{
    if then <= now {
        now - then
    } else {
        0
    }
}

/// The times at which searches were issued never go back.
pub open spec fn in_order(issued: Seq<u128>) -> bool {
    forall|i: int, j: int| 0 <= i <= j < issued.len() ==> issued[i] <= issued[j]
}

/// The number of times that are less than a period ago.
pub open spec fn count_recent(issued: Seq<u128>, now: u128, period: nat) -> nat {
    issued.filter(|t: u128| age(t, now) < period).len()
}

/// Forgetting what is old forgets nothing that is less than a period ago.
proof fn lemma_recent_counts_all(issued: Seq<u128>, now: u128, period: nat)
    requires
        in_order(issued),
    ensures
        count_recent(issued, now, period) <= recent(issued, now, period).len(),
    decreases issued.len(),
{
    let young = |t: u128| age(t, now) < period;
    reveal(Seq::filter);
    if issued.len() > 0 && age(issued[0], now) >= period {
        let rest = issued.skip(1);
        lemma_recent_counts_all(rest, now, period);
        assert(issued =~= seq![issued[0]] + rest);
        assert(seq![issued[0]].drop_last() =~= Seq::<u128>::empty());
        assert(Seq::<u128>::empty().filter(young) =~= Seq::<u128>::empty());
        assert(!young(seq![issued[0]].last()));
        assert(seq![issued[0]].filter(young) =~= Seq::<u128>::empty());
        Seq::filter_distributes_over_add(seq![issued[0]], rest, young);
        assert(issued.filter(young) =~= rest.filter(young));
    } else {
        issued.lemma_filter_len(young);
    }
}

/// A search that need not wait leaves at most `limit` searches in the period
/// that ends with it.
pub proof fn lemma_rate_is_kept(m: RateModel, now: u128)
    requires
        in_order(m.issued),
        m.wait(now) is None,
    ensures
        count_recent(m.issued.push(now), now, m.period) <= m.limit,
        count_recent(m.pruned(now).issued.push(now), now, m.period) <= m.limit,
{
    lemma_recent_counts_all(m.issued, now, m.period);
    let young = |t: u128| age(t, now) < m.period;
    let left = m.pruned(now).issued;
    reveal(Seq::filter);
    assert(m.issued.push(now).drop_last() =~= m.issued);
    assert(left.push(now).drop_last() =~= left);
    left.lemma_filter_len(young);
}

/// A search that waits as long as it is told may go ahead, where the limit was
/// kept so far.
pub proof fn lemma_waiting_helps(m: RateModel, now: u128, then: u128)
    requires
        m.limit > 0,
        m.wait(now) is Some,
        recent(m.issued, now, m.period).len() <= m.limit,
        forall|i: int| 0 <= i < m.issued.len() ==> #[trigger] m.issued[i] <= now,
        then >= now + m.wait(now)->0,
    ensures
        m.wait(then) is None,
{
    lemma_recent_front(m.issued, now, m.period);
    let k = lemma_recent_is_suffix(m.issued, now, m.period);
    assert(recent(m.issued, now, m.period)[0] == m.issued[k]);
    lemma_recent_at_later(m.issued, now, then, m.period);
}

/// What is left after the old times are gone is an end of the list.
proof fn lemma_recent_is_suffix(issued: Seq<u128>, now: u128, period: nat) -> (k: int)
    ensures
        0 <= k <= issued.len(),
        recent(issued, now, period) == issued.skip(k),
    decreases issued.len(),
{
    if issued.len() > 0 && age(issued[0], now) >= period {
        let k = lemma_recent_is_suffix(issued.skip(1), now, period);
        assert(issued.skip(1).skip(k) =~= issued.skip(k + 1));
        k + 1
    } else {
        assert(issued.skip(0) =~= issued);
        0
    }
}

/// What is old stays old, and once the oldest of the rest is old it goes too.
proof fn lemma_recent_at_later(issued: Seq<u128>, now: u128, then: u128, period: nat)
    requires
        forall|i: int| 0 <= i < issued.len() ==> #[trigger] issued[i] <= now,
        recent(issued, now, period).len() > 0,
        then >= now,
        age(recent(issued, now, period)[0], then) >= period,
    ensures
        recent(issued, then, period).len() < recent(issued, now, period).len(),
    decreases issued.len(),
{
    if age(issued[0], now) >= period {
        assert(issued.skip(1).len() > 0 || recent(issued.skip(1), now, period).len() == 0);
        lemma_recent_at_later(issued.skip(1), now, then, period);
    } else {
        lemma_recent_front(issued.skip(1), then, period);
    }
}

/// A search is not told to wait for longer than it needs to: before the time is over it
/// would still be refused.
pub proof fn lemma_no_longer_than_needed(m: RateModel, now: u128, then: u128)
    requires
        m.limit > 0,
        m.wait(now) is Some,
        forall|i: int| 0 <= i < m.issued.len() ==> #[trigger] m.issued[i] <= now,
        now <= then < now + m.wait(now)->0,
    ensures
        m.wait(then) is Some,
        m.wait(then)->0 == m.wait(now)->0 - (then - now),
{
    lemma_recent_front(m.issued, now, m.period);
    let k = lemma_recent_is_suffix(m.issued, now, m.period);
    assert(recent(m.issued, now, m.period)[0] == m.issued[k]);
    lemma_recent_stays(m.issued, now, then, m.period);
}

/// As long as the oldest of what is left is not old, nothing more goes.
proof fn lemma_recent_stays(issued: Seq<u128>, now: u128, then: u128, period: nat)
    requires
        forall|i: int| 0 <= i < issued.len() ==> #[trigger] issued[i] <= now,
        recent(issued, now, period).len() > 0,
        then >= now,
        age(recent(issued, now, period)[0], then) < period,
    ensures
        recent(issued, then, period) == recent(issued, now, period),
    decreases issued.len(),
{
    if age(issued[0], now) >= period {
        lemma_recent_stays(issued.skip(1), now, then, period);
    }
}

// ---- downloads --------------------------------------------------------------------

/// A download that has been asked for and has not begun.
#[derive(Debug)]
pub struct PendingDownload {
    pub filename: SoulseekPath,
    pub username: String,
    pub size: u64,
    pub download_directory: String,
    pub token: DownloadToken,
    pub status_sender: StatusChannel,
}

impl Clone for PendingDownload {
    fn clone(&self) -> (r: Self)
        ensures
            r == *self,
    {
        PendingDownload {
            filename: self.filename.clone(),
            username: self.username.clone(),
            size: self.size,
            download_directory: self.download_directory.clone(),
            token: self.token,
            status_sender: self.status_sender,
        }
    }
}

impl PendingDownload {
    /// The download that has been asked for, queued.
    pub open spec fn download(self) -> Download {
        Download {
            username: self.username,
            filename: self.filename,
            token: self.token,
            size: self.size,
            download_directory: self.download_directory,
            status: DownloadStatus::Queued,
            sender: self.status_sender,
        }
    }

    /// The download that has been asked for, queued.
    pub fn to_download(&self) -> (r: Download)
        ensures
            r == self.download(),
    {
        Download {
            username: self.username.clone(),
            filename: self.filename.clone(),
            token: self.token,
            size: self.size,
            download_directory: self.download_directory.clone(),
            status: DownloadStatus::Queued,
            sender: self.status_sender,
        }
    }
}

/// Lets at most a number of downloads run at a time; the others queue.
#[derive(Debug)]
pub struct DownloadConcurrencyLimiter {
    pub max_concurrent: u32,
    pub active: u32,
    pub queue: VecDeque<PendingDownload>,
}

/// A limiter as a value.
#[verifier::ext_equal]
pub struct SlotsModel {
    pub max_concurrent: u32,
    pub active: u32,
    pub queue: Seq<PendingDownload>,
}

impl View for DownloadConcurrencyLimiter {
    type V = SlotsModel;

    open spec fn view(&self) -> SlotsModel {
        SlotsModel {
            max_concurrent: self.max_concurrent,
            active: self.active,
            queue: self.queue@,
        }
    }
}

impl SlotsModel {
    /// A slot is free.
    pub open spec fn free(self) -> bool {
        self.active < self.max_concurrent
    }

    /// One slot more is taken.
    pub open spec fn taken(self) -> SlotsModel {
        SlotsModel { active: (self.active + 1) as u32, ..self }
    }

    /// A download more waits.
    pub open spec fn queued(self, pd: PendingDownload) -> SlotsModel {
        SlotsModel { queue: self.queue.push(pd), ..self }
    }

    /// One slot more is free, if any was taken.
    pub open spec fn released(self) -> SlotsModel {
        SlotsModel {
            active: if self.active > 0 {
                (self.active - 1) as u32
            } else {
                0
            },
            ..self
        }
    }

    /// The number of running downloads is within the limit.
    pub open spec fn within_limit(self) -> bool {
        self.active <= self.max_concurrent
    }
}

impl DownloadConcurrencyLimiter {
    /// A limiter with every slot free.
    pub fn new(max_concurrent: u32) -> (r: Self)
        ensures
            r@ == (SlotsModel { max_concurrent, active: 0, queue: Seq::empty() }),
            r@.within_limit(),
    {
        DownloadConcurrencyLimiter { max_concurrent, active: 0, queue: VecDeque::new() }
    }
}

} // verus!
