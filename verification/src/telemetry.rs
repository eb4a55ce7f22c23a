//! How synchronisation is doing.
//!
//! Averages are carried as the bits of their double-precision form; whoever records a result
//! brings the new ones along.

use vstd::prelude::*;

use crate::ids::PeerId;
use crate::text_map::TextMap;

verus! {

/// How well a channel works.
#[derive(Debug, Clone, Copy, PartialEq, Eq, Structural)]
pub struct ChannelStats {
    /// The average success rate.
    pub success_bits: u64,
    /// The average latency in milliseconds.
    pub latency_bits: u64,
    pub total_sent: u64,
    pub total_success: u64,
    /// When a result was last recorded, in milliseconds since the Unix epoch.
    pub updated_at: Option<i64>,
}

/// Nothing was sent yet.
pub open spec fn no_stats() -> ChannelStats {
    ChannelStats {
        success_bits: 0,
        latency_bits: 0,
        total_sent: 0,
        total_success: 0,
        updated_at: None,
    }
}

/// The statistics with one more result.
pub open spec fn recorded(
    s: ChannelStats,
    success: bool,
    success_bits: u64,
    latency_bits: u64,
    now: i64,
) -> ChannelStats {
    ChannelStats {
        success_bits,
        latency_bits,
        total_sent: (s.total_sent + 1) as u64,
        total_success: if success {
            (s.total_success + 1) as u64
        } else {
            s.total_success
        },
        updated_at: Some(now),
    }
}

impl ChannelStats {
    /// No more successes than results.
    pub open spec fn wf(&self) -> bool {
        self.total_success <= self.total_sent
    }

    pub fn new() -> (r: Self)
        ensures
            r == no_stats(),
            r.wf(),
    {
        ChannelStats {
            success_bits: 0,
            latency_bits: 0,
            total_sent: 0,
            total_success: 0,
            updated_at: None,
        }
    }

    /// Records a result, with the averages that it leads to.
    pub fn record_result(&mut self, success: bool, success_bits: u64, latency_bits: u64, now: i64)
        requires
            old(self).wf(),
            old(self).total_sent < u64::MAX,
        ensures
            *final(self) == recorded(*old(self), success, success_bits, latency_bits, now),
            final(self).wf(),
    {
        self.success_bits = success_bits;
        self.latency_bits = latency_bits;
        self.total_sent = self.total_sent + 1;
        if success {
            self.total_success = self.total_success + 1;
        }
        self.updated_at = Some(now);
    }
}

/// How far this device is behind.
#[derive(Debug, Clone, Copy, PartialEq, Eq, Structural)]
pub struct SyncLag {
    pub seq_lag: u64,
    /// How long ago it last synchronised.
    pub time_lag_secs: u64,
}

/// How much waits.
#[derive(Debug, Clone, Copy, PartialEq, Eq, Structural)]
pub struct QueueBacklog {
    pub pending_actions: u32,
    /// How many changes wait for something else.
    pub pending_fetches: u32,
}

/// How synchronisation is doing.
#[derive(Debug)]
pub struct TelemetrySnapshot {
    pub sync_lag: SyncLag,
    pub backlog: QueueBacklog,
    /// The channels with their statistics, in the order of their names.
    pub channels: Vec<(String, ChannelStats)>,
    pub anchor_peer: Option<String>,
    pub anchor_online: bool,
}

/// Collects how synchronisation is doing.
#[derive(Debug)]
pub struct TelemetryCollector {
    sync_lag: SyncLag,
    backlog: QueueBacklog,
    channels: TextMap<ChannelStats>,
    anchor_peer: Option<PeerId>,
    anchor_online: bool,
}

/// Channels with their statistics, the names taken as texts.
pub open spec fn channel_pairs(s: Seq<(String, ChannelStats)>) -> Seq<(Seq<char>, ChannelStats)> {
    s.map_values(|p: (String, ChannelStats)| (p.0@, p.1))
}

/// The statistics of a channel, none where nothing was sent through it.
pub open spec fn stats_of(m: Map<Seq<char>, ChannelStats>, channel: Seq<char>) -> ChannelStats {
    if m.contains_key(channel) {
        m[channel]
    } else {
        no_stats()
    }
}

impl TelemetryCollector {
    /// The statistics of the channels.
    pub closed spec fn stats(&self) -> Map<Seq<char>, ChannelStats> {
        self.channels@
    }

    /// The channels in the order of their names.
    pub closed spec fn listed(&self) -> Seq<(Seq<char>, ChannelStats)> {
        self.channels.pairs()
    }

    pub closed spec fn lag(&self) -> SyncLag {
        self.sync_lag
    }

    pub closed spec fn waiting(&self) -> QueueBacklog {
        self.backlog
    }

    /// The anchor, and whether it is online.
    pub closed spec fn anchor(&self) -> (Option<PeerId>, bool) {
        (self.anchor_peer, self.anchor_online)
    }

    /// The channels are kept in order, each once, with no more successes than results.
    pub closed spec fn wf(&self) -> bool {
        self.channels.wf() && forall|k: Seq<char>| #[trigger]
            self.channels@.contains_key(k) ==> self.channels@[k].wf()
    }

    pub fn new() -> (r: Self)
        ensures
            r.wf(),
            r.stats() == Map::<Seq<char>, ChannelStats>::empty(),
            r.lag() == (SyncLag { seq_lag: 0, time_lag_secs: 0 }),
            r.waiting() == (QueueBacklog { pending_actions: 0, pending_fetches: 0 }),
            r.anchor() == (None::<PeerId>, false),
    {
        TelemetryCollector {
            sync_lag: SyncLag { seq_lag: 0, time_lag_secs: 0 },
            backlog: QueueBacklog { pending_actions: 0, pending_fetches: 0 },
            channels: TextMap::new(),
            anchor_peer: None,
            anchor_online: false,
        }
    }

    /// The statistics of a channel, none where nothing was sent through it.
    pub fn channel_stats(&self, channel: &str) -> (r: ChannelStats)
        requires
            self.wf(),
        ensures
            r == stats_of(self.stats(), channel@),
            r.wf(),
    {
        match self.channels.get(channel) {
            Some(s) => *s,
            None => ChannelStats::new(),
        }
    }

    /// Records a result of a channel, with the averages that it leads to.
    pub fn record_transport(
        &mut self,
        channel: &str,
        success: bool,
        success_bits: u64,
        latency_bits: u64,
        now: i64,
    )
        requires
            old(self).wf(),
            stats_of(old(self).stats(), channel@).total_sent < u64::MAX,
        ensures
            final(self).wf(),
            final(self).stats() == old(self).stats().insert(
                channel@,
                recorded(
                    stats_of(old(self).stats(), channel@),
                    success,
                    success_bits,
                    latency_bits,
                    now,
                ),
            ),
            final(self).lag() == old(self).lag(),
            final(self).waiting() == old(self).waiting(),
            final(self).anchor() == old(self).anchor(),
    {
        let mut stats = self.channel_stats(channel);
        stats.record_result(success, success_bits, latency_bits, now);
        self.channels.insert(channel.to_owned(), stats);
    }

    pub fn set_sync_lag(&mut self, seq_lag: u64, time_lag_secs: u64)
        requires
            old(self).wf(),
        ensures
            final(self).wf(),
            final(self).stats() == old(self).stats(),
            final(self).lag() == (SyncLag { seq_lag, time_lag_secs }),
            final(self).waiting() == old(self).waiting(),
            final(self).anchor() == old(self).anchor(),
    {
        self.sync_lag = SyncLag { seq_lag, time_lag_secs };
    }

    pub fn set_backlog(&mut self, pending_actions: u32, pending_fetches: u32)
        requires
            old(self).wf(),
        ensures
            final(self).wf(),
            final(self).stats() == old(self).stats(),
            final(self).lag() == old(self).lag(),
            final(self).waiting() == (QueueBacklog { pending_actions, pending_fetches }),
            final(self).anchor() == old(self).anchor(),
    {
        self.backlog = QueueBacklog { pending_actions, pending_fetches };
    }

    pub fn set_anchor(&mut self, peer: Option<PeerId>, online: bool)
        requires
            old(self).wf(),
        ensures
            final(self).wf(),
            final(self).stats() == old(self).stats(),
            final(self).lag() == old(self).lag(),
            final(self).waiting() == old(self).waiting(),
            final(self).anchor() == (peer, online),
    {
        self.anchor_peer = peer;
        self.anchor_online = online;
    }

    /// A channel is listed with its statistics where and only where something was sent through
    /// it.
    pub proof fn law_channels_are_listed(&self)
        requires
            self.wf(),
        ensures
            forall|i: int|
                0 <= i < self.listed().len() ==> self.stats().contains_key(
                    (#[trigger] self.listed()[i]).0,
                ) && self.stats()[self.listed()[i].0] == self.listed()[i].1,
            forall|k: Seq<char>| #[trigger]
                self.stats().contains_key(k) ==> exists|i: int|
                    0 <= i < self.listed().len() && (#[trigger] self.listed()[i]).0 == k,
    {
        self.channels.lemma_pairs();
    }

    /// How synchronisation is doing.
    pub fn snapshot(&self) -> (r: TelemetrySnapshot)
        ensures
            r.sync_lag == self.lag(),
            r.backlog == self.waiting(),
            channel_pairs(r.channels@) == self.listed(),
            r.anchor_online == self.anchor().1,
            match r.anchor_peer {
                Some(p) => self.anchor().0 is Some && self.anchor().0->Some_0@ == p@,
                None => self.anchor().0 is None,
            },
    {
        let mut channels: Vec<(String, ChannelStats)> = Vec::new();
        let mut i: usize = 0;
        while i < self.channels.len()
            invariant
                i <= self.channels.pairs().len(),
                channels@.len() == i,
                forall|j: int|
                    0 <= j < i ==> (#[trigger] channels@[j]).0@ == self.channels.pairs()[j].0
                        && channels@[j].1 == self.channels.pairs()[j].1,
            decreases self.channels.pairs().len() - i,
        {
            channels.push((self.channels.key_at(i).clone(), *self.channels.value_at(i)));
            i = i + 1;
        }
        assert(channel_pairs(channels@) =~= self.listed());
        TelemetrySnapshot {
            sync_lag: self.sync_lag,
            backlog: self.backlog,
            channels,
            anchor_peer: match &self.anchor_peer {
                Some(p) => Some(p.0.clone()),
                None => None,
            },
            anchor_online: self.anchor_online,
        }
    }
}

/// A result that is recorded for a channel is counted there, as a success only where it was one, with the
/// averages and the time that came with it; the other channels stay as they are.
pub proof fn law_results_are_counted(
    collector: &mut TelemetryCollector,
    channel: &str,
    success: bool,
    success_bits: u64,
    latency_bits: u64,
    now: i64,
    other: &str,
    before: ChannelStats,
    after: ChannelStats,
)
    requires
        call_ensures(
            TelemetryCollector::record_transport,
            (collector, channel, success, success_bits, latency_bits, now),
            (),
        ),
        call_ensures(TelemetryCollector::channel_stats, (&*old(collector), other), before),
        call_ensures(TelemetryCollector::channel_stats, (&*final(collector), other), after),
        before.total_sent < u64::MAX,
        before.total_success <= before.total_sent,
    ensures
        other@ != channel@ ==> after == before,
        other@ == channel@ ==> {
            &&& after.total_sent == before.total_sent + 1
            &&& success ==> after.total_success == before.total_success + 1
            &&& !success ==> after.total_success == before.total_success
            &&& after.success_bits == success_bits
            &&& after.latency_bits == latency_bits
            &&& after.updated_at == Some(now)
        },
        final(collector).lag() == old(collector).lag(),
        final(collector).waiting() == old(collector).waiting(),
        final(collector).anchor() == old(collector).anchor(),
{
}

/// A channel that nothing was sent through has no results.
pub proof fn law_new_collector_knows_nothing(
    collector: TelemetryCollector,
    channel: &str,
    stats: ChannelStats,
    seen: TelemetrySnapshot,
)
    requires
        call_ensures(TelemetryCollector::new, (), collector),
        call_ensures(TelemetryCollector::channel_stats, (&collector, channel), stats),
        call_ensures(TelemetryCollector::snapshot, (&collector,), seen),
    ensures
        stats.total_sent == 0 && stats.total_success == 0 && stats.updated_at is None,
        seen.channels@.len() == 0,
        seen.anchor_peer is None && !seen.anchor_online,
        seen.sync_lag.seq_lag == 0 && seen.backlog.pending_actions == 0,
{
    collector.law_channels_are_listed();
    let listed = collector.listed();
    assert(channel_pairs(seen.channels@).len() == seen.channels@.len());
    if listed.len() > 0 {
        assert(collector.stats().contains_key(listed[0].0));
    }
}

/// What was set last is what is seen, and each channel is seen with its own statistics.
pub proof fn law_snapshot_shows_what_was_set(
    lagging: &mut TelemetryCollector,
    seq_lag: u64,
    time_lag_secs: u64,
    waiting: &mut TelemetryCollector,
    pending_actions: u32,
    pending_fetches: u32,
    anchored: &mut TelemetryCollector,
    peer: Option<PeerId>,
    online: bool,
    seen: TelemetrySnapshot,
)
    requires
        call_ensures(
            TelemetryCollector::set_sync_lag,
            (lagging, seq_lag, time_lag_secs),
            (),
        ),
        *old(waiting) == *final(lagging),
        call_ensures(
            TelemetryCollector::set_backlog,
            (waiting, pending_actions, pending_fetches),
            (),
        ),
        *old(anchored) == *final(waiting),
        call_ensures(TelemetryCollector::set_anchor, (anchored, peer, online), ()),
        final(anchored).wf(),
        call_ensures(TelemetryCollector::snapshot, (&*final(anchored),), seen),
    ensures
        seen.sync_lag.seq_lag == seq_lag && seen.sync_lag.time_lag_secs == time_lag_secs,
        seen.backlog.pending_actions == pending_actions && seen.backlog.pending_fetches
            == pending_fetches,
        seen.anchor_online == online,
        seen.anchor_peer is Some <==> peer is Some,
        peer matches Some(p) ==> seen.anchor_peer->Some_0@ == p@,
        forall|i: int|
            0 <= i < seen.channels@.len() ==> old(lagging).stats().contains_key(
                (#[trigger] seen.channels@[i]).0@,
            ) && old(lagging).stats()[seen.channels@[i].0@] == seen.channels@[i].1,
        forall|k: Seq<char>| #[trigger]
            old(lagging).stats().contains_key(k) ==> exists|i: int|
                0 <= i < seen.channels@.len() && (#[trigger] seen.channels@[i]).0@ == k,
{
    final(anchored).law_channels_are_listed();
    let listed = final(anchored).listed();
    let shown = channel_pairs(seen.channels@);
    assert forall|i: int| 0 <= i < seen.channels@.len() implies old(lagging).stats().contains_key(
        (#[trigger] seen.channels@[i]).0@,
    ) && old(lagging).stats()[seen.channels@[i].0@] == seen.channels@[i].1 by {
        assert(shown[i] == listed[i]);
    }
    assert forall|k: Seq<char>| #[trigger] old(lagging).stats().contains_key(k) implies exists|i: int|
        0 <= i < seen.channels@.len() && (#[trigger] seen.channels@[i]).0@ == k by {
        let i = choose|i: int| 0 <= i < listed.len() && (#[trigger] listed[i]).0 == k;
        assert(shown[i] == listed[i]);
        assert(seen.channels@[i].0@ == k);
    }
}

/// A result counts once, and as a success only where it was one; the averages are those that came with it.
pub proof fn law_result_counts_once(
    made: ChannelStats,
    stats: &mut ChannelStats,
    success: bool,
    success_bits: u64,
    latency_bits: u64,
    now: i64,
)
    requires
        call_ensures(ChannelStats::new, (), made),
        old(stats).total_success <= old(stats).total_sent < u64::MAX,
        call_ensures(
            ChannelStats::record_result,
            (stats, success, success_bits, latency_bits, now),
            (),
        ),
    ensures
        made.total_sent == 0 && made.total_success == 0 && made.updated_at is None,
        final(stats).total_sent == old(stats).total_sent + 1,
        success ==> final(stats).total_success == old(stats).total_success + 1,
        !success ==> final(stats).total_success == old(stats).total_success,
        final(stats).success_bits == success_bits,
        final(stats).latency_bits == latency_bits,
        final(stats).updated_at == Some(now),
{
}

} // verus!
