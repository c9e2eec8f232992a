//! The snapshot aggregator: on each periodic tick it derives rate and
//! latency figures from the ring's live totals, merges in externally
//! supplied host readings, appends one timestamped snapshot to the store,
//! and prunes snapshots older than the retention horizon.

use vstd::prelude::*;

use crate::ring::live_count;
use crate::ring::live_total;
use crate::ring::WindowRing;
use crate::RETENTION_US;
use crate::WINDOW_COUNT;

verus! {

/// One immutable, timestamped record of derived metrics plus externally
/// supplied host readings. The timestamp, in microseconds, is its key.
///
/// Fixed-point units: `updates_per_second_milli` is thousandths of an
/// update per second; `average_update_time_us` is microseconds;
/// `cpu_usage_centi_percent` is hundredths of a percent (it may exceed
/// ten thousand under multi-core accounting, as the provider reports it).
#[derive(Clone, Copy, Debug, PartialEq, Eq, Structural)]
pub struct ServerMetrics {
    pub timestamp_us: u64,
    pub connected_clients: u32,
    pub updates_per_second_milli: u64,
    pub average_update_time_us: u64,
    pub memory_usage_mb: u64,
    pub cpu_usage_centi_percent: u32,
}

/// What a tick can report to its caller. A snapshot insert that collides
/// with an existing timestamp key is refused, never silently overwritten;
/// the store is left untouched. Provider failures never surface here: the
/// caller substitutes zeroed or last-known readings and the tick goes on.
#[derive(Clone, Copy, Debug, PartialEq, Eq, Structural)]
pub enum MetricsError {
    DuplicateKey,
}

/// Whether a snapshot is still inside the retention horizon at `now_us`.
pub open spec fn retained(s: ServerMetrics, now_us: int) -> bool {
    s.timestamp_us + RETENTION_US >= now_us
}

/// The update rate over the trailing window, in thousandths of an update
/// per second: the live count averaged over the whole window length, a
/// deliberate smoothing choice.
pub open spec fn updates_per_second_milli_of(count: int) -> int {
    count * 1000 / WINDOW_COUNT as int
}

/// The average latency of the live samples, in microseconds; zero is the
/// defined idle value when there are no samples, not an error.
pub open spec fn average_update_time_of(count: int, total: int) -> int {
    if count > 0 {
        total / count
    } else {
        0
    }
}

/// The snapshot that a tick at `now_us` composes from the ring's live
/// totals and the externally supplied readings.
pub open spec fn snapshot_model(
    now_us: u64,
    connected_clients: u32,
    memory_usage_mb: u64,
    cpu_usage_centi_percent: u32,
    count: int,
    total: int,
) -> ServerMetrics {
    ServerMetrics {
        timestamp_us: now_us,
        connected_clients,
        updates_per_second_milli: updates_per_second_milli_of(count) as u64,
        average_update_time_us: average_update_time_of(count, total) as u64,
        memory_usage_mb,
        cpu_usage_centi_percent,
    }
}

/// The store of emitted snapshots: an append-only log keyed by timestamp,
/// bounded by the retention horizon.
pub struct SnapshotAggregator {
    snapshots: Vec<ServerMetrics>,
}

impl View for SnapshotAggregator {
    type V = Seq<ServerMetrics>;

    closed spec fn view(&self) -> Seq<ServerMetrics> {
        self.snapshots@
    }
}

impl SnapshotAggregator {
    /// Well-formedness: timestamps are keys, so no two stored snapshots
    /// share one.
    pub open spec fn wf(&self) -> bool {
        forall|i: int, j: int|
            0 <= i < j < self@.len() ==> (#[trigger] self@[i]).timestamp_us != (
            #[trigger] self@[j]).timestamp_us
    }

    /// Creates an empty store.
    pub fn new() -> (r: Self)
        ensures
            r.wf(),
            r@ == Seq::<ServerMetrics>::empty(),
    {
        let r = SnapshotAggregator { snapshots: Vec::new() };
        proof {
            assert(r@ =~= Seq::<ServerMetrics>::empty());
        }
        r
    }

    /// The stored snapshots, oldest first: the full scan that downstream
    /// consumers read.
    pub fn snapshots(&self) -> (r: &Vec<ServerMetrics>)
        ensures
            r@ == self@,
    {
        &self.snapshots
    }

    /// Deletes every stored snapshot whose timestamp lies more than the
    /// retention horizon before `now_us`; the rest survive in order.
    #[verifier::loop_isolation(false)]
    pub fn prune_expired(&mut self, now_us: u64)
        ensures
            final(self)@ == old(self)@.filter(|s: ServerMetrics| retained(s, now_us as int)),
            old(self).wf() ==> final(self).wf(),
    {
        let ghost pred = |s: ServerMetrics| retained(s, now_us as int);
        let n = self.snapshots.len();
        let mut kept: Vec<ServerMetrics> = Vec::new();
        let mut i: usize = 0;
        while i < n
            invariant
                n == self.snapshots@.len(),
                i <= n,
                kept@ == self.snapshots@.subrange(0, i as int).filter(pred),
                forall|k: int|
                    0 <= k < kept@.len() ==> exists|j: int|
                        0 <= j < i && #[trigger] kept@[k] == self.snapshots@[j],
                self.wf() ==> forall|k1: int, k2: int|
                    0 <= k1 < k2 < kept@.len() ==> (#[trigger] kept@[k1]).timestamp_us != (
                    #[trigger] kept@[k2]).timestamp_us,
            decreases n - i,
        {
            let s = self.snapshots[i];
            proof {
                reveal(Seq::filter);
                assert(self.snapshots@.subrange(0, i as int + 1).drop_last() =~= self.snapshots@.subrange(
                    0,
                    i as int,
                ));
                assert(self.snapshots@.subrange(0, i as int + 1).last() == s);
                if self.wf() {
                    assert forall|k: int|
                        0 <= k < kept@.len() implies (#[trigger] kept@[k]).timestamp_us
                        != s.timestamp_us by {
                        let j = choose|j: int| 0 <= j < i && kept@[k] == self.snapshots@[j];
                        assert(self@[j].timestamp_us != self@[i as int].timestamp_us);
                    }
                }
            }
            if s.timestamp_us >= now_us || now_us - s.timestamp_us <= RETENTION_US {
                kept.push(s);
            }
            i += 1;
        }
        proof {
            assert(self.snapshots@.subrange(0, n as int) =~= self.snapshots@);
        }
        self.snapshots = kept;
    }

    /// One periodic tick at `now_us`: reads the ring's live totals,
    /// derives the update rate and average latency, composes a snapshot
    /// with the supplied host readings, appends it under its timestamp
    /// key, and prunes snapshots older than the retention horizon.
    ///
    /// A timestamp collision leaves the store untouched and is reported
    /// as [`MetricsError::DuplicateKey`].
    #[verifier::loop_isolation(false)]
    pub fn update_server_metrics(
        &mut self,
        ring: &WindowRing,
        now_us: u64,
        connected_clients: u32,
        memory_usage_mb: u64,
        cpu_usage_centi_percent: u32,
    ) -> (r: Result<(), MetricsError>)
        requires
            ring.wf(),
            old(self).wf(),
        ensures
            final(self).wf(),
            ({
                let count = live_count(ring@, now_us as int);
                let total = live_total(ring@, now_us as int);
                let snap = snapshot_model(
                    now_us,
                    connected_clients,
                    memory_usage_mb,
                    cpu_usage_centi_percent,
                    count,
                    total,
                );
                &&& (r is Err <==> exists|i: int|
                    0 <= i < old(self)@.len() && (#[trigger] old(self)@[i]).timestamp_us == now_us)
                &&& (r is Err ==> r == Err::<(), MetricsError>(MetricsError::DuplicateKey)
                    && final(self)@ == old(self)@)
                &&& (r is Ok ==> final(self)@ == old(self)@.push(snap).filter(
                    |s: ServerMetrics| retained(s, now_us as int),
                ))
                &&& (r is Ok ==> final(self)@.len() >= 1 && final(self)@.last() == snap)
            }),
            r is Ok ==> forall|i: int|
                0 <= i < final(self)@.len() ==> (#[trigger] final(self)@[i]).timestamp_us
                    + RETENTION_US >= now_us,
            r is Ok && live_count(ring@, now_us as int) == 0 ==> final(self)@.last().average_update_time_us == 0,
    {
        let (count, total) = ring.live_totals(now_us);

        let n = self.snapshots.len();
        let mut i: usize = 0;
        while i < n
            invariant
                n == self.snapshots@.len(),
                i <= n,
                forall|j: int|
                    0 <= j < i ==> (#[trigger] self.snapshots@[j]).timestamp_us != now_us,
            decreases n - i,
        {
            if self.snapshots[i].timestamp_us == now_us {
                return Err(MetricsError::DuplicateKey);
            }
            i += 1;
        }

        let updates_per_second_milli = count * 1000 / WINDOW_COUNT;
        let average_update_time_us = if count > 0 {
            total / count
        } else {
            0
        };
        let snap = ServerMetrics {
            timestamp_us: now_us,
            connected_clients,
            updates_per_second_milli,
            average_update_time_us,
            memory_usage_mb,
            cpu_usage_centi_percent,
        };
        proof {
            assert(snap == snapshot_model(
                now_us,
                connected_clients,
                memory_usage_mb,
                cpu_usage_centi_percent,
                live_count(ring@, now_us as int),
                live_total(ring@, now_us as int),
            ));
        }
        self.snapshots.push(snap);
        proof {
            assert(self@ == old(self)@.push(snap));
        }
        self.prune_expired(now_us);
        proof {
            reveal(Seq::filter);
            let pred = |s: ServerMetrics| retained(s, now_us as int);
            let mid = old(self)@.push(snap);
            assert(mid.drop_last() =~= old(self)@);
            assert(mid.last() == snap);
            assert(retained(snap, now_us as int));
            assert(self@ == mid.filter(pred));
            assert(self@.last() == snap);
        }
        Ok(())
    }
}

} // verus!
