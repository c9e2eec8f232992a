//! The windowed aggregation ring: a fixed-size circular array of time
//! buckets, each accumulating the sample count and total latency of one
//! second-aligned time slot, with lazy reset when a slot's period has
//! fully rolled over.

use vstd::prelude::*;

use crate::BUCKET_TOTAL_MAX;
use crate::MICROS_PER_SECOND;
use crate::WINDOW_COUNT;
use crate::WINDOW_SPAN_US;

verus! {

/// One accumulation slot of the ring: identified by its index, it holds
/// the start of its current accumulation period, the number of samples
/// recorded in that period, and their total latency in microseconds.
#[derive(Clone, Copy)]
pub struct MetricsWindow {
    pub window_id: usize,
    pub start_time_us: u64,
    pub update_count: u32,
    pub total_update_time_us: u64,
}

/// Mathematical model of one bucket: its period start and accumulated
/// count and total, as unbounded integers.
pub struct BucketModel {
    pub start_time_us: int,
    pub update_count: int,
    pub total_update_time_us: int,
}

impl View for MetricsWindow {
    type V = BucketModel;

    open spec fn view(&self) -> BucketModel {
        BucketModel {
            start_time_us: self.start_time_us as int,
            update_count: self.update_count as int,
            total_update_time_us: self.total_update_time_us as int,
        }
    }
}

/// The index of the bucket that a sample at time `now_us` falls into:
/// the wall-clock second, modulo the ring size.
pub open spec fn bucket_index_of(now_us: int) -> int {
    (now_us / MICROS_PER_SECOND as int) % WINDOW_COUNT as int
}

/// Whether the period that started at `start_us` has fully elapsed by
/// `now_us`: the slot's prior occupancy has rolled all the way around.
/// The same predicate decides bucket reset on write and bucket inclusion
/// on read.
pub open spec fn expired(now_us: int, start_us: int) -> bool {
    now_us >= start_us + WINDOW_SPAN_US
}

/// The ring state right after initialization at `now_us`: every bucket's
/// period starts at `now_us`, with nothing accumulated.
pub open spec fn init_model(now_us: int) -> Seq<BucketModel> {
    Seq::new(
        WINDOW_COUNT as nat,
        |i: int|
            BucketModel {
                start_time_us: now_us,
                update_count: 0,
                total_update_time_us: 0,
            },
    )
}

/// What one recording at time `now_us` with latency `latency_us` does to
/// the ring: the bucket for the current second is reset to a fresh period
/// if its previous period has fully expired, and accumulates otherwise;
/// every other bucket is untouched. A ring with no bucket at the computed
/// index is left unchanged (recording is never fatal).
pub open spec fn record_step(s: Seq<BucketModel>, now_us: int, latency_us: int) -> Seq<
    BucketModel,
> {
    let idx = bucket_index_of(now_us);
    if 0 <= idx < s.len() {
        let b = s[idx];
        if expired(now_us, b.start_time_us) {
            s.update(
                idx,
                BucketModel { start_time_us: now_us, update_count: 1, total_update_time_us: latency_us },
            )
        } else {
            s.update(
                idx,
                BucketModel {
                    start_time_us: b.start_time_us,
                    update_count: b.update_count + 1,
                    total_update_time_us: b.total_update_time_us + latency_us,
                },
            )
        }
    } else {
        s
    }
}

/// What one bucket contributes to the live sample count at `now_us`:
/// its count if its period is still inside the trailing window, nothing
/// if it has expired.
pub open spec fn live_count_of(b: BucketModel, now_us: int) -> int {
    if expired(now_us, b.start_time_us) {
        0
    } else {
        b.update_count
    }
}

/// What one bucket contributes to the live latency total at `now_us`.
pub open spec fn live_total_of(b: BucketModel, now_us: int) -> int {
    if expired(now_us, b.start_time_us) {
        0
    } else {
        b.total_update_time_us
    }
}

/// The number of samples still inside the trailing window at `now_us`:
/// the counts of all buckets whose period has not expired.
pub open spec fn live_count(s: Seq<BucketModel>, now_us: int) -> int
    decreases s.len(),
{
    if s.len() == 0 {
        0
    } else {
        live_count(s.drop_last(), now_us) + live_count_of(s.last(), now_us)
    }
}

/// The total latency of the samples still inside the trailing window at
/// `now_us`.
pub open spec fn live_total(s: Seq<BucketModel>, now_us: int) -> int
    decreases s.len(),
{
    if s.len() == 0 {
        0
    } else {
        live_total(s.drop_last(), now_us) + live_total_of(s.last(), now_us)
    }
}

/// The fixed-size ring of time buckets.
///
/// It is created whole: construction is the initialization entry point, so
/// recording into an uninitialized ring cannot arise (ownership makes the
/// startup-ordering fault unrepresentable rather than lazily recovered).
pub struct WindowRing {
    buckets: Vec<MetricsWindow>,
}

impl View for WindowRing {
    type V = Seq<BucketModel>;

    closed spec fn view(&self) -> Seq<BucketModel> {
        self.buckets@.map_values(|b: MetricsWindow| b@)
    }
}

impl WindowRing {
    /// Well-formedness: the ring holds exactly one bucket per window slot,
    /// and no bucket's accumulated latency exceeds the cap that keeps
    /// window-wide sums within `u64`.
    pub open spec fn wf(&self) -> bool {
        &&& self@.len() == WINDOW_COUNT
        &&& forall|i: int|
            0 <= i < self@.len() ==> #[trigger] self@[i].total_update_time_us <= BUCKET_TOTAL_MAX
    }

    /// Creates the ring with all buckets empty and starting at `now_us`.
    pub fn new(now_us: u64) -> (r: Self)
        ensures
            r.wf(),
            r@ == init_model(now_us as int),
    {
        let mut buckets: Vec<MetricsWindow> = Vec::new();
        let mut i: usize = 0;
        while i < WINDOW_COUNT as usize
            invariant
                i <= WINDOW_COUNT,
                buckets@.len() == i,
                forall|j: int|
                    0 <= j < i ==> #[trigger] buckets@[j]@ == init_model(now_us as int)[j],
            decreases WINDOW_COUNT - i,
        {
            buckets.push(
                MetricsWindow {
                    window_id: i,
                    start_time_us: now_us,
                    update_count: 0,
                    total_update_time_us: 0,
                },
            );
            i += 1;
        }
        let r = WindowRing { buckets };
        proof {
            assert(r@ =~= init_model(now_us as int));
        }
        r
    }

    /// Resets every bucket to empty, starting a fresh window at `now_us`.
    /// The outcome does not depend on the prior state: re-initialization
    /// is a reset, never additive.
    pub fn init_metrics(&mut self, now_us: u64)
        ensures
            final(self).wf(),
            final(self)@ == init_model(now_us as int),
    {
        *self = Self::new(now_us);
    }

    /// Whether a recording at `now_us` with latency `latency_us` stays
    /// within the machine bounds of the target bucket's counters.
    pub open spec fn record_permitted(s: Seq<BucketModel>, now_us: int, latency_us: int) -> bool {
        &&& latency_us <= BUCKET_TOTAL_MAX
        &&& {
            let idx = bucket_index_of(now_us);
            (0 <= idx < s.len() && !expired(now_us, s[idx].start_time_us)) ==> (
            s[idx].update_count < u32::MAX && s[idx].total_update_time_us + latency_us
                <= BUCKET_TOTAL_MAX)
        }
    }

    /// Tests, before a call to [`Self::record_update_metrics`], that the
    /// recording cannot overflow the target bucket's counters.
    pub fn can_record(&self, now_us: u64, latency_us: u64) -> (r: bool)
        ensures
            r == Self::record_permitted(self@, now_us as int, latency_us as int),
    {
        if latency_us > BUCKET_TOTAL_MAX {
            return false;
        }
        let idx: usize = ((now_us / MICROS_PER_SECOND) % WINDOW_COUNT) as usize;
        if idx >= self.buckets.len() {
            return true;
        }
        let b = self.buckets[idx];
        if now_us >= WINDOW_SPAN_US && b.start_time_us <= now_us - WINDOW_SPAN_US {
            return true;
        }
        b.update_count < u32::MAX && b.total_update_time_us <= BUCKET_TOTAL_MAX - latency_us
    }

    /// Records one latency sample at time `now_us`: the bucket of the
    /// current second accumulates it, or starts a fresh period with it if
    /// the bucket's previous period has fully expired.
    pub fn record_update_metrics(&mut self, now_us: u64, latency_us: u64)
        requires
            Self::record_permitted(old(self)@, now_us as int, latency_us as int),
        ensures
            final(self)@ == record_step(old(self)@, now_us as int, latency_us as int),
            old(self).wf() ==> final(self).wf(),
    {
        let idx: usize = ((now_us / MICROS_PER_SECOND) % WINDOW_COUNT) as usize;
        if idx < self.buckets.len() {
            let b = self.buckets[idx];
            if now_us >= WINDOW_SPAN_US && b.start_time_us <= now_us - WINDOW_SPAN_US {
                self.buckets[idx] = MetricsWindow {
                    window_id: b.window_id,
                    start_time_us: now_us,
                    update_count: 1,
                    total_update_time_us: latency_us,
                };
            } else {
                self.buckets[idx] = MetricsWindow {
                    window_id: b.window_id,
                    start_time_us: b.start_time_us,
                    update_count: b.update_count + 1,
                    total_update_time_us: b.total_update_time_us + latency_us,
                };
            }
            proof {
                assert(self@ =~= record_step(old(self)@, now_us as int, latency_us as int));
            }
        } else {
            proof {
                assert(self@ =~= record_step(old(self)@, now_us as int, latency_us as int));
            }
        }
    }

    /// Sums the sample count and total latency of every bucket whose
    /// period is still inside the trailing window at `now_us`; buckets
    /// whose period has expired are excluded even though not yet reset.
    pub fn live_totals(&self, now_us: u64) -> (r: (u64, u64))
        requires
            self.wf(),
        ensures
            r.0 as int == live_count(self@, now_us as int),
            r.1 as int == live_total(self@, now_us as int),
            r.0 as int <= WINDOW_COUNT as int * 0xffff_ffff,
    {
        let mut count: u64 = 0;
        let mut total: u64 = 0;
        let mut i: usize = 0;
        while i < self.buckets.len()
            invariant
                self.wf(),
                self@.len() == self.buckets@.len(),
                i <= self.buckets@.len(),
                count as int == live_count(self@.subrange(0, i as int), now_us as int),
                total as int == live_total(self@.subrange(0, i as int), now_us as int),
                count as int <= i as int * 0xffff_ffff,
                total as int <= i as int * 0x0400_0000_0000_0000,
            decreases self.buckets@.len() - i,
        {
            let b = self.buckets[i];
            proof {
                assert(self@.subrange(0, i as int + 1).drop_last() =~= self@.subrange(0, i as int));
                assert(self@.subrange(0, i as int + 1).last() == self@[i as int]);
                assert(b@ == self@[i as int]);
                assert(self@[i as int].total_update_time_us <= BUCKET_TOTAL_MAX);
            }
            if !(now_us >= WINDOW_SPAN_US && b.start_time_us <= now_us - WINDOW_SPAN_US) {
                count = count + b.update_count as u64;
                total = total + b.total_update_time_us;
            }
            i += 1;
        }
        proof {
            assert(self@.subrange(0, self@.len() as int) =~= self@);
        }
        (count, total)
    }
}

/// The ring state after a whole sequence of recordings, each a pair of a
/// timestamp and a latency, applied in order.
pub open spec fn replay(s: Seq<BucketModel>, events: Seq<(int, int)>) -> Seq<BucketModel>
    decreases events.len(),
{
    if events.len() == 0 {
        s
    } else {
        record_step(replay(s, events.drop_last()), events.last().0, events.last().1)
    }
}

/// The sum of the latencies of a sequence of recordings.
pub open spec fn event_latency_sum(events: Seq<(int, int)>) -> int
    decreases events.len(),
{
    if events.len() == 0 {
        0
    } else {
        event_latency_sum(events.drop_last()) + events.last().1
    }
}

/// The unconditional sum of all bucket counts, expired or not.
spec fn total_count(s: Seq<BucketModel>) -> int
    decreases s.len(),
{
    if s.len() == 0 {
        0
    } else {
        total_count(s.drop_last()) + s.last().update_count
    }
}

/// The unconditional sum of all bucket latency totals, expired or not.
spec fn total_time(s: Seq<BucketModel>) -> int
    decreases s.len(),
{
    if s.len() == 0 {
        0
    } else {
        total_time(s.drop_last()) + s.last().total_update_time_us
    }
}

/// Updating one bucket changes the unconditional sums by exactly the
/// difference between the new and the old bucket.
proof fn lemma_totals_update(s: Seq<BucketModel>, i: int, b: BucketModel)
    requires
        0 <= i < s.len(),
    ensures
        total_count(s.update(i, b)) == total_count(s) + b.update_count - s[i].update_count,
        total_time(s.update(i, b)) == total_time(s) + b.total_update_time_us
            - s[i].total_update_time_us,
    decreases s.len(),
{
    if i == s.len() - 1 {
        assert(s.update(i, b).drop_last() =~= s.drop_last());
    } else {
        assert(s.update(i, b).drop_last() =~= s.drop_last().update(i, b));
        lemma_totals_update(s.drop_last(), i, b);
    }
}

/// A ring whose buckets are all empty sums to zero, live or not.
proof fn lemma_zero_totals(s: Seq<BucketModel>, now_us: int)
    requires
        forall|j: int|
            0 <= j < s.len() ==> (#[trigger] s[j]).update_count == 0 && s[j].total_update_time_us
                == 0,
    ensures
        total_count(s) == 0,
        total_time(s) == 0,
        live_count(s, now_us) == 0,
        live_total(s, now_us) == 0,
    decreases s.len(),
{
    if s.len() > 0 {
        lemma_zero_totals(s.drop_last(), now_us);
    }
}

/// When no bucket of the ring has expired, the live sums are the
/// unconditional sums.
proof fn lemma_live_eq_totals(s: Seq<BucketModel>, now_us: int)
    requires
        forall|j: int| 0 <= j < s.len() ==> !expired(now_us, (#[trigger] s[j]).start_time_us),
    ensures
        live_count(s, now_us) == total_count(s),
        live_total(s, now_us) == total_time(s),
    decreases s.len(),
{
    if s.len() > 0 {
        lemma_live_eq_totals(s.drop_last(), now_us);
    }
}

/// After replaying recordings whose timestamps all fall inside the first
/// window after initialization at `t0`, every bucket still carries period
/// start `t0`, and the buckets together hold exactly one count per
/// recording and the exact sum of the recorded latencies.
proof fn lemma_replay_state(t0: int, events: Seq<(int, int)>)
    requires
        t0 >= 0,
        forall|i: int|
            0 <= i < events.len() ==> t0 <= (#[trigger] events[i]).0 < t0 + WINDOW_SPAN_US,
    ensures
        ({
            let r = replay(init_model(t0), events);
            &&& r.len() == WINDOW_COUNT
            &&& forall|j: int| 0 <= j < r.len() ==> (#[trigger] r[j]).start_time_us == t0
            &&& total_count(r) == events.len()
            &&& total_time(r) == event_latency_sum(events)
        }),
    decreases events.len(),
{
    if events.len() == 0 {
        lemma_zero_totals(init_model(t0), t0);
    } else {
        lemma_replay_state(t0, events.drop_last());
        let r0 = replay(init_model(t0), events.drop_last());
        let now_us = events.last().0;
        let latency_us = events.last().1;
        let idx = bucket_index_of(now_us);
        assert(0 <= idx < WINDOW_COUNT as int) by {
            assert(now_us / MICROS_PER_SECOND as int >= 0);
        };
        assert(!expired(now_us, r0[idx].start_time_us));
        let b = BucketModel {
            start_time_us: r0[idx].start_time_us,
            update_count: r0[idx].update_count + 1,
            total_update_time_us: r0[idx].total_update_time_us + latency_us,
        };
        assert(replay(init_model(t0), events) == r0.update(idx, b));
        lemma_totals_update(r0, idx, b);
    }
}

/// No loss within one window: for any sequence of recordings whose
/// timestamps fall inside the first window after initialization at `t0`,
/// the live totals read at any time inside that same window are exactly
/// the number of recordings and the sum of their latencies.
pub proof fn lemma_no_loss_within_window(t0: int, events: Seq<(int, int)>, now_us: int)
    requires
        t0 >= 0,
        forall|i: int|
            0 <= i < events.len() ==> t0 <= (#[trigger] events[i]).0 < t0 + WINDOW_SPAN_US,
        t0 <= now_us < t0 + WINDOW_SPAN_US,
    ensures
        live_count(replay(init_model(t0), events), now_us) == events.len(),
        live_total(replay(init_model(t0), events), now_us) == event_latency_sum(events),
{
    lemma_replay_state(t0, events);
    lemma_live_eq_totals(replay(init_model(t0), events), now_us);
}

/// Initialization is a reset: whatever happened before, a freshly
/// initialized ring reports zero live samples and zero live latency at
/// every read time.
pub proof fn lemma_initialize_resets(t0: int, now_us: int)
    ensures
        live_count(init_model(t0), now_us) == 0,
        live_total(init_model(t0), now_us) == 0,
{
    lemma_zero_totals(init_model(t0), now_us);
}

/// Rollover: a recording resets (rather than accumulates into) its bucket
/// exactly when it arrives a full window or more after the bucket's
/// period start, accumulates strictly before that, and never touches any
/// other bucket.
pub proof fn lemma_rollover(s: Seq<BucketModel>, now_us: int, latency_us: int)
    requires
        0 <= bucket_index_of(now_us) < s.len(),
    ensures
        ({
            let idx = bucket_index_of(now_us);
            let r = record_step(s, now_us, latency_us);
            &&& now_us >= s[idx].start_time_us + WINDOW_SPAN_US ==> r[idx] == (BucketModel {
                start_time_us: now_us,
                update_count: 1,
                total_update_time_us: latency_us,
            })
            &&& now_us < s[idx].start_time_us + WINDOW_SPAN_US ==> r[idx] == (BucketModel {
                start_time_us: s[idx].start_time_us,
                update_count: s[idx].update_count + 1,
                total_update_time_us: s[idx].total_update_time_us + latency_us,
            })
            &&& forall|j: int| 0 <= j < s.len() && j != idx ==> r[j] == s[j]
        }),
{
}

} // verus!
