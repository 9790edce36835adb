//! Progress accounting for a streaming download: a rolling-window tracker
//! that emits at most one throughput sample per fixed wall-clock interval.

use vstd::prelude::*;

verus! {

/// How many milliseconds must pass between two emitted progress samples.
pub const SAMPLE_INTERVAL_MILLIS: u64 = 250;

/// A progress report observable by the launcher's event loop.
///
/// `Progress` carries the bytes downloaded so far and the total expected, so
/// the fraction is `downloaded / total`, together with the instantaneous rate
/// over the rolling window. `Idle` is the state before and between downloads;
/// it is never emitted by the tracker.
#[derive(Debug, Clone, Copy, PartialEq, Eq, Structural)]
pub enum ProgressEvent {
    Progress { downloaded: u64, total: u64, bytes_per_sec: u64 },
    Finished,
    Idle,
}

/// Whether an event is a progress sample.
pub open spec fn is_sample(e: ProgressEvent) -> bool {
    e is Progress
}

/// The bytes a progress sample reports as downloaded.
pub open spec fn sample_downloaded(e: ProgressEvent) -> u64 {
    match e {
        ProgressEvent::Progress { downloaded, .. } => downloaded,
        _ => 0,
    }
}

/// The total a progress sample reports.
pub open spec fn sample_total(e: ProgressEvent) -> u64 {
    match e {
        ProgressEvent::Progress { total, .. } => total,
        _ => 0,
    }
}

/// The instantaneous rate reported over a window: bytes scaled to one second,
/// saturated at the integer limit. The window is never shorter than the
/// sample interval, so the divisor is positive.
pub open spec fn window_rate(bytes: u64, millis: int) -> u64
    recommends
        millis > 0,
{
    if bytes * 1000 / millis > u64::MAX {
        u64::MAX
    } else {
        (bytes * 1000 / millis) as u64
    }
}

/// Accounting for one download in flight: the total expected length when the
/// response declared one, the bytes downloaded so far, and the rolling
/// window (bytes since the last emitted sample, and when that was).
#[derive(Debug, Clone, Copy, PartialEq, Eq, Structural)]
pub struct ProgressTracker {
    pub total: Option<u64>,
    pub downloaded: u64,
    pub since_last: u64,
    pub last_tick: u64,
}

/// What one chunk arrival does to a tracker: both byte counters grow by the
/// chunk length (saturating at the integer limit); once the sample interval
/// has elapsed, a sample is emitted if the total is known — silence
/// otherwise — and the rolling window restarts either way. A clock that
/// stands still or runs backwards counts as no time elapsed.
pub open spec fn tracker_step(t: ProgressTracker, len: u64, now: u64) -> (
    ProgressTracker,
    Option<ProgressEvent>,
) {
    let d = t.downloaded.saturating_add(len);
    let w = t.since_last.saturating_add(len);
    let elapsed: int = if now >= t.last_tick {
        now - t.last_tick
    } else {
        0
    };
    if elapsed >= SAMPLE_INTERVAL_MILLIS {
        let ev = match t.total {
            Some(total) => Some(
                ProgressEvent::Progress {
                    downloaded: d,
                    total,
                    bytes_per_sec: window_rate(w, elapsed),
                },
            ),
            None => None,
        };
        (ProgressTracker { total: t.total, downloaded: d, since_last: 0, last_tick: now }, ev)
    } else {
        (
            ProgressTracker { total: t.total, downloaded: d, since_last: w, last_tick: t.last_tick },
            None,
        )
    }
}

impl ProgressTracker {
    /// A fresh tracker for a response of the given total length, started now.
    pub fn new(total: Option<u64>, now: u64) -> (r: Self)
        ensures
            r == (ProgressTracker { total, downloaded: 0, since_last: 0, last_tick: now }),
    {
        ProgressTracker { total, downloaded: 0, since_last: 0, last_tick: now }
    }

    /// Accounts one received chunk, emitting a progress sample exactly when
    /// [`tracker_step`] says one is due.
    pub fn on_chunk(&mut self, len: u64, now: u64) -> (r: Option<ProgressEvent>)
        ensures
            *final(self) == tracker_step(*old(self), len, now).0,
            r == tracker_step(*old(self), len, now).1,
    {
        self.downloaded = self.downloaded.saturating_add(len);
        let w = self.since_last.saturating_add(len);
        let elapsed: u64 = if now >= self.last_tick {
            now - self.last_tick
        } else {
            0
        };
        if elapsed >= SAMPLE_INTERVAL_MILLIS {
            self.since_last = 0;
            self.last_tick = now;
            match self.total {
                Some(total) => {
                    let scaled: u128 = (w as u128) * 1000 / (elapsed as u128);
                    let rate: u64 = if scaled > u64::MAX as u128 {
                        u64::MAX
                    } else {
                        scaled as u64
                    };
                    Some(ProgressEvent::Progress { downloaded: self.downloaded, total, bytes_per_sec: rate })
                },
                None => None,
            }
        } else {
            self.since_last = w;
            None
        }
    }
}

/// The sum of the chunk lengths in a simulated stream of `(length, arrival
/// time)` pairs.
pub open spec fn chunks_total(chunks: Seq<(u64, u64)>) -> int
    decreases chunks.len(),
{
    if chunks.len() == 0 {
        0
    } else {
        chunks[0].0 + chunks_total(chunks.drop_first())
    }
}

/// A whole run of chunk arrivals: the tracker afterwards, and every emitted
/// sample in order.
pub open spec fn tracker_run(t: ProgressTracker, chunks: Seq<(u64, u64)>) -> (
    ProgressTracker,
    Seq<ProgressEvent>,
)
    decreases chunks.len(),
{
    if chunks.len() == 0 {
        (t, seq![])
    } else {
        let stepped = tracker_step(t, chunks[0].0, chunks[0].1);
        let rest = tracker_run(stepped.0, chunks.drop_first());
        (
            rest.0,
            match stepped.1 {
                Some(e) => seq![e] + rest.1,
                None => rest.1,
            },
        )
    }
}

/// A stream's length is never negative.
proof fn lemma_chunks_total_nonneg(chunks: Seq<(u64, u64)>)
    ensures
        chunks_total(chunks) >= 0,
    decreases chunks.len(),
{
    if chunks.len() > 0 {
        lemma_chunks_total_nonneg(chunks.drop_first());
    }
}

/// Progress monotonicity: over any chunked stream whose length stays within
/// the known total, every emitted event is a progress sample against that
/// total, the samples' fractions never decrease, and no sample's fraction
/// exceeds one.
pub proof fn lemma_progress_monotone(t: ProgressTracker, chunks: Seq<(u64, u64)>)
    requires
        t.total is Some,
        t.downloaded + chunks_total(chunks) <= t.total->Some_0,
    ensures
        ({
            let outcome = tracker_run(t, chunks);
            let evs = outcome.1;
            &&& outcome.0.total == t.total
            &&& outcome.0.downloaded == t.downloaded + chunks_total(chunks)
            &&& forall|i: int|
                0 <= i < evs.len() ==> is_sample(#[trigger] evs[i]) && sample_total(evs[i])
                    == t.total->Some_0 && t.downloaded <= sample_downloaded(evs[i])
                    <= t.total->Some_0
            &&& forall|i: int, j: int|
                0 <= i <= j < evs.len() ==> sample_downloaded(evs[i]) <= sample_downloaded(evs[j])
        }),
    decreases chunks.len(),
{
    if chunks.len() > 0 {
        let len = chunks[0].0;
        let now = chunks[0].1;
        let stepped = tracker_step(t, len, now);
        let t1 = stepped.0;
        assert(chunks_total(chunks) == len + chunks_total(chunks.drop_first()));
        lemma_chunks_total_nonneg(chunks.drop_first());
        assert(t1.downloaded == t.downloaded + len);
        lemma_progress_monotone(t1, chunks.drop_first());
        let rest = tracker_run(t1, chunks.drop_first());
        match stepped.1 {
            Some(e) => {
                let evs = tracker_run(t, chunks).1;
                assert(evs =~= seq![e] + rest.1);
                assert(is_sample(e) && sample_downloaded(e) == t1.downloaded);
                assert forall|i: int|
                    0 <= i < evs.len() implies is_sample(#[trigger] evs[i]) && sample_total(
                    evs[i],
                ) == t.total->Some_0 && t.downloaded <= sample_downloaded(evs[i])
                    <= t.total->Some_0 by {
                    if i > 0 {
                        assert(evs[i] == rest.1[i - 1]);
                    }
                }
                assert forall|i: int, j: int|
                    0 <= i <= j < evs.len() implies sample_downloaded(evs[i]) <= sample_downloaded(
                    evs[j],
                ) by {
                    if i > 0 {
                        assert(evs[i] == rest.1[i - 1]);
                        assert(evs[j] == rest.1[j - 1]);
                    } else if j > 0 {
                        assert(evs[j] == rest.1[j - 1]);
                    }
                }
            },
            None => {
            },
        }
    }
}

} // verus!
