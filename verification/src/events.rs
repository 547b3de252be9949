//! Input-event bookkeeping for the demo front end.
//!
//! Events are modelled over plain integers — millisecond timestamps and
//! pixel coordinates — so the processing rules here are exact: deduplication
//! keeps the first event of each (kind, position) key, and replay scales
//! timestamps by an integral percentage.

use vstd::prelude::*;

verus! {

/// What happened, with its integer-valued details.
#[derive(Clone, Copy, Debug, PartialEq, Eq, Structural)]
pub enum EventKind {
    /// The pointer moved.
    Move,
    /// A button was pressed for a duration.
    Click { button: u8, duration_ms: u64 },
    /// The wheel scrolled by a signed number of steps.
    Scroll { delta: i64 },
    /// The pointer rested for a duration.
    Hover { duration_ms: u64 },
    /// The pointer was dragged between two points.
    Drag { from_x: i64, from_y: i64, to_x: i64, to_y: i64 },
}

/// One captured input event.
#[derive(Clone, Copy, Debug, PartialEq, Eq, Structural)]
pub struct MouseEvent {
    /// Capture sequence number.
    pub id: u64,
    /// Milliseconds since the capture started.
    pub timestamp_ms: u64,
    /// What happened.
    pub kind: EventKind,
    /// Pointer x position in pixels.
    pub x: i64,
    /// Pointer y position in pixels.
    pub y: i64,
}

/// The deduplication key of an event: everything but its id and time.
pub open spec fn spec_event_key(e: MouseEvent) -> (EventKind, i64, i64) {
    (e.kind, e.x, e.y)
}

/// Whether some event of `s` has key `k`.
pub open spec fn spec_key_seen(s: Seq<MouseEvent>, k: (EventKind, i64, i64)) -> bool {
    exists|i: int| 0 <= i < s.len() && spec_event_key(s[i]) == k
}

/// `s` with every event dropped whose key appeared earlier in `s`: the first
/// event of each key survives, in order.
pub open spec fn spec_dedup(s: Seq<MouseEvent>) -> Seq<MouseEvent>
    decreases s.len(),
{
    if s.len() == 0 {
        Seq::empty()
    } else {
        let pre = spec_dedup(s.drop_last());
        if spec_key_seen(s.drop_last(), spec_event_key(s.last())) {
            pre
        } else {
            pre.push(s.last())
        }
    }
}

/// The deduplicated sequence holds exactly the keys of the source.
pub proof fn lemma_dedup_same_keys(s: Seq<MouseEvent>)
    ensures
        forall|k: (EventKind, i64, i64)|
            #[trigger] spec_key_seen(spec_dedup(s), k) <==> spec_key_seen(s, k),
    decreases s.len(),
{
    if s.len() > 0 {
        let pre = s.drop_last();
        let last = s.last();
        let kl = spec_event_key(last);
        lemma_dedup_same_keys(pre);
        let d = spec_dedup(s);
        let dp = spec_dedup(pre);
        assert forall|k: (EventKind, i64, i64)|
            spec_key_seen(d, k) implies #[trigger] spec_key_seen(s, k) by {
            let i = choose|i: int| 0 <= i < d.len() && spec_event_key(d[i]) == k;
            if i < dp.len() {
                assert(d[i] == dp[i]);
                assert(spec_key_seen(dp, k));
                assert(spec_key_seen(pre, k));
                let j = choose|j: int| 0 <= j < pre.len() && spec_event_key(pre[j]) == k;
                assert(spec_event_key(s[j]) == k);
            } else {
                assert(d[i] == last);
                assert(spec_event_key(s[s.len() - 1]) == k);
            }
        }
        assert forall|k: (EventKind, i64, i64)|
            spec_key_seen(s, k) implies #[trigger] spec_key_seen(d, k) by {
            let i = choose|i: int| 0 <= i < s.len() && spec_event_key(s[i]) == k;
            if i < s.len() - 1 || spec_key_seen(pre, k) {
                if i < s.len() - 1 {
                    assert(spec_event_key(pre[i]) == k);
                    assert(spec_key_seen(pre, k));
                }
                assert(spec_key_seen(dp, k));
                let j = choose|j: int| 0 <= j < dp.len() && spec_event_key(dp[j]) == k;
                assert(d[j] == dp[j]);
                assert(spec_event_key(d[j]) == k);
            } else {
                assert(k == kl);
                assert(!spec_key_seen(pre, kl));
                assert(d == dp.push(last));
                assert(spec_event_key(d[d.len() - 1]) == k);
            }
        }
    }
}

/// Filters and reshapes captured event streams.
pub struct EventProcessor {}

impl EventProcessor {
    /// A processor with default settings.
    pub fn new() -> (r: Self) {
        EventProcessor {}
    }

    /// Drops every event whose (kind, position) key appeared earlier in the
    /// stream, keeping the first occurrence of each key in order.
    pub fn deduplicate(&self, events: Vec<MouseEvent>) -> (r: Vec<MouseEvent>)
        ensures
            r@ == spec_dedup(events@),
    {
        let n: usize = events.len();
        let mut out: Vec<MouseEvent> = Vec::new();
        let mut i: usize = 0;
        while i < n
            invariant
                0 <= i <= n,
                n == events@.len(),
                out@ == spec_dedup(events@.take(i as int)),
            decreases n - i,
        {
            let e = events[i];
            let m: usize = out.len();
            let mut seen = false;
            let mut j: usize = 0;
            while j < m
                invariant
                    0 <= j <= m,
                    m == out@.len(),
                    seen <==> exists|l: int|
                        0 <= l < j && spec_event_key(out@[l]) == spec_event_key(e),
                decreases m - j,
            {
                let o = out[j];
                if o.kind == e.kind && o.x == e.x && o.y == e.y {
                    proof {
                        assert(spec_event_key(out@[j as int]) == spec_event_key(e));
                    }
                    seen = true;
                }
                j = j + 1;
            }
            proof {
                assert(seen == spec_key_seen(out@, spec_event_key(e)));
                lemma_dedup_same_keys(events@.take(i as int));
                let taken = events@.take((i + 1) as int);
                assert(taken.drop_last() =~= events@.take(i as int));
                assert(taken.last() == e);
                if !spec_key_seen(events@.take(i as int), spec_event_key(e)) {
                    assert(spec_dedup(taken) == spec_dedup(events@.take(i as int)).push(e));
                }
            }
            if !seen {
                out.push(e);
            }
            i = i + 1;
        }
        proof {
            assert(events@.take(n as int) =~= events@);
        }
        out
    }
}

/// A stored sequence of captured events.
#[derive(Clone, Debug)]
pub struct Recording {
    /// The captured events in capture order.
    pub events: Vec<MouseEvent>,
}

/// How a recording is played back.
#[derive(Clone, Copy, Debug, PartialEq, Eq, Structural)]
pub struct PlaybackOptions {
    /// Playback speed as a percentage of real time: 100 plays at capture
    /// speed, 200 twice as fast, 50 at half speed.
    pub speed_percent: u32,
}

/// One event scheduled for playback.
#[derive(Clone, Copy, Debug, PartialEq, Eq, Structural)]
pub struct PlaybackFrame {
    /// When to replay the event, in milliseconds from playback start.
    pub at_ms: u64,
    /// The event to replay.
    pub event: MouseEvent,
}

/// Why a recording was rejected.
#[derive(Clone, Copy, Debug, PartialEq, Eq, Structural)]
pub enum ReplayError {
    /// A recording must hold at least one event.
    EmptyRecording,
}

/// When an event captured at `t` milliseconds is replayed at
/// `speed_percent` percent of real time, saturating at `u64::MAX`.
pub open spec fn spec_playback_time(t: u64, speed_percent: u32) -> u64
    recommends
        speed_percent > 0,
{
    let scaled = (t * 100) / (speed_percent as int);
    if scaled > u64::MAX {
        u64::MAX
    } else {
        scaled as u64
    }
}

/// Records event streams and schedules them for playback.
pub struct ReplaySystem {
    /// The recordings saved so far, oldest first.
    pub recordings: Vec<Recording>,
}

impl ReplaySystem {
    /// A replay system with no recordings.
    pub fn new() -> (r: Self)
        ensures
            r.recordings@.len() == 0,
    {
        ReplaySystem { recordings: Vec::new() }
    }

    /// Saves one captured event stream as a new recording.
    ///
    /// An empty stream is rejected and the system is left unchanged.
    pub fn record(&mut self, events: Vec<MouseEvent>) -> (r: Result<(), ReplayError>)
        ensures
            events@.len() == 0 ==> r == Err::<(), _>(ReplayError::EmptyRecording)
                && final(self).recordings@ == old(self).recordings@,
            events@.len() > 0 ==> r is Ok && final(self).recordings@ == old(
                self,
            ).recordings@.push(Recording { events }),
    {
        if events.len() == 0 {
            return Err(ReplayError::EmptyRecording);
        }
        self.recordings.push(Recording { events });
        Ok(())
    }

    /// Schedules a recording's events for playback at the chosen speed:
    /// every frame keeps its event and plays it at the capture timestamp
    /// scaled by 100 / speed, saturating at `u64::MAX` milliseconds.
    pub fn play(&self, recording: &Recording, options: PlaybackOptions) -> (r: Vec<PlaybackFrame>)
        requires
            options.speed_percent > 0,
        ensures
            r@.len() == recording.events@.len(),
            forall|i: int|
                0 <= i < r@.len() ==> #[trigger] r@[i] == (PlaybackFrame {
                    at_ms: spec_playback_time(
                        recording.events@[i].timestamp_ms,
                        options.speed_percent,
                    ),
                    event: recording.events@[i],
                }),
    {
        let n: usize = recording.events.len();
        let mut out: Vec<PlaybackFrame> = Vec::new();
        let mut i: usize = 0;
        while i < n
            invariant
                0 <= i <= n,
                n == recording.events@.len(),
                options.speed_percent > 0,
                out@.len() == i,
                forall|l: int|
                    0 <= l < i ==> #[trigger] out@[l] == (PlaybackFrame {
                        at_ms: spec_playback_time(
                            recording.events@[l].timestamp_ms,
                            options.speed_percent,
                        ),
                        event: recording.events@[l],
                    }),
            decreases n - i,
        {
            let e = recording.events[i];
            let scaled: u128 = (e.timestamp_ms as u128) * 100 / (options.speed_percent as u128);
            let at_ms: u64 = if scaled > u64::MAX as u128 {
                u64::MAX
            } else {
                scaled as u64
            };
            out.push(PlaybackFrame { at_ms, event: e });
            i = i + 1;
        }
        out
    }
}

} // verus!
