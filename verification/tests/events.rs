//! Tests of event deduplication and recording playback.

use texkit::events::{
    EventKind, EventProcessor, MouseEvent, PlaybackOptions, Recording, ReplayError, ReplaySystem,
};

fn ev(id: u64, t: u64, kind: EventKind, x: i64, y: i64) -> MouseEvent {
    MouseEvent { id, timestamp_ms: t, kind, x, y }
}

#[test]
fn deduplicate_keeps_first_of_each_key() {
    let p = EventProcessor::new();
    let stream = vec![
        ev(0, 0, EventKind::Move, 10, 10),
        ev(1, 5, EventKind::Move, 10, 10), // duplicate key: dropped
        ev(2, 9, EventKind::Move, 11, 10), // new position: kept
        ev(3, 12, EventKind::Click { button: 0, duration_ms: 30 }, 11, 10),
        ev(4, 40, EventKind::Move, 10, 10), // duplicate of the first: dropped
        ev(5, 44, EventKind::Click { button: 1, duration_ms: 30 }, 11, 10),
    ];
    let out = p.deduplicate(stream);
    let ids: Vec<u64> = out.iter().map(|e| e.id).collect();
    assert_eq!(ids, vec![0, 2, 3, 5]);
}

#[test]
fn deduplicate_of_empty_stream_is_empty() {
    let p = EventProcessor::new();
    assert!(p.deduplicate(Vec::new()).is_empty());
}

#[test]
fn record_stores_streams_and_rejects_empty() {
    let mut rs = ReplaySystem::new();
    assert_eq!(rs.record(Vec::new()), Err(ReplayError::EmptyRecording));
    assert_eq!(rs.recordings.len(), 0);
    rs.record(vec![ev(0, 0, EventKind::Move, 1, 2)]).unwrap();
    rs.record(vec![ev(1, 3, EventKind::Move, 2, 2), ev(2, 9, EventKind::Move, 3, 2)]).unwrap();
    assert_eq!(rs.recordings.len(), 2);
    assert_eq!(rs.recordings[1].events.len(), 2);
}

#[test]
fn play_scales_timestamps_by_speed() {
    let rs = ReplaySystem::new();
    let rec = Recording {
        events: vec![
            ev(0, 0, EventKind::Move, 0, 0),
            ev(1, 100, EventKind::Move, 5, 0),
            ev(2, 250, EventKind::Hover { duration_ms: 40 }, 5, 0),
        ],
    };
    // Double speed halves every timestamp.
    let fast = rs.play(&rec, PlaybackOptions { speed_percent: 200 });
    let times: Vec<u64> = fast.iter().map(|f| f.at_ms).collect();
    assert_eq!(times, vec![0, 50, 125]);
    // Half speed doubles them.
    let slow = rs.play(&rec, PlaybackOptions { speed_percent: 50 });
    let times: Vec<u64> = slow.iter().map(|f| f.at_ms).collect();
    assert_eq!(times, vec![0, 200, 500]);
    // Events ride along unchanged.
    assert_eq!(fast[2].event, rec.events[2]);
}

#[test]
fn play_saturates_instead_of_overflowing() {
    let rs = ReplaySystem::new();
    let rec = Recording { events: vec![ev(0, u64::MAX, EventKind::Move, 0, 0)] };
    let frames = rs.play(&rec, PlaybackOptions { speed_percent: 50 });
    assert_eq!(frames[0].at_ms, u64::MAX);
}
