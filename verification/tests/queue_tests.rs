use audion::squeeze::queue::{PlayQueue, QueueTrack, RepeatMode};

fn track(id: i64) -> QueueTrack {
    QueueTrack {
        id,
        title: format!("Title {}", id),
        artist: "Artist".to_string(),
        album: "Album".to_string(),
        path: format!("/music/{}.flac", id),
        duration_bits: 180.0f64.to_bits(),
        format: "flac".to_string(),
    }
}

fn tracks(ids: &[i64]) -> Vec<QueueTrack> {
    ids.iter().map(|&i| track(i)).collect()
}

fn order_ids(q: &PlayQueue) -> Vec<i64> {
    q.ordered_tracks().iter().map(|t| t.id).collect()
}

#[test]
fn new_queue_is_empty() {
    let q = PlayQueue::new();
    assert!(q.is_empty());
    assert_eq!(q.len(), 0);
    assert!(q.current().is_none());
    assert!(q.current_position().is_none());
    assert_eq!(q.repeat_setting(), RepeatMode::Off);
    assert!(!q.shuffle_enabled());
}

#[test]
fn set_tracks_clamps_start() {
    let mut q = PlayQueue::new();
    q.set_tracks(tracks(&[1, 2, 3]), 1);
    assert_eq!(q.current().unwrap().id, 2);
    q.set_tracks(tracks(&[1, 2, 3]), 10);
    assert_eq!(q.current_position(), Some(2));
    q.set_tracks(Vec::new(), 0);
    assert!(q.current().is_none());
}

#[test]
fn next_stops_at_end_without_repeat() {
    let mut q = PlayQueue::new();
    q.set_tracks(tracks(&[1, 2]), 0);
    assert_eq!(q.next().map(|t| t.id), Some(2));
    assert!(q.next().is_none());
    assert!(q.current().is_none());
}

#[test]
fn repeat_all_wraps_and_repeat_one_stays() {
    let mut q = PlayQueue::new();
    q.set_tracks(tracks(&[1, 2]), 1);
    q.set_repeat(RepeatMode::All);
    assert_eq!(q.next().map(|t| t.id), Some(1));
    q.set_repeat(RepeatMode::One);
    assert_eq!(q.next().map(|t| t.id), Some(1));
    assert_eq!(q.current_position(), Some(0));
}

#[test]
fn peek_next_predicts_next() {
    for mode in [RepeatMode::Off, RepeatMode::One, RepeatMode::All] {
        let mut q = PlayQueue::new();
        q.set_tracks(tracks(&[1, 2, 3]), 2);
        q.set_repeat(mode);
        let peeked = q.peek_next().map(|t| t.id);
        let moved = q.next().map(|t| t.id);
        assert_eq!(peeked, moved, "mode {:?}", mode);
    }
}

#[test]
fn previous_undoes_next() {
    for mode in [RepeatMode::Off, RepeatMode::All] {
        let mut q = PlayQueue::new();
        q.set_tracks(tracks(&[1, 2, 3]), 0);
        q.set_repeat(mode);
        for _ in 0..2 {
            let before = q.current_position();
            q.next();
            q.previous();
            assert_eq!(q.current_position(), before);
            q.next();
        }
    }
    let mut q = PlayQueue::new();
    q.set_tracks(tracks(&[1, 2, 3]), 2);
    q.set_repeat(RepeatMode::All);
    q.next();
    assert_eq!(q.current_position(), Some(0));
    q.previous();
    assert_eq!(q.current_position(), Some(2));
}

#[test]
fn previous_at_start_stays_unless_repeat_all() {
    let mut q = PlayQueue::new();
    q.set_tracks(tracks(&[1, 2, 3]), 0);
    assert_eq!(q.previous().map(|t| t.id), Some(1));
    q.set_repeat(RepeatMode::All);
    assert_eq!(q.previous().map(|t| t.id), Some(3));
}

#[test]
fn jump_to_ignores_out_of_range() {
    let mut q = PlayQueue::new();
    q.set_tracks(tracks(&[1, 2, 3]), 0);
    q.jump_to(2);
    assert_eq!(q.current().unwrap().id, 3);
    q.jump_to(3);
    assert_eq!(q.current().unwrap().id, 3);
}

#[test]
fn insert_tracks_keeps_current_and_plays_next() {
    let mut q = PlayQueue::new();
    q.set_tracks(tracks(&[1, 2, 3]), 1);
    q.insert_tracks(tracks(&[10, 11]), 1);
    assert_eq!(q.len(), 5);
    assert_eq!(q.current().unwrap().id, 2);
    assert_eq!(order_ids(&q), vec![1, 2, 10, 11, 3]);
    assert_eq!(q.next().unwrap().id, 10);
}

#[test]
fn insert_tracks_into_empty_queue() {
    let mut q = PlayQueue::new();
    q.insert_tracks(tracks(&[5, 6]), 7);
    assert_eq!(q.len(), 2);
    assert!(q.current().is_none());
    assert_eq!(order_ids(&q), vec![5, 6]);
}

#[test]
fn shuffle_keeps_current_and_all_tracks() {
    let mut q = PlayQueue::new();
    q.set_tracks(tracks(&[1, 2, 3, 4, 5, 6, 7, 8]), 4);
    q.set_shuffle(true);
    assert!(q.shuffle_enabled());
    assert_eq!(q.current().unwrap().id, 5);
    assert_eq!(q.current_position(), Some(0));
    let mut ids = order_ids(&q);
    ids.sort();
    assert_eq!(ids, vec![1, 2, 3, 4, 5, 6, 7, 8]);
    q.set_shuffle(false);
    assert_eq!(q.current().unwrap().id, 5);
    assert_eq!(order_ids(&q), vec![1, 2, 3, 4, 5, 6, 7, 8]);
}

#[test]
fn replace_queue_keep_current_finds_track() {
    let mut q = PlayQueue::new();
    q.set_tracks(tracks(&[1, 2, 3]), 0);
    q.replace_queue_keep_current(tracks(&[3, 1, 2]), 2);
    assert_eq!(q.current().unwrap().id, 2);
    assert_eq!(q.current_position(), Some(2));
    q.replace_queue_keep_current(tracks(&[4, 5]), 2);
    assert!(q.current().is_none());
}

#[test]
fn find_and_position_by_id() {
    let mut q = PlayQueue::new();
    q.set_tracks(tracks(&[7, 8, 9]), 0);
    assert_eq!(q.find_track_by_id(8).map(|t| t.title), Some("Title 8".to_string()));
    assert!(q.find_track_by_id(1).is_none());
    assert_eq!(q.position_of_track_id(9), Some(2));
    assert_eq!(q.position_of_track_id(1), None);
}

#[test]
fn duplicate_copies_fields() {
    let t = track(3);
    let d = t.duplicate();
    assert_eq!(d.id, 3);
    assert_eq!(d.path, t.path);
    assert_eq!(f64::from_bits(d.duration_bits), 180.0);
}

#[test]
fn insert_tracks_shifts_later_indices_in_the_order() {
    let mut q = PlayQueue::new();
    q.set_tracks(tracks(&[1, 2, 3, 4]), 2);
    q.insert_tracks(tracks(&[10, 11]), 1);
    assert_eq!(q.len(), 6);
    assert_eq!(q.current().unwrap().id, 3);
    assert_eq!(order_ids(&q), vec![1, 2, 3, 10, 11, 4]);
    assert_eq!(q.current_position(), Some(2));
    assert_eq!(q.next().unwrap().id, 10);
}

#[test]
fn shuffle_keeps_the_same_stored_track_current() {
    let mut q = PlayQueue::new();
    q.set_tracks(vec![track(7), track(7), track(7), track(8)], 2);
    q.set_shuffle(true);
    assert_eq!(q.current_position(), Some(0));
    q.set_shuffle(false);
    assert_eq!(q.current_position(), Some(2));
    assert_eq!(order_ids(&q), vec![7, 7, 7, 8]);
    q.set_shuffle(false);
    assert_eq!(q.current_position(), Some(2));
}
