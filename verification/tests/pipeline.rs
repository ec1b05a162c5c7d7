use albumscan::codecs::AudioCodec;
use albumscan::lookup::{
    no_results_status, outcome_message, searching_message, sum_track_counts, SearchMessage,
};
use albumscan::models::{AlbumCluster, CandidateMatch};
use albumscan::queue::{BoundedQueue, CLUSTER_QUEUE_CAPACITY};
use albumscan::throttle::{Throttle, RATE_LIMIT_MS};

fn cluster(artist: &str, album: &str) -> AlbumCluster {
    AlbumCluster {
        album: album.to_string(),
        album_artist: artist.to_string(),
        tracks: Vec::new(),
        base_path: "/m/a".to_string(),
        total_discs: 1,
    }
}

fn candidate(title: &str) -> CandidateMatch {
    CandidateMatch {
        title: title.to_string(),
        artist: Some("X".to_string()),
        date: None,
        country: None,
        track_count: 10,
    }
}

#[test]
fn bounded_queue_refuses_when_full() {
    let mut q = BoundedQueue::new(CLUSTER_QUEUE_CAPACITY);
    assert_eq!(q.capacity(), 5);
    for i in 0..5 {
        assert_eq!(q.len(), i);
        assert!(q.try_send(cluster("A", "P")).is_ok());
    }
    assert_eq!(q.len(), 5);
    // The sixth cluster is refused and handed back: the walker holds it,
    // so at most capacity + 1 clusters are in flight.
    let refused = q.try_send(cluster("A", "Q"));
    assert!(refused.is_err());
    assert_eq!(refused.unwrap_err().album, "Q");
    assert_eq!(q.len(), 5);
    // Draining one makes room again.
    let popped = q.pop_front();
    assert!(popped.is_some());
    assert_eq!(q.len(), 4);
    assert!(q.try_send(cluster("A", "Q")).is_ok());
    assert_eq!(q.len(), 5);
}

#[test]
fn bounded_queue_is_first_in_first_out() {
    let mut q = BoundedQueue::new(3);
    q.try_send(cluster("A", "P")).unwrap();
    q.try_send(cluster("A", "Q")).unwrap();
    q.try_send(cluster("A", "R")).unwrap();
    assert_eq!(q.pop_front().unwrap().album, "P");
    assert_eq!(q.pop_front().unwrap().album, "Q");
    assert_eq!(q.pop_front().unwrap().album, "R");
    assert!(q.pop_front().is_none());
}

#[test]
fn throttle_spaces_consecutive_issues() {
    let mut t = Throttle::new(RATE_LIMIT_MS);
    // First request goes out at once.
    let w0 = t.throttle(500);
    assert_eq!(w0, 0);
    assert_eq!(t.last_request, Some(500));
    // 300 ms later, only 300 of the 1000 ms interval have passed.
    let w1 = t.throttle(800);
    assert_eq!(w1, 700);
    assert_eq!(t.last_request, Some(1500));
    // Consecutive issue times are at least one interval apart.
    assert!(1500 - 500 >= RATE_LIMIT_MS);
    // Long after the interval, no wait is needed.
    let w2 = t.throttle(4000);
    assert_eq!(w2, 0);
    assert_eq!(t.last_request, Some(4000));
    assert!(4000 - 1500 >= RATE_LIMIT_MS);
}

#[test]
fn throttle_default_uses_rate_limit() {
    let t = Throttle::default();
    assert_eq!(t.last_request, None);
    assert_eq!(t.interval_ms, 1000);
}

#[test]
fn searching_message_announces_cluster() {
    let m = searching_message(cluster("X", "Y"));
    match m {
        SearchMessage::Searching(c, status) => {
            assert_eq!(c.album, "Y");
            assert_eq!(status, "Searching for X - Y...");
        },
        _ => panic!("expected a searching message"),
    }
}

#[test]
fn outcome_with_candidates_is_results() {
    let m = outcome_message(cluster("X", "Y"), Ok(vec![candidate("Y")]));
    match m {
        SearchMessage::Results(c, r) => {
            assert_eq!(c.album, "Y");
            assert_eq!(r.len(), 1);
            assert_eq!(r[0].title, "Y");
        },
        _ => panic!("expected results"),
    }
}

#[test]
fn outcome_with_empty_list_is_no_results() {
    let m = outcome_message(cluster("X", "Y"), Ok(Vec::new()));
    assert!(matches!(m, SearchMessage::NoResults(_)));
}

#[test]
fn outcome_with_failure_is_error() {
    let m = outcome_message(cluster("X", "Y"), Err("boom".to_string()));
    match m {
        SearchMessage::Error(_, t) => assert_eq!(t, "Search failed: boom"),
        _ => panic!("expected an error message"),
    }
}

#[test]
fn no_results_status_names_cluster() {
    assert_eq!(no_results_status(&cluster("X", "Y")), "No results for X - Y");
}

#[test]
fn track_counts_sum_and_saturate() {
    assert_eq!(sum_track_counts(&vec![]), 0);
    assert_eq!(sum_track_counts(&vec![10, 12, 9]), 31);
    assert_eq!(sum_track_counts(&vec![u32::MAX, 1]), u32::MAX);
    assert_eq!(sum_track_counts(&vec![u32::MAX - 1, 1]), u32::MAX);
}

#[test]
fn codec_names_are_fixed() {
    assert_eq!(albumscan::codecs::codec_name(AudioCodec::Flac), "FLAC");
    assert_eq!(albumscan::codecs::codec_name(AudioCodec::Mp3), "MP3");
    assert_eq!(albumscan::codecs::codec_name(AudioCodec::Mp4), "M4A");
}
