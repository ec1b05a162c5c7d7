use albumscan::app::{App, AppState, InputEvent, ScanProgress};
use albumscan::codecs::AudioCodec;
use albumscan::lookup::SearchMessage;
use albumscan::models::{AlbumCluster, AudioFile, CandidateMatch};

fn file(path: &str, album: &str, track: u32) -> AudioFile {
    AudioFile {
        path: path.to_string(),
        codec: AudioCodec::Mp3,
        title: None,
        artist: Some("X".to_string()),
        album_artist: Some("X".to_string()),
        album: Some(album.to_string()),
        track_number: Some(track),
        total_tracks: None,
        disc_number: None,
        total_discs: None,
        genre: None,
        duration: None,
    }
}

fn cluster(album: &str) -> AlbumCluster {
    AlbumCluster {
        album: album.to_string(),
        album_artist: "X".to_string(),
        tracks: Vec::new(),
        base_path: "/m/a".to_string(),
        total_discs: 1,
    }
}

fn candidate(title: &str) -> CandidateMatch {
    CandidateMatch {
        title: title.to_string(),
        artist: Some("X".to_string()),
        date: Some("2001".to_string()),
        country: Some("GB".to_string()),
        track_count: 9,
    }
}

fn results(album: &str, titles: &[&str]) -> SearchMessage {
    SearchMessage::Results(cluster(album), titles.iter().map(|t| candidate(t)).collect())
}

#[test]
fn new_app_is_scanning() {
    let app = App::new("/music".to_string());
    assert!(!app.should_quit);
    match &app.state {
        AppState::Scanning { path, files_found, current_file, is_complete } => {
            assert_eq!(path, "/music");
            assert!(files_found.is_empty());
            assert!(current_file.is_none());
            assert!(!is_complete);
        },
        _ => panic!("a fresh orchestrator must be scanning"),
    }
}

#[test]
fn progress_updates_status_line() {
    let mut app = App::new("/music".to_string());
    app.on_scan_progress(ScanProgress {
        current_dir: "/music/a".to_string(),
        clusters_found: 3,
    });
    match &app.state {
        AppState::Scanning { current_file, .. } => {
            assert_eq!(
                current_file.as_deref(),
                Some("Scanning: /music/a (3 clusters found)")
            );
        },
        _ => panic!("progress must keep the scanning state"),
    }
}

#[test]
fn complete_scan_records_files() {
    let mut app = App::new("/music".to_string());
    app.complete_scan(vec![file("/music/a/1.mp3", "P", 1)]);
    match &app.state {
        AppState::Scanning { files_found, current_file, is_complete, .. } => {
            assert_eq!(files_found.len(), 1);
            assert!(current_file.is_none());
            assert!(is_complete);
        },
        _ => panic!("completion must keep the scanning state"),
    }
}

#[test]
fn walk_error_is_terminal() {
    let mut app = App::new("/music".to_string());
    app.set_error("cannot read directory".to_string());
    assert!(matches!(app.state, AppState::Error { .. }));
    // Pipeline events are ignored in the error state.
    app.handle_search_message(results("P", &["one"]));
    assert!(matches!(app.state, AppState::Error { .. }));
    assert_eq!(app.pending_count(), 0);
    // Navigation is a no-op; quitting still works.
    app.handle_input(InputEvent::Down);
    assert!(matches!(app.state, AppState::Error { .. }));
    app.handle_input(InputEvent::Quit);
    assert!(app.should_quit);
}

#[test]
fn no_results_never_enters_review() {
    // A lookup with zero candidates must not present the cluster; a status
    // line is shown and the pipeline goes on.
    let mut app = App::new("/music".to_string());
    app.handle_search_message(SearchMessage::NoResults(cluster("Y")));
    match &app.state {
        AppState::Scanning { current_file, .. } => {
            assert_eq!(current_file.as_deref(), Some("No results for X - Y"));
        },
        _ => panic!("no-results must not leave the scanning state"),
    }
    assert_eq!(app.pending_count(), 0);
}

#[test]
fn results_present_review_at_once() {
    let mut app = App::new("/music".to_string());
    app.handle_search_message(results("P", &["one", "two"]));
    match &app.state {
        AppState::AutoTagging { cluster, results, selected_idx } => {
            assert_eq!(cluster.album, "P");
            assert_eq!(results.len(), 2);
            assert_eq!(*selected_idx, 0);
        },
        _ => panic!("a result while scanning must present the review"),
    }
    assert_eq!(app.pending_count(), 0);
}

#[test]
fn queued_results_present_in_fifo_order() {
    // Two lookups complete while an earlier review is on screen: both queue
    // in order; dismissing presents the earlier-queued one first.
    let mut app = App::new("/music".to_string());
    app.handle_search_message(results("P", &["one"]));
    app.handle_search_message(results("Q", &["two"]));
    app.handle_search_message(results("R", &["three"]));
    assert_eq!(app.pending_count(), 2);
    match &app.state {
        AppState::AutoTagging { cluster, .. } => assert_eq!(cluster.album, "P"),
        _ => panic!("the first result must be under review"),
    }
    app.handle_input(InputEvent::Skip);
    match &app.state {
        AppState::AutoTagging { cluster, .. } => assert_eq!(cluster.album, "Q"),
        _ => panic!("the earlier-queued result must come next"),
    }
    app.handle_input(InputEvent::Apply);
    match &app.state {
        AppState::AutoTagging { cluster, .. } => assert_eq!(cluster.album, "R"),
        _ => panic!("the remaining result must come last"),
    }
    app.handle_input(InputEvent::ManualSearch);
    // Nothing pending: the scan display returns.
    assert!(matches!(app.state, AppState::Scanning { .. }));
    assert_eq!(app.pending_count(), 0);
}

#[test]
fn review_navigation_is_clamped() {
    let mut app = App::new("/music".to_string());
    app.handle_search_message(results("P", &["one", "two"]));
    app.handle_input(InputEvent::Up);
    match &app.state {
        AppState::AutoTagging { selected_idx, .. } => assert_eq!(*selected_idx, 0),
        _ => panic!("expected a review"),
    }
    app.handle_input(InputEvent::Down);
    app.handle_input(InputEvent::Down);
    app.handle_input(InputEvent::Down);
    match &app.state {
        AppState::AutoTagging { selected_idx, .. } => assert_eq!(*selected_idx, 1),
        _ => panic!("expected a review"),
    }
}

#[test]
fn confirm_after_scan_builds_cluster_list() {
    let mut app = App::new("/music".to_string());
    // Confirm during an unfinished scan does nothing.
    app.handle_input(InputEvent::Confirm);
    assert!(matches!(app.state, AppState::Scanning { .. }));
    app.complete_scan(vec![
        file("/music/a/1.mp3", "P", 1),
        file("/music/a/2.mp3", "P", 2),
        file("/music/b/1.mp3", "Q", 1),
    ]);
    let req = app.handle_input(InputEvent::Confirm);
    assert_eq!(req, None);
    match &app.state {
        AppState::ClusterList { clusters, selected_idx } => {
            assert_eq!(clusters.len(), 2);
            assert_eq!(*selected_idx, 0);
        },
        _ => panic!("confirm after a finished scan must show the clusters"),
    }
    // Navigation over the cluster list, clamped at both ends.
    app.handle_input(InputEvent::Down);
    app.handle_input(InputEvent::Down);
    match &app.state {
        AppState::ClusterList { selected_idx, .. } => assert_eq!(*selected_idx, 1),
        _ => panic!("expected the cluster list"),
    }
    app.handle_input(InputEvent::Up);
    app.handle_input(InputEvent::Up);
    match &app.state {
        AppState::ClusterList { selected_idx, .. } => assert_eq!(*selected_idx, 0),
        _ => panic!("expected the cluster list"),
    }
    // Confirm in the list asks for a lookup of the selected cluster.
    app.handle_input(InputEvent::Down);
    let req = app.handle_input(InputEvent::Confirm);
    assert_eq!(req, Some(1));
}

#[test]
fn confirm_on_empty_cluster_list_requests_nothing() {
    let mut app = App::new("/music".to_string());
    app.complete_scan(Vec::new());
    app.handle_input(InputEvent::Confirm);
    assert!(matches!(app.state, AppState::ClusterList { .. }));
    let req = app.handle_input(InputEvent::Confirm);
    assert_eq!(req, None);
}

#[test]
fn searching_status_shows_while_scanning() {
    let mut app = App::new("/music".to_string());
    app.handle_search_message(SearchMessage::Searching(
        cluster("Y"),
        "Searching for X - Y...".to_string(),
    ));
    match &app.state {
        AppState::Scanning { current_file, .. } => {
            assert_eq!(current_file.as_deref(), Some("Searching for X - Y..."));
        },
        _ => panic!("searching must keep the scanning state"),
    }
    app.handle_search_message(SearchMessage::Error(cluster("Y"), "Search failed: x".to_string()));
    match &app.state {
        AppState::Scanning { current_file, .. } => {
            assert_eq!(current_file.as_deref(), Some("Search failed: x"));
        },
        _ => panic!("a lookup failure must keep the scanning state"),
    }
}

#[test]
fn dismissing_review_resumes_scan_display() {
    let mut app = App::new("/music".to_string());
    app.on_scan_progress(ScanProgress {
        current_dir: "/music/a".to_string(),
        clusters_found: 1,
    });
    app.handle_search_message(results("P", &["one"]));
    assert!(matches!(app.state, AppState::AutoTagging { .. }));
    app.handle_input(InputEvent::Skip);
    match &app.state {
        AppState::Scanning { path, current_file, .. } => {
            assert_eq!(path, "/music");
            assert_eq!(
                current_file.as_deref(),
                Some("Scanning: /music/a (1 clusters found)")
            );
        },
        _ => panic!("dismissal with nothing pending must resume the scan display"),
    }
}
