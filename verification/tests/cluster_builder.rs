use albumscan::cluster::{cluster_files, ClusterKey};
use albumscan::codecs::AudioCodec;
use albumscan::models::{AlbumCluster, AudioFile};

fn file(
    path: &str,
    artist: Option<&str>,
    album: Option<&str>,
    track: Option<u32>,
    disc: Option<u32>,
) -> AudioFile {
    AudioFile {
        path: path.to_string(),
        codec: AudioCodec::Mp3,
        title: None,
        artist: artist.map(|s| s.to_string()),
        album_artist: artist.map(|s| s.to_string()),
        album: album.map(|s| s.to_string()),
        track_number: track,
        total_tracks: None,
        disc_number: disc,
        total_discs: None,
        genre: None,
        duration: None,
    }
}

fn flatten(clusters: &[AlbumCluster]) -> Vec<AudioFile> {
    let mut out = Vec::new();
    for c in clusters {
        for t in &c.tracks {
            out.push(t.clone());
        }
    }
    out
}

#[test]
fn scenario_one_album_sorted() {
    // Three files sharing artist and album, no disc tags, tracks 2, 1, 3:
    // one cluster, tracks ordered 1, 2, 3.
    let files = vec![
        file("/music/a/two.mp3", Some("X"), Some("Y"), Some(2), None),
        file("/music/a/one.mp3", Some("X"), Some("Y"), Some(1), None),
        file("/music/a/three.mp3", Some("X"), Some("Y"), Some(3), None),
    ];
    let clusters = cluster_files(files);
    assert_eq!(clusters.len(), 1);
    let c = &clusters[0];
    assert_eq!(c.album, "Y");
    assert_eq!(c.album_artist, "X");
    assert_eq!(c.base_path, "/music/a");
    assert_eq!(c.total_discs, 1);
    assert_eq!(c.tracks.len(), 3);
    assert_eq!(c.tracks[0].track_number, Some(1));
    assert_eq!(c.tracks[1].track_number, Some(2));
    assert_eq!(c.tracks[2].track_number, Some(3));
}

#[test]
fn scenario_missing_album_splits() {
    // One file tagged album "Y", one without an album tag: two clusters,
    // keyed "Y" and "Unknown Album".
    let files = vec![
        file("/music/a/one.mp3", Some("X"), Some("Y"), Some(1), None),
        file("/music/a/two.mp3", Some("X"), None, Some(2), None),
    ];
    let clusters = cluster_files(files);
    assert_eq!(clusters.len(), 2);
    assert_eq!(clusters[0].album, "Y");
    assert_eq!(clusters[1].album, "Unknown Album");
    assert_eq!(clusters[0].tracks.len(), 1);
    assert_eq!(clusters[1].tracks.len(), 1);
}

#[test]
fn partition_no_record_lost_or_duplicated() {
    let files = vec![
        file("/m/a/1.mp3", Some("A"), Some("P"), Some(1), None),
        file("/m/b/2.mp3", Some("B"), Some("Q"), Some(1), None),
        file("/m/a/3.mp3", Some("A"), Some("P"), Some(2), None),
        file("/m/a/4.mp3", None, None, None, None),
        file("/m/b/5.mp3", Some("B"), Some("Q"), Some(2), None),
    ];
    let clusters = cluster_files(files.clone());
    let all = flatten(&clusters);
    assert_eq!(all.len(), files.len());
    // Every input path appears exactly once across the clusters.
    for f in &files {
        let count = all.iter().filter(|t| t.path == f.path).count();
        assert_eq!(count, 1, "path {} must appear exactly once", f.path);
    }
}

#[test]
fn grouping_key_determinism_under_reorder() {
    let a = file("/m/x/1.mp3", Some("A"), Some("P"), Some(1), None);
    let b = file("/m/x/2.mp3", Some("A"), Some("P"), Some(2), None);
    let c = file("/m/y/3.mp3", Some("B"), Some("P"), Some(1), None);
    let forward = cluster_files(vec![a.clone(), b.clone(), c.clone()]);
    let backward = cluster_files(vec![c.clone(), b.clone(), a.clone()]);
    assert_eq!(forward.len(), 2);
    assert_eq!(backward.len(), 2);
    // Records sharing the key land together regardless of input order;
    // records differing in the key never do.
    for clusters in [&forward, &backward] {
        let with_both = clusters
            .iter()
            .find(|cl| cl.tracks.iter().any(|t| t.path == a.path))
            .unwrap();
        assert!(with_both.tracks.iter().any(|t| t.path == b.path));
        assert!(!with_both.tracks.iter().any(|t| t.path == c.path));
    }
}

#[test]
fn sort_is_stable_for_equal_keys() {
    // Same effective (disc, track) pair: untagged tracks keep input order.
    let first = file("/m/a/first.mp3", Some("A"), Some("P"), None, None);
    let second = file("/m/a/second.mp3", Some("A"), Some("P"), None, None);
    let third = file("/m/a/third.mp3", Some("A"), Some("P"), None, None);
    let clusters = cluster_files(vec![first, second, third]);
    assert_eq!(clusters.len(), 1);
    let paths: Vec<&str> = clusters[0].tracks.iter().map(|t| t.path.as_str()).collect();
    assert_eq!(paths, vec!["/m/a/first.mp3", "/m/a/second.mp3", "/m/a/third.mp3"]);
}

#[test]
fn sort_orders_by_disc_then_track() {
    let files = vec![
        file("/m/a/d2t1.mp3", Some("A"), Some("P"), Some(1), Some(2)),
        file("/m/a/d1t2.mp3", Some("A"), Some("P"), Some(2), Some(1)),
        file("/m/a/d1t1.mp3", Some("A"), Some("P"), Some(1), Some(1)),
        file("/m/a/d2t2.mp3", Some("A"), Some("P"), Some(2), Some(2)),
    ];
    let clusters = cluster_files(files);
    assert_eq!(clusters.len(), 1);
    let paths: Vec<&str> = clusters[0].tracks.iter().map(|t| t.path.as_str()).collect();
    assert_eq!(
        paths,
        vec!["/m/a/d1t1.mp3", "/m/a/d1t2.mp3", "/m/a/d2t1.mp3", "/m/a/d2t2.mp3"]
    );
}

#[test]
fn rerun_on_flattened_output_is_identical() {
    let files = vec![
        file("/m/a/2.mp3", Some("A"), Some("P"), Some(2), None),
        file("/m/b/1.mp3", Some("B"), Some("Q"), Some(1), None),
        file("/m/a/1.mp3", Some("A"), Some("P"), Some(1), None),
        file("/m/a/x.mp3", None, None, None, None),
    ];
    let once = cluster_files(files);
    let again = cluster_files(flatten(&once));
    assert_eq!(once.len(), again.len());
    for (c1, c2) in once.iter().zip(again.iter()) {
        assert_eq!(c1.album, c2.album);
        assert_eq!(c1.album_artist, c2.album_artist);
        assert_eq!(c1.base_path, c2.base_path);
        assert_eq!(c1.total_discs, c2.total_discs);
        let p1: Vec<&str> = c1.tracks.iter().map(|t| t.path.as_str()).collect();
        let p2: Vec<&str> = c2.tracks.iter().map(|t| t.path.as_str()).collect();
        assert_eq!(p1, p2);
    }
}

#[test]
fn key_uses_fallbacks_for_missing_tags() {
    let f = file("/m/a/x.mp3", None, None, None, None);
    let k = ClusterKey::from_file(&f);
    assert_eq!(k.base_path, "/m/a");
    assert_eq!(k.album_artist, "Unknown Artist");
    assert_eq!(k.album, "Unknown Album");
    assert_eq!(k.total_discs, 1);
}

#[test]
fn sibling_directories_stay_distinct() {
    // Same album name in two directories: the key includes the path, so the
    // clusters stay separate.
    let files = vec![
        file("/m/cd1/1.mp3", Some("A"), Some("P"), Some(1), None),
        file("/m/cd2/1.mp3", Some("A"), Some("P"), Some(1), None),
    ];
    let clusters = cluster_files(files);
    assert_eq!(clusters.len(), 2);
}

#[test]
fn cluster_accessors_report_tracks_and_codec() {
    let mut a = file("/m/a/1.mp3", Some("A"), Some("P"), Some(1), None);
    a.codec = AudioCodec::Flac;
    let mut b = file("/m/a/2.mp3", Some("A"), Some("P"), Some(2), None);
    b.codec = AudioCodec::Flac;
    let clusters = cluster_files(vec![a, b]);
    assert_eq!(clusters[0].track_count(), 2);
    assert_eq!(clusters[0].codec(), Some(AudioCodec::Flac));
}

#[test]
fn mixed_codec_cluster_has_none() {
    let mut a = file("/m/a/1.mp3", Some("A"), Some("P"), Some(1), None);
    a.codec = AudioCodec::Flac;
    let b = file("/m/a/2.mp3", Some("A"), Some("P"), Some(2), None);
    let clusters = cluster_files(vec![a, b]);
    assert_eq!(clusters[0].codec(), None);
    let empty = AlbumCluster {
        album: "P".to_string(),
        album_artist: "A".to_string(),
        tracks: Vec::new(),
        base_path: "/m/a".to_string(),
        total_discs: 1,
    };
    assert_eq!(empty.codec(), None);
    assert_eq!(empty.track_count(), 0);
}
