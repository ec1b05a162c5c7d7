use albumscan::codecs::AudioCodec;
use albumscan::metadata::{codec_for_path, stream_duration_seconds};
use albumscan::models::{AlbumCluster, AudioFile, CandidateMatch};
use albumscan::paths::{extension_of, file_name, is_hidden, is_supported_audio_file, parent_dir};
use albumscan::textfmt::{
    candidate_line, cluster_line, scan_status_line, seconds_to_timecode, track_line,
    u32_to_string, usize_to_string,
};

fn file(path: &str) -> AudioFile {
    AudioFile {
        path: path.to_string(),
        codec: AudioCodec::Mp3,
        title: Some("Song".to_string()),
        artist: Some("X".to_string()),
        album_artist: Some("X".to_string()),
        album: Some("Y".to_string()),
        track_number: Some(3),
        total_tracks: Some(10),
        disc_number: None,
        total_discs: None,
        genre: None,
        duration: Some(185),
    }
}

#[test]
fn parent_dir_cases() {
    assert_eq!(parent_dir("/music/a/song.mp3"), "/music/a");
    assert_eq!(parent_dir("/song.mp3"), "/");
    assert_eq!(parent_dir("song.mp3"), "");
    assert_eq!(parent_dir(""), "");
}

#[test]
fn file_name_cases() {
    assert_eq!(file_name("/music/a/song.mp3"), "song.mp3");
    assert_eq!(file_name("song.mp3"), "song.mp3");
    assert_eq!(file_name("/music/a/"), "");
}

#[test]
fn extension_cases() {
    assert_eq!(extension_of("/a/song.mp3"), Some("mp3".to_string()));
    assert_eq!(extension_of("/a/song.tar.gz"), Some("gz".to_string()));
    assert_eq!(extension_of("/a/song"), None);
    assert_eq!(extension_of("/a/.hidden"), None);
    assert_eq!(extension_of("/a/.hidden.mp3"), Some("mp3".to_string()));
    assert_eq!(extension_of("/a/song."), Some("".to_string()));
}

#[test]
fn hidden_names_start_with_a_dot() {
    assert!(is_hidden("/music/.git"));
    assert!(is_hidden(".cache"));
    assert!(!is_hidden("/music/a"));
    assert!(!is_hidden("/music/a/"));
}

#[test]
fn supported_extensions_ignore_case() {
    assert!(is_supported_audio_file("/a/song.mp3"));
    assert!(is_supported_audio_file("/a/SONG.MP3"));
    assert!(is_supported_audio_file("/a/song.M4a"));
    assert!(is_supported_audio_file("/a/song.FLAC"));
    assert!(!is_supported_audio_file("/a/song.ogg"));
    assert!(!is_supported_audio_file("/a/song.mp33"));
    assert!(!is_supported_audio_file("/a/song"));
    assert!(!is_supported_audio_file("/a/.mp3"));
}

#[test]
fn codec_for_path_dispatches_by_extension() {
    assert_eq!(codec_for_path("/a/x.mp3"), Some(AudioCodec::Mp3));
    assert_eq!(codec_for_path("/a/x.M4A"), Some(AudioCodec::Mp4));
    assert_eq!(codec_for_path("/a/x.flac"), Some(AudioCodec::Flac));
    assert_eq!(codec_for_path("/a/x.wav"), None);
    assert_eq!(codec_for_path("/a/x"), None);
}

#[test]
fn stream_duration_divides_samples_by_rate() {
    assert_eq!(stream_duration_seconds(44_100 * 185, 44_100), Some(185));
    assert_eq!(stream_duration_seconds(44_099, 44_100), Some(0));
    assert_eq!(stream_duration_seconds(1_000, 0), None);
}

#[test]
fn decimal_rendering() {
    assert_eq!(usize_to_string(0), "0");
    assert_eq!(usize_to_string(7), "7");
    assert_eq!(usize_to_string(10), "10");
    assert_eq!(usize_to_string(90210), "90210");
    assert_eq!(u32_to_string(4294967295), "4294967295");
}

#[test]
fn timecode_rendering() {
    assert_eq!(seconds_to_timecode(0), "00:00");
    assert_eq!(seconds_to_timecode(59), "00:59");
    assert_eq!(seconds_to_timecode(60), "01:00");
    assert_eq!(seconds_to_timecode(185), "03:05");
    assert_eq!(seconds_to_timecode(3599), "59:59");
    assert_eq!(seconds_to_timecode(3600), "1:00:00");
    assert_eq!(seconds_to_timecode(3661), "1:01:01");
    assert_eq!(seconds_to_timecode(36_061), "10:01:01");
}

#[test]
fn scan_status_line_text() {
    assert_eq!(
        scan_status_line("/music/a", 4),
        "Scanning: /music/a (4 clusters found)"
    );
}

#[test]
fn candidate_line_text() {
    let c = CandidateMatch {
        title: "Y".to_string(),
        artist: Some("X".to_string()),
        date: Some("2001-05-01".to_string()),
        country: Some("GB".to_string()),
        track_count: 12,
    };
    assert_eq!(
        candidate_line(0, &c),
        "1. X - Y (2001-05-01) [Tracks: 12] [Country: GB]"
    );
    let bare = CandidateMatch {
        title: "Y".to_string(),
        artist: None,
        date: None,
        country: None,
        track_count: 0,
    };
    assert_eq!(
        candidate_line(2, &bare),
        "3. Unknown Artist - Y (????) [Tracks: 0] [Country: ??]"
    );
}

#[test]
fn cluster_line_text() {
    let cluster = AlbumCluster {
        album: "Y".to_string(),
        album_artist: "X".to_string(),
        tracks: vec![file("/m/a/1.mp3"), file("/m/a/2.mp3")],
        base_path: "/m/a".to_string(),
        total_discs: 1,
    };
    assert_eq!(cluster_line(&cluster), "X - Y [MP3] (2 tracks) [/m/a]");
    let mut mixed = cluster;
    mixed.tracks[0].codec = AudioCodec::Flac;
    assert_eq!(cluster_line(&mixed), "X - Y [Mutt] (2 tracks) [/m/a]");
}

#[test]
fn track_line_text() {
    let t = file("/m/a/1.mp3");
    assert_eq!(track_line(&t), "03. Song (03:05)");
    let mut multi_disc = file("/m/a/1.mp3");
    multi_disc.disc_number = Some(2);
    multi_disc.total_discs = Some(2);
    assert_eq!(track_line(&multi_disc), "02-03. Song (03:05)");
    let mut single_disc = file("/m/a/1.mp3");
    single_disc.disc_number = Some(1);
    single_disc.total_discs = Some(1);
    assert_eq!(track_line(&single_disc), "03. Song (03:05)");
    let bare = AudioFile {
        path: "/m/a/x.mp3".to_string(),
        codec: AudioCodec::Mp3,
        title: None,
        artist: None,
        album_artist: None,
        album: None,
        track_number: None,
        total_tracks: None,
        disc_number: None,
        total_discs: None,
        genre: None,
        duration: None,
    };
    assert_eq!(track_line(&bare), " (???)");
}
