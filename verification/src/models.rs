//! File records, album clusters and catalog candidates.
//!
//! Paths are carried as plain strings: the grouping logic only ever reads a
//! path as text (its parent directory, its file name, its extension), so the
//! mathematical model of every record is a struct of character sequences and
//! integers.

use crate::codecs::AudioCodec;
use vstd::prelude::*;

verus! {

/// A single audio file with its extracted metadata.
///
/// Immutable once produced; passed by move between pipeline stages.
#[derive(Debug)]
pub struct AudioFile {
    pub path: String,
    pub codec: AudioCodec,
    pub title: Option<String>,
    pub artist: Option<String>,
    pub album_artist: Option<String>,
    pub album: Option<String>,
    pub track_number: Option<u32>,
    pub total_tracks: Option<u32>,
    pub disc_number: Option<u32>,
    pub total_discs: Option<u32>,
    pub genre: Option<String>,
    pub duration: Option<u32>,
}

/// The mathematical model of a file record.
pub ghost struct AudioFileView {
    pub path: Seq<char>,
    pub codec: AudioCodec,
    pub title: Option<Seq<char>>,
    pub artist: Option<Seq<char>>,
    pub album_artist: Option<Seq<char>>,
    pub album: Option<Seq<char>>,
    pub track_number: Option<u32>,
    pub total_tracks: Option<u32>,
    pub disc_number: Option<u32>,
    pub total_discs: Option<u32>,
    pub genre: Option<Seq<char>>,
    pub duration: Option<u32>,
}

/// The model of an optional string.
pub open spec fn view_opt_str(o: Option<String>) -> Option<Seq<char>> {
    match o {
        Some(s) => Some(s@),
        None => None,
    }
}

impl View for AudioFile {
    type V = AudioFileView;

    open spec fn view(&self) -> AudioFileView {
        AudioFileView {
            path: self.path@,
            codec: self.codec,
            title: view_opt_str(self.title),
            artist: view_opt_str(self.artist),
            album_artist: view_opt_str(self.album_artist),
            album: view_opt_str(self.album),
            track_number: self.track_number,
            total_tracks: self.total_tracks,
            disc_number: self.disc_number,
            total_discs: self.total_discs,
            genre: view_opt_str(self.genre),
            duration: self.duration,
        }
    }
}

impl DeepView for AudioFile {
    type V = AudioFileView;

    open spec fn deep_view(&self) -> AudioFileView {
        self.view()
    }
}

/// Clones an optional string; the copy has the same model.
pub fn clone_opt_str(o: &Option<String>) -> (r: Option<String>)
    ensures
        view_opt_str(r) == view_opt_str(*o),
{
    match o {
        Some(s) => Some(s.clone()),
        None => None,
    }
}

impl Clone for AudioFile {
    fn clone(&self) -> (r: Self)
        ensures
            r@ == self@,
    {
        AudioFile {
            path: self.path.clone(),
            codec: self.codec,
            title: clone_opt_str(&self.title),
            artist: clone_opt_str(&self.artist),
            album_artist: clone_opt_str(&self.album_artist),
            album: clone_opt_str(&self.album),
            track_number: self.track_number,
            total_tracks: self.total_tracks,
            disc_number: self.disc_number,
            total_discs: self.total_discs,
            genre: clone_opt_str(&self.genre),
            duration: self.duration,
        }
    }
}

/// Clones a list of file records; the copy has the same model, element by
/// element.
pub fn clone_files(files: &Vec<AudioFile>) -> (r: Vec<AudioFile>)
    ensures
        r.deep_view() == files.deep_view(),
{
    let mut out: Vec<AudioFile> = Vec::new();
    let mut i: usize = 0;
    while i < files.len()
        invariant
            i <= files.len(),
            out@.len() == i,
            forall|j: int| 0 <= j < i ==> #[trigger] out@[j]@ == files@[j]@,
        decreases files.len() - i,
    {
        out.push(files[i].clone());
        i = i + 1;
    }
    proof {
        assert(out.deep_view() =~= files.deep_view());
    }
    out
}

/// A group of audio files believed to belong to the same album release,
/// keyed by (containing directory, album artist, album, disc count).
///
/// Built by the cluster builder, read downstream, never mutated in place.
#[derive(Debug)]
pub struct AlbumCluster {
    pub album: String,
    pub album_artist: String,
    pub tracks: Vec<AudioFile>,
    pub base_path: String,
    pub total_discs: u32,
}

/// The mathematical model of an album cluster.
pub ghost struct AlbumClusterView {
    pub album: Seq<char>,
    pub album_artist: Seq<char>,
    pub tracks: Seq<AudioFileView>,
    pub base_path: Seq<char>,
    pub total_discs: u32,
}

impl View for AlbumCluster {
    type V = AlbumClusterView;

    open spec fn view(&self) -> AlbumClusterView {
        AlbumClusterView {
            album: self.album@,
            album_artist: self.album_artist@,
            tracks: self.tracks.deep_view(),
            base_path: self.base_path@,
            total_discs: self.total_discs,
        }
    }
}

impl DeepView for AlbumCluster {
    type V = AlbumClusterView;

    open spec fn deep_view(&self) -> AlbumClusterView {
        self.view()
    }
}

impl Clone for AlbumCluster {
    fn clone(&self) -> (r: Self)
        ensures
            r@ == self@,
    {
        AlbumCluster {
            album: self.album.clone(),
            album_artist: self.album_artist.clone(),
            tracks: clone_files(&self.tracks),
            base_path: self.base_path.clone(),
            total_discs: self.total_discs,
        }
    }
}

/// The codec shared by every track of a cluster, if the tracks agree on one.
pub open spec fn spec_cluster_codec(tracks: Seq<AudioFileView>) -> Option<AudioCodec> {
    if tracks.len() == 0 {
        None
    } else if forall|i: int| 0 <= i < tracks.len() ==> #[trigger] tracks[i].codec == tracks[0].codec {
        Some(tracks[0].codec)
    } else {
        None
    }
}

impl AlbumCluster {
    /// Number of tracks in the cluster.
    pub fn track_count(&self) -> (n: usize)
        ensures
            n == self@.tracks.len(),
    {
        self.tracks.len()
    }

    /// The audio codec shared by all files in the cluster, if any.
    pub fn codec(&self) -> (r: Option<AudioCodec>)
        ensures
            r == spec_cluster_codec(self@.tracks),
    {
        if self.tracks.len() == 0 {
            return None;
        }
        let codec = self.tracks[0].codec;
        let mut i: usize = 1;
        while i < self.tracks.len()
            invariant
                1 <= i <= self.tracks.len(),
                self.tracks.len() > 0,
                codec == self@.tracks[0].codec,
                forall|j: int| 0 <= j < i ==> #[trigger] self@.tracks[j].codec == codec,
            decreases self.tracks.len() - i,
        {
            if !(self.tracks[i].codec == codec) {
                proof {
                    assert(self@.tracks[i as int].codec != self@.tracks[0].codec);
                }
                return None;
            }
            i = i + 1;
        }
        Some(codec)
    }
}

/// One catalog entry returned for a cluster: a possible identity for the
/// album under review.
#[derive(Debug)]
pub struct CandidateMatch {
    pub title: String,
    pub artist: Option<String>,
    pub date: Option<String>,
    pub country: Option<String>,
    pub track_count: u32,
}

/// The mathematical model of a candidate match.
pub ghost struct CandidateMatchView {
    pub title: Seq<char>,
    pub artist: Option<Seq<char>>,
    pub date: Option<Seq<char>>,
    pub country: Option<Seq<char>>,
    pub track_count: u32,
}

impl View for CandidateMatch {
    type V = CandidateMatchView;

    open spec fn view(&self) -> CandidateMatchView {
        CandidateMatchView {
            title: self.title@,
            artist: view_opt_str(self.artist),
            date: view_opt_str(self.date),
            country: view_opt_str(self.country),
            track_count: self.track_count,
        }
    }
}

impl DeepView for CandidateMatch {
    type V = CandidateMatchView;

    open spec fn deep_view(&self) -> CandidateMatchView {
        self.view()
    }
}

impl Clone for CandidateMatch {
    fn clone(&self) -> (r: Self)
        ensures
            r@ == self@,
    {
        CandidateMatch {
            title: self.title.clone(),
            artist: clone_opt_str(&self.artist),
            date: clone_opt_str(&self.date),
            country: clone_opt_str(&self.country),
            track_count: self.track_count,
        }
    }
}

/// A (cluster, candidate list) pair awaiting user review in the pending
/// first-in-first-out queue.
#[derive(Debug)]
pub struct PendingResult {
    pub cluster: AlbumCluster,
    pub candidates: Vec<CandidateMatch>,
}

/// The mathematical model of a pending result.
pub ghost struct PendingResultView {
    pub cluster: AlbumClusterView,
    pub candidates: Seq<CandidateMatchView>,
}

impl View for PendingResult {
    type V = PendingResultView;

    open spec fn view(&self) -> PendingResultView {
        PendingResultView {
            cluster: self.cluster@,
            candidates: self.candidates.deep_view(),
        }
    }
}

impl DeepView for PendingResult {
    type V = PendingResultView;

    open spec fn deep_view(&self) -> PendingResultView {
        self.view()
    }
}

} // verus!
