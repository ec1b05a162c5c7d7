//! Verified text formatting: decimal numbers, track timecodes, and the
//! status and list lines the interface shows.

use crate::codecs::spec_codec_name;
use crate::models::{AlbumCluster, AudioFile, AudioFileView, CandidateMatch, CandidateMatchView};
use crate::models::spec_cluster_codec;
use vstd::prelude::*;
use vstd::string::StringExecFns;

verus! {

/// The decimal digit character for a value below ten.
pub open spec fn spec_digit_char(d: nat) -> char {
    if d == 0 {
        '0'
    } else if d == 1 {
        '1'
    } else if d == 2 {
        '2'
    } else if d == 3 {
        '3'
    } else if d == 4 {
        '4'
    } else if d == 5 {
        '5'
    } else if d == 6 {
        '6'
    } else if d == 7 {
        '7'
    } else if d == 8 {
        '8'
    } else {
        '9'
    }
}

/// The decimal representation of a number, most significant digit first,
/// without leading zeros (a lone zero for 0).
pub open spec fn spec_udec(n: nat) -> Seq<char>
    decreases n,
{
    if n < 10 {
        seq![spec_digit_char(n)]
    } else {
        spec_udec(n / 10).push(spec_digit_char(n % 10))
    }
}

fn digit_str(d: usize) -> (r: &'static str)
    requires
        d < 10,
    ensures
        r@ == seq![spec_digit_char(d as nat)],
{
    let digits = "0123456789";
    proof {
        reveal_strlit("0123456789");
        assert(digits@ =~= seq!['0', '1', '2', '3', '4', '5', '6', '7', '8', '9']);
    }
    let r = digits.substring_char(d, d + 1);
    proof {
        assert(r@ =~= seq![spec_digit_char(d as nat)]);
    }
    r
}

/// The decimal text of a number.
pub fn usize_to_string(n: usize) -> (r: String)
    ensures
        r@ == spec_udec(n as nat),
    decreases n,
{
    if n < 10 {
        digit_str(n).to_owned()
    } else {
        let mut r = usize_to_string(n / 10);
        r.append(digit_str(n % 10));
        proof {
            assert(r@ =~= spec_udec(n as nat));
        }
        r
    }
}

/// The decimal text of a 32-bit number.
pub fn u32_to_string(n: u32) -> (r: String)
    ensures
        r@ == spec_udec(n as nat),
{
    usize_to_string(n as usize)
}

/// A number padded with a leading zero to at least two digits.
pub open spec fn spec_two_digit(n: nat) -> Seq<char> {
    if n < 10 {
        seq!['0'] + spec_udec(n)
    } else {
        spec_udec(n)
    }
}

fn two_digit(n: u32) -> (r: String)
    ensures
        r@ == spec_two_digit(n as nat),
{
    if n < 10 {
        proof {
            reveal_strlit("0");
        }
        let mut r = "0".to_owned();
        r.append(digit_str(n as usize));
        proof {
            assert(r@ =~= spec_two_digit(n as nat));
        }
        r
    } else {
        u32_to_string(n)
    }
}

/// A duration in seconds rendered as a timecode: `h:mm:ss` when at least an
/// hour, `mm:ss` otherwise, minutes and seconds zero-padded to two digits.
pub open spec fn spec_timecode(seconds: nat) -> Seq<char> {
    let h = seconds / 3600;
    let m = (seconds % 3600) / 60;
    let sec = seconds % 60;
    if h > 0 {
        spec_udec(h) + seq![':'] + spec_two_digit(m) + seq![':'] + spec_two_digit(sec)
    } else {
        spec_two_digit(m) + seq![':'] + spec_two_digit(sec)
    }
}

/// Renders a duration in seconds as a timecode.
pub fn seconds_to_timecode(seconds: u32) -> (r: String)
    ensures
        r@ == spec_timecode(seconds as nat),
{
    proof {
        reveal_strlit(":");
    }
    let hours = seconds / 3600;
    let minutes = (seconds % 3600) / 60;
    let secs = seconds % 60;
    if hours > 0 {
        let mut r = u32_to_string(hours);
        r.append(":");
        let m = two_digit(minutes);
        r.append(m.as_str());
        r.append(":");
        let s = two_digit(secs);
        r.append(s.as_str());
        proof {
            assert(r@ =~= spec_timecode(seconds as nat));
        }
        r
    } else {
        let mut r = two_digit(minutes);
        r.append(":");
        let s = two_digit(secs);
        r.append(s.as_str());
        proof {
            assert(r@ =~= spec_timecode(seconds as nat));
        }
        r
    }
}

/// The walker's progress line: directory under scan and clusters found.
pub open spec fn spec_scan_status(dir: Seq<char>, clusters_found: nat) -> Seq<char> {
    "Scanning: "@ + dir + " ("@ + spec_udec(clusters_found) + " clusters found)"@
}

/// Renders the walker's progress line.
pub fn scan_status_line(dir: &str, clusters_found: usize) -> (r: String)
    ensures
        r@ == spec_scan_status(dir@, clusters_found as nat),
{
    let mut r = "Scanning: ".to_owned();
    r.append(dir);
    r.append(" (");
    let num = usize_to_string(clusters_found);
    r.append(num.as_str());
    r.append(" clusters found)");
    proof {
        assert(r@ =~= spec_scan_status(dir@, clusters_found as nat));
    }
    r
}

/// One row of the candidate list: rank, artist (or its fallback), title,
/// date (or `????`), summed track count, and country (or `??`).
pub open spec fn spec_candidate_line(idx: nat, c: CandidateMatchView) -> Seq<char> {
    spec_udec(idx + 1) + ". "@ + (match c.artist {
        Some(a) => a,
        None => "Unknown Artist"@,
    }) + " - "@ + c.title + " ("@ + (match c.date {
        Some(d) => d,
        None => "????"@,
    }) + ") [Tracks: "@ + spec_udec(c.track_count as nat) + "] [Country: "@ + (match c.country {
        Some(k) => k,
        None => "??"@,
    }) + "]"@
}

/// Renders one row of the candidate list.
pub fn candidate_line(idx: usize, c: &CandidateMatch) -> (r: String)
    requires
        idx < usize::MAX,
    ensures
        r@ == spec_candidate_line(idx as nat, c@),
{
    let mut r = usize_to_string(idx + 1);
    r.append(". ");
    match &c.artist {
        Some(a) => r.append(a.as_str()),
        None => r.append("Unknown Artist"),
    }
    r.append(" - ");
    r.append(c.title.as_str());
    r.append(" (");
    match &c.date {
        Some(d) => r.append(d.as_str()),
        None => r.append("????"),
    }
    r.append(") [Tracks: ");
    let n = u32_to_string(c.track_count);
    r.append(n.as_str());
    r.append("] [Country: ");
    match &c.country {
        Some(k) => r.append(k.as_str()),
        None => r.append("??"),
    }
    r.append("]");
    proof {
        assert(r@ =~= spec_candidate_line(idx as nat, c@));
    }
    r
}

/// One row of the cluster list: artist, album, the shared codec (or `Mutt`
/// for a mixed cluster), track count and directory.
pub open spec fn spec_cluster_line(c: crate::models::AlbumClusterView) -> Seq<char> {
    c.album_artist + " - "@ + c.album + " ["@ + (match spec_cluster_codec(c.tracks) {
        Some(k) => spec_codec_name(k),
        None => "Mutt"@,
    }) + "] ("@ + spec_udec(c.tracks.len()) + " tracks) ["@ + c.base_path + "]"@
}

/// Renders one row of the cluster list.
pub fn cluster_line(c: &AlbumCluster) -> (r: String)
    ensures
        r@ == spec_cluster_line(c@),
{
    let mut r = c.album_artist.clone();
    r.append(" - ");
    r.append(c.album.as_str());
    r.append(" [");
    match c.codec() {
        Some(k) => {
            let name = crate::codecs::codec_name(k);
            r.append(name.as_str());
        },
        None => r.append("Mutt"),
    }
    r.append("] (");
    let n = usize_to_string(c.track_count());
    r.append(n.as_str());
    r.append(" tracks) [");
    r.append(c.base_path.as_str());
    r.append("]");
    proof {
        assert(r@ =~= spec_cluster_line(c@));
    }
    r
}

/// One row of a cluster's track list: a two-digit disc prefix when the
/// cluster spans several discs, a two-digit track prefix when the track is
/// numbered, the title (or nothing), and the duration as a timecode (or
/// `???`).
pub open spec fn spec_track_line(f: AudioFileView) -> Seq<char> {
    (match f.disc_number {
        Some(d) => if (match f.total_discs {
            Some(n) => n,
            None => 1u32,
        }) <= 1 {
            Seq::<char>::empty()
        } else {
            spec_two_digit(d as nat) + "-"@
        },
        None => Seq::<char>::empty(),
    }) + (match f.track_number {
        Some(t) => spec_two_digit(t as nat) + ". "@,
        None => Seq::<char>::empty(),
    }) + (match f.title {
        Some(t) => t,
        None => Seq::<char>::empty(),
    }) + " ("@ + (match f.duration {
        Some(d) => spec_timecode(d as nat),
        None => "???"@,
    }) + ")"@
}

/// Renders one row of a cluster's track list.
pub fn track_line(f: &AudioFile) -> (r: String)
    ensures
        r@ == spec_track_line(f@),
{
    let mut r = String::new();
    match f.disc_number {
        Some(d) => {
            let total = match f.total_discs {
                Some(n) => n,
                None => 1,
            };
            if total > 1 {
                let p = two_digit(d);
                r.append(p.as_str());
                r.append("-");
            }
        },
        None => {},
    }
    match f.track_number {
        Some(t) => {
            let p = two_digit(t);
            r.append(p.as_str());
            r.append(". ");
        },
        None => {},
    }
    match &f.title {
        Some(t) => r.append(t.as_str()),
        None => {},
    }
    r.append(" (");
    match f.duration {
        Some(d) => {
            let p = seconds_to_timecode(d);
            r.append(p.as_str());
        },
        None => r.append("???"),
    }
    r.append(")");
    proof {
        assert(r@ =~= spec_track_line(f@));
    }
    r
}

} // verus!
