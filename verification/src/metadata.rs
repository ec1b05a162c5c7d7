//! The computable half of metadata extraction.
//!
//! Decoding a tag out of a file is the collaborators' work; what the library
//! owns is the dispatch — which codec family a path's extension names — and
//! the arithmetic on decoded fields, such as a stream's duration in seconds.

use crate::codecs::AudioCodec;
use crate::paths::{
    extension_of, spec_ext_is_flac, spec_ext_is_m4a, spec_ext_is_mp3, spec_extension,
};
use vstd::prelude::*;

verus! {

/// The codec family a path's extension names, if any.
pub open spec fn spec_codec_for_path(p: Seq<char>) -> Option<AudioCodec> {
    match spec_extension(p) {
        Some(e) => if spec_ext_is_mp3(e) {
            Some(AudioCodec::Mp3)
        } else if spec_ext_is_m4a(e) {
            Some(AudioCodec::Mp4)
        } else if spec_ext_is_flac(e) {
            Some(AudioCodec::Flac)
        } else {
            None
        },
        None => None,
    }
}

/// Which codec family to decode a file as, decided by its extension,
/// compared without regard to letter case.
pub fn codec_for_path(path: &str) -> (r: Option<AudioCodec>)
    ensures
        r == spec_codec_for_path(path@),
{
    match extension_of(path) {
        Some(e) => {
            let n = e.as_str().unicode_len();
            if n == 3 {
                let c0 = e.as_str().get_char(0);
                let c1 = e.as_str().get_char(1);
                let c2 = e.as_str().get_char(2);
                if (c0 == 'm' || c0 == 'M') && (c1 == 'p' || c1 == 'P') && c2 == '3' {
                    Some(AudioCodec::Mp3)
                } else if (c0 == 'm' || c0 == 'M') && c1 == '4' && (c2 == 'a' || c2 == 'A') {
                    Some(AudioCodec::Mp4)
                } else {
                    None
                }
            } else if n == 4 {
                let c0 = e.as_str().get_char(0);
                let c1 = e.as_str().get_char(1);
                let c2 = e.as_str().get_char(2);
                let c3 = e.as_str().get_char(3);
                if (c0 == 'f' || c0 == 'F') && (c1 == 'l' || c1 == 'L') && (c2 == 'a' || c2 == 'A')
                    && (c3 == 'c' || c3 == 'C') {
                    Some(AudioCodec::Flac)
                } else {
                    None
                }
            } else {
                None
            }
        },
        None => None,
    }
}

/// A stream's duration in whole seconds: total samples over sample rate,
/// truncated to 32 bits; a zero sample rate has no duration.
pub open spec fn spec_stream_duration(total_samples: u64, sample_rate: u32) -> Option<u32> {
    if sample_rate == 0 {
        None
    } else {
        Some(((total_samples as int) / (sample_rate as int)) as u32)
    }
}

/// Computes a stream's duration in whole seconds from its sample count and
/// sample rate.
pub fn stream_duration_seconds(total_samples: u64, sample_rate: u32) -> (r: Option<u32>)
    ensures
        r == spec_stream_duration(total_samples, sample_rate),
{
    if sample_rate == 0 {
        None
    } else {
        Some((total_samples / (sample_rate as u64)) as u32)
    }
}

} // verus!
