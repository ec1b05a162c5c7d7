//! The fixed set of supported audio container formats.

use vstd::prelude::*;

verus! {

/// One codec family per audio file; the set is closed.
#[derive(Debug, Clone, Copy, PartialEq, Eq, Structural)]
pub enum AudioCodec {
    Flac,
    Mp3,
    Mp4,
}

/// The display name of a codec.
pub open spec fn spec_codec_name(codec: AudioCodec) -> Seq<char> {
    match codec {
        AudioCodec::Flac => "FLAC"@,
        AudioCodec::Mp3 => "MP3"@,
        AudioCodec::Mp4 => "M4A"@,
    }
}

/// Human-readable name of an audio codec, as shown in the cluster list.
pub fn codec_name(codec: AudioCodec) -> (r: String)
    ensures
        r@ == spec_codec_name(codec),
{
    match codec {
        AudioCodec::Flac => "FLAC".to_owned(),
        AudioCodec::Mp3 => "MP3".to_owned(),
        AudioCodec::Mp4 => "M4A".to_owned(),
    }
}

} // verus!
