//! The data model: what the user asked for and what the prober found.
//!
//! Quantities that a user interface would show as fractions are held as
//! integers in a fixed unit, so that every rule over them is exact.

use vstd::prelude::*;

verus! {

/// What happens to the source's metadata.
#[derive(Clone, Copy, Debug, PartialEq, Eq, Structural)]
pub enum MetadataMode {
    /// Keep the source's metadata and add the configured fields.
    Preserve,
    /// Strip all metadata.
    Clean,
    /// Strip all metadata, then write the configured fields only.
    Replace,
}

/// Metadata policy and the fields to write.  An absent or empty field is not
/// written.
#[derive(Clone, Debug)]
pub struct MetadataConfig {
    pub mode: MetadataMode,
    pub title: Option<String>,
    pub artist: Option<String>,
    pub album: Option<String>,
    pub genre: Option<String>,
    pub date: Option<String>,
    pub comment: Option<String>,
}

/// A crop rectangle in source pixels.
#[derive(Clone, Copy, Debug, PartialEq, Eq, Structural)]
pub struct CropConfig {
    pub enabled: bool,
    pub x: i32,
    pub y: i32,
    pub width: i32,
    pub height: i32,
}

/// Audio volume at which nothing is changed, in hundredths of a percent.
pub const VOLUME_UNITY: u32 = 10_000;

/// Distance from unity, in hundredths of a percent, up to which a volume
/// counts as unchanged.
pub const VOLUME_EPSILON: u32 = 1;

/// An immutable snapshot of what the user asked for.
#[derive(Clone, Debug)]
pub struct ConversionConfig {
    /// Output container, e.g. `mp4`, `mp3`, `gif`.
    pub container: String,
    /// `reencode` or `copy`.
    pub processing_mode: String,
    pub video_codec: String,
    /// `bitrate` selects the numeric bitrate; anything else selects quality.
    pub video_bitrate_mode: String,
    /// Video bitrate in kbit/s, as typed.
    pub video_bitrate: String,
    pub crf: u32,
    pub quality: u32,
    pub preset: String,
    pub hw_decode: bool,
    pub nvenc_spatial_aq: bool,
    pub nvenc_temporal_aq: bool,
    pub videotoolbox_allow_sw: bool,
    pub audio_codec: String,
    /// Audio bitrate in kbit/s, as typed.
    pub audio_bitrate: String,
    /// `stereo`, `mono`, or anything else for the source layout.
    pub audio_channels: String,
    /// Audio volume in hundredths of a percent; `VOLUME_UNITY` changes nothing.
    pub audio_volume: u32,
    pub audio_normalize: bool,
    /// Source stream indices of the audio tracks to keep; empty keeps all.
    pub selected_audio_tracks: Vec<u32>,
    /// Source stream indices of the subtitle tracks to keep; empty keeps all.
    pub selected_subtitle_tracks: Vec<u32>,
    /// Subtitle file to composite into the picture.
    pub subtitle_burn_path: Option<String>,
    /// `original`, `custom`, or a named height such as `720p`.
    pub resolution: String,
    /// Width for `custom`; `-1` keeps the aspect ratio.
    pub custom_width: Option<String>,
    /// Height for `custom`; `-1` keeps the aspect ratio.
    pub custom_height: Option<String>,
    pub scaling_algorithm: String,
    /// Target frame rate, or `original`.
    pub fps: String,
    /// `0`, `90`, `180` or `270`.
    pub rotation: String,
    pub flip_horizontal: bool,
    pub flip_vertical: bool,
    pub crop: Option<CropConfig>,
    pub start_time: Option<String>,
    pub end_time: Option<String>,
    pub metadata: MetadataConfig,
    /// `none`, `esrgan-2x` or `esrgan-4x`.
    pub ml_upscale: Option<String>,
    /// Palette size of a GIF, 2 to 256.
    pub gif_colors: u32,
    pub gif_dither: String,
    pub gif_loop: i32,
}

/// One audio stream of the source.
#[derive(Clone, Debug)]
pub struct AudioTrack {
    pub index: u32,
    pub codec: String,
}

/// One subtitle stream of the source.
#[derive(Clone, Debug)]
pub struct SubtitleTrack {
    pub index: u32,
    pub codec: String,
}

/// What the prober found in the source.
#[derive(Clone, Debug)]
pub struct ProbeMetadata {
    pub video_codec: Option<String>,
    /// Duration as a timecode.
    pub duration: Option<String>,
    /// Frames per second, in thousandths.
    pub frame_rate: Option<u32>,
    pub audio_tracks: Vec<AudioTrack>,
    pub subtitle_tracks: Vec<SubtitleTrack>,
}

/// One unit of work.
#[derive(Clone, Debug)]
pub struct ConversionTask {
    pub id: String,
    pub file_path: String,
    pub output_name: Option<String>,
    pub config: ConversionConfig,
}

/// The view of an optional string.
pub open spec fn opt_view(s: Option<String>) -> Option<Seq<char>> {
    match s {
        Some(v) => Some(v@),
        None => None,
    }
}

/// The text of an optional string when it is present and not empty.
pub open spec fn non_empty(s: Option<String>) -> Option<Seq<char>> {
    match s {
        Some(v) => if v@.len() > 0 {
            Some(v@)
        } else {
            None
        },
        None => None,
    }
}

} // verus!
