//! The compatibility validator: what a request must satisfy before any
//! process is started.
//!
//! The rules are checked in a fixed order and the first one that fails
//! decides the reason that is reported.

use vstd::prelude::*;
use vstd::string::*;
use crate::args::{is_known_dither, known_dither};
use crate::error::{invalid_input, ConversionError};
use crate::filters::{
    burns_subtitles, dimension, dimension_or_auto, has_burn_subtitles, is_volume_changed,
    volume_changed,
};
use crate::media_rules::{
    audio_codec_allowed, audio_only, container_supports_audio, container_supports_subtitles,
    is_audio_codec_allowed, is_audio_only_container, is_video_codec_allowed,
    is_video_only_container, supports_audio, supports_subtitles, video_codec_allowed, video_only,
};
use crate::text::{
    decimal, number_positive, parse_i32, parse_signed, read_number_positive, str_eq, trim,
    trimmed, u64_to_string,
};
use crate::timecode::{parse_time, timecode_millis};
use crate::types::ConversionConfig;

verus! {

/// What the caller found at the input path.
#[derive(Clone, Copy, Debug, PartialEq, Eq, Structural)]
pub enum InputFile {
    /// Nothing exists at the path.
    Missing,
    /// Something exists at the path that is not a regular file.
    NotAFile,
    /// A regular file.
    File,
}

/// The first of two findings.
pub open spec fn first_of(a: Option<Seq<char>>, b: Option<Seq<char>>) -> Option<Seq<char>> {
    if a is Some {
        a
    } else {
        b
    }
}

/// A check agrees with a finding when it passes exactly where nothing is
/// found, and otherwise fails as invalid input with the finding as reason.
pub open spec fn reports(r: Result<(), ConversionError>, finding: Option<Seq<char>>) -> bool {
    match r {
        Ok(_) => finding is None,
        Err(e) => e is InvalidInput && finding == Some(e.reason()),
    }
}

/// The processing mode as the rules read it.
pub open spec fn mode_of(c: &ConversionConfig) -> Seq<char> {
    trimmed(c.processing_mode@)
}

/// Whether the rules treat the request as a stream copy.
pub open spec fn copy_requested(c: &ConversionConfig) -> bool {
    mode_of(c) == "copy"@
}

/// A time as the rules read it: trimmed, and absent when nothing is left.
pub open spec fn time_of(t: Option<String>) -> Option<Seq<char>> {
    match t {
        Some(s) => if trimmed(s@).len() > 0 {
            Some(trimmed(s@))
        } else {
            None
        },
        None => None,
    }
}

/// Whether ML upscaling is asked for.
pub open spec fn upscale_requested(c: &ConversionConfig) -> bool {
    c.ml_upscale matches Some(m) && m@.len() > 0 && m@ != "none"@
}

pub open spec fn input_finding(file_path: Seq<char>, input: InputFile) -> Option<Seq<char>> {
    match input {
        InputFile::Missing => Some("Input file does not exist: "@ + file_path),
        InputFile::NotAFile => Some("Input path is not a file: "@ + file_path),
        InputFile::File => None,
    }
}

/// The processing mode is `reencode` or `copy`.
pub open spec fn mode_finding(c: &ConversionConfig) -> Option<Seq<char>> {
    if mode_of(c) != "reencode"@ && mode_of(c) != "copy"@ {
        Some("Invalid processing mode: "@ + mode_of(c))
    } else {
        None
    }
}

/// Start and end are timecodes, and the end lies behind the start.
pub open spec fn time_finding(c: &ConversionConfig) -> Option<Seq<char>> {
    let start = time_of(c.start_time);
    let end = time_of(c.end_time);
    if start is Some && timecode_millis(start->0) is None {
        Some("Invalid start time: "@ + start->0)
    } else if end is Some && timecode_millis(end->0) is None {
        Some("Invalid end time: "@ + end->0)
    } else if start is Some && end is Some && timecode_millis(end->0)->0 <= timecode_millis(
        start->0,
    )->0 {
        Some("End time must be greater than start time"@)
    } else {
        None
    }
}

pub open spec fn dimension_value(d: Option<String>) -> Option<int> {
    parse_signed(dimension(d), i32::MIN as int, i32::MAX as int)
}

/// A custom resolution of a re-encode has integer dimensions, each positive
/// or `-1`.
pub open spec fn resolution_finding(c: &ConversionConfig) -> Option<Seq<char>> {
    if !copy_requested(c) && c.resolution@ == "custom"@ {
        let w = dimension_value(c.custom_width);
        let h = dimension_value(c.custom_height);
        if w is None {
            Some("Invalid custom width: "@ + dimension(c.custom_width))
        } else if h is None {
            Some("Invalid custom height: "@ + dimension(c.custom_height))
        } else if w->0 == 0 || h->0 == 0 {
            Some("Resolution dimensions cannot be zero"@)
        } else if w->0 < -1 || h->0 < -1 {
            Some("Resolution dimensions cannot be negative (except -1 for auto)"@)
        } else {
            None
        }
    } else {
        None
    }
}

/// A re-encode into a general container in bitrate mode has a bitrate that
/// is a number, and a positive one.
pub open spec fn bitrate_finding(c: &ConversionConfig) -> Option<Seq<char>> {
    if !copy_requested(c) && c.video_bitrate_mode@ == "bitrate"@ && !audio_only(c.container@)
        && !video_only(c.container@) {
        match number_positive(c.video_bitrate@) {
            None => Some("Invalid video bitrate: "@ + c.video_bitrate@),
            Some(positive) => if !positive {
                Some("Video bitrate must be positive"@)
            } else {
                None
            },
        }
    } else {
        None
    }
}

pub open spec fn incompatible(kind: Seq<char>, codec: Seq<char>, container: Seq<char>) -> Seq<
    char,
> {
    kind + " codec '"@ + codec + "' is not compatible with container '"@ + container + "'"@
}

/// The encoders of a re-encode are listed in the container's row of the
/// rules table.
pub open spec fn codec_finding(c: &ConversionConfig) -> Option<Seq<char>> {
    if !copy_requested(c) && !audio_only(c.container@) && !video_codec_allowed(
        c.container@,
        c.video_codec@,
    ) {
        Some(incompatible("Video"@, c.video_codec@, c.container@))
    } else if !copy_requested(c) && supports_audio(c.container@) && !audio_codec_allowed(
        c.container@,
        c.audio_codec@,
    ) {
        Some(incompatible("Audio"@, c.audio_codec@, c.container@))
    } else {
        None
    }
}

/// ML upscaling is one of the two presets and targets a general container.
pub open spec fn upscale_finding(c: &ConversionConfig) -> Option<Seq<char>> {
    if upscale_requested(c) && c.ml_upscale->0@ != "esrgan-2x"@ && c.ml_upscale->0@
        != "esrgan-4x"@ {
        Some("Invalid ML upscale mode: "@ + c.ml_upscale->0@)
    } else if upscale_requested(c) && (audio_only(c.container@) || video_only(c.container@)) {
        Some("ML upscaling requires an audio-capable video container"@)
    } else {
        None
    }
}

/// A stream copy changes nothing in the streams.
pub open spec fn copy_finding(c: &ConversionConfig) -> Option<Seq<char>> {
    if !copy_requested(c) {
        None
    } else if video_only(c.container@) {
        Some("Stream copy mode is not available for video-only containers"@)
    } else if upscale_requested(c) {
        Some("ML upscaling requires re-encoding mode"@)
    } else if has_burn_subtitles(c) {
        Some("Burn-in subtitles are unavailable in stream copy mode"@)
    } else if volume_changed(c.audio_volume) {
        Some("Audio volume adjustment requires re-encoding"@)
    } else if c.audio_normalize {
        Some("Audio normalization requires re-encoding"@)
    } else if c.rotation@ != "0"@ || c.flip_horizontal || c.flip_vertical {
        Some("Video transforms require re-encoding"@)
    } else if c.crop matches Some(k) && k.enabled {
        Some("Cropping requires re-encoding"@)
    } else if c.resolution@ != "original"@ || c.fps@ != "original"@ {
        Some("Resolution and FPS changes require re-encoding"@)
    } else if c.hw_decode {
        Some("Hardware decoding is unavailable in stream copy mode"@)
    } else {
        None
    }
}

/// Tracks are selected only of the kinds that the container takes.
pub open spec fn track_finding(c: &ConversionConfig) -> Option<Seq<char>> {
    if !supports_audio(c.container@) && c.selected_audio_tracks@.len() > 0 {
        Some("Audio track selection is not available for this container"@)
    } else if !supports_subtitles(c.container@) && (c.selected_subtitle_tracks@.len() > 0
        || has_burn_subtitles(c)) {
        Some("Subtitle options are not available for this container"@)
    } else {
        None
    }
}

/// A GIF has a palette of 2 to 256 colours and a known dither algorithm.
pub open spec fn gif_finding(c: &ConversionConfig) -> Option<Seq<char>> {
    if !video_only(c.container@) {
        None
    } else if !(2 <= c.gif_colors <= 256) {
        Some("GIF palette size must be between 2 and 256 colors: "@ + decimal(c.gif_colors as nat))
    } else if !known_dither(c.gif_dither@) {
        Some("Invalid GIF dither mode: "@ + c.gif_dither@)
    } else {
        None
    }
}

/// The rules on the configuration alone, in their order.
pub open spec fn config_finding(c: &ConversionConfig) -> Option<Seq<char>> {
    first_of(
        mode_finding(c),
        first_of(
            time_finding(c),
            first_of(
                resolution_finding(c),
                first_of(
                    bitrate_finding(c),
                    first_of(
                        codec_finding(c),
                        first_of(
                            upscale_finding(c),
                            first_of(copy_finding(c), first_of(track_finding(c), gif_finding(c))),
                        ),
                    ),
                ),
            ),
        ),
    )
}

/// Why a request is rejected, or `None` for a request that is accepted: the
/// input must be a regular file, then the rules on the configuration hold.
pub open spec fn task_finding(file_path: Seq<char>, input: InputFile, c: &ConversionConfig)
    -> Option<Seq<char>> {
    first_of(input_finding(file_path, input), config_finding(c))
}

fn reject(reason: &str) -> (r: Result<(), ConversionError>)
    ensures
        r is Err,
        reports(r, Some(reason@)),
{
    Err(ConversionError::InvalidInput(String::from_str(reason)))
}

fn reject_with(prefix: &str, detail: &str) -> (r: Result<(), ConversionError>)
    ensures
        r is Err,
        reports(r, Some(prefix@ + detail@)),
{
    Err(invalid_input(prefix, detail))
}

fn check_input(file_path: &str, input: InputFile) -> (r: Result<(), ConversionError>)
    ensures
        reports(r, input_finding(file_path@, input)),
{
    match input {
        InputFile::Missing => reject_with("Input file does not exist: ", file_path),
        InputFile::NotAFile => reject_with("Input path is not a file: ", file_path),
        InputFile::File => Ok(()),
    }
}

fn check_mode(config: &ConversionConfig) -> (r: Result<(), ConversionError>)
    ensures
        reports(r, mode_finding(config)),
{
    let mode = trim(config.processing_mode.as_str());
    if !str_eq(mode, "reencode") && !str_eq(mode, "copy") {
        reject_with("Invalid processing mode: ", mode)
    } else {
        Ok(())
    }
}

fn is_copy_requested(config: &ConversionConfig) -> (r: bool)
    ensures
        r == copy_requested(config),
{
    str_eq(trim(config.processing_mode.as_str()), "copy")
}

fn read_time<'a>(t: &'a Option<String>) -> (r: Option<&'a str>)
    ensures
        match r {
            Some(s) => time_of(*t) == Some(s@),
            None => time_of(*t) is None,
        },
{
    match t {
        Some(s) => {
            let trimmed = trim(s.as_str());
            if trimmed.is_empty() {
                None
            } else {
                Some(trimmed)
            }
        },
        None => None,
    }
}

fn check_times(config: &ConversionConfig) -> (r: Result<(), ConversionError>)
    ensures
        reports(r, time_finding(config)),
{
    let start = read_time(&config.start_time);
    let end = read_time(&config.end_time);
    let mut start_ms: Option<u64> = None;
    if let Some(s) = start {
        start_ms = parse_time(s);
        if start_ms.is_none() {
            return reject_with("Invalid start time: ", s);
        }
    }
    let mut end_ms: Option<u64> = None;
    if let Some(e) = end {
        end_ms = parse_time(e);
        if end_ms.is_none() {
            return reject_with("Invalid end time: ", e);
        }
    }
    match (start_ms, end_ms) {
        (Some(s), Some(e)) => {
            if e <= s {
                return reject("End time must be greater than start time");
            }
        },
        _ => {},
    }
    Ok(())
}

fn check_resolution(config: &ConversionConfig) -> (r: Result<(), ConversionError>)
    ensures
        reports(r, resolution_finding(config)),
{
    if !is_copy_requested(config) && str_eq(config.resolution.as_str(), "custom") {
        let w_text = dimension_or_auto(&config.custom_width);
        let h_text = dimension_or_auto(&config.custom_height);
        let w = match parse_i32(w_text) {
            Some(w) => w,
            None => { return reject_with("Invalid custom width: ", w_text); },
        };
        let h = match parse_i32(h_text) {
            Some(h) => h,
            None => { return reject_with("Invalid custom height: ", h_text); },
        };
        if w == 0 || h == 0 {
            return reject("Resolution dimensions cannot be zero");
        }
        if w < -1 || h < -1 {
            return reject("Resolution dimensions cannot be negative (except -1 for auto)");
        }
    }
    Ok(())
}

fn check_bitrate(config: &ConversionConfig) -> (r: Result<(), ConversionError>)
    ensures
        reports(r, bitrate_finding(config)),
{
    let container = config.container.as_str();
    if !is_copy_requested(config) && str_eq(config.video_bitrate_mode.as_str(), "bitrate")
        && !is_audio_only_container(container) && !is_video_only_container(container) {
        match read_number_positive(config.video_bitrate.as_str()) {
            None => { return reject_with("Invalid video bitrate: ", config.video_bitrate.as_str()); },
            Some(positive) => {
                if !positive {
                    return reject("Video bitrate must be positive");
                }
            },
        }
    }
    Ok(())
}

fn reject_incompatible(kind: &str, codec: &str, container: &str) -> (r: Result<
    (),
    ConversionError,
>)
    ensures
        r is Err,
        reports(r, Some(incompatible(kind@, codec@, container@))),
{
    let mut reason = String::from_str(kind);
    reason.append(" codec '");
    reason.append(codec);
    reason.append("' is not compatible with container '");
    reason.append(container);
    reject_with(reason.as_str(), "'")
}

fn check_codecs(config: &ConversionConfig) -> (r: Result<(), ConversionError>)
    ensures
        reports(r, codec_finding(config)),
{
    let container = config.container.as_str();
    let copy = is_copy_requested(config);
    if !copy && !is_audio_only_container(container) && !is_video_codec_allowed(
        container,
        config.video_codec.as_str(),
    ) {
        return reject_incompatible("Video", config.video_codec.as_str(), container);
    }
    if !copy && container_supports_audio(container) && !is_audio_codec_allowed(
        container,
        config.audio_codec.as_str(),
    ) {
        return reject_incompatible("Audio", config.audio_codec.as_str(), container);
    }
    Ok(())
}

/// Whether `config` asks for ML upscaling: a mode is named, and it is
/// neither empty nor `none`.
pub fn is_upscale_requested(config: &ConversionConfig) -> (r: bool)
    ensures
        r == upscale_requested(config),
{
    match &config.ml_upscale {
        Some(m) => !m.as_str().is_empty() && !str_eq(m.as_str(), "none"),
        None => false,
    }
}

fn check_upscale(config: &ConversionConfig) -> (r: Result<(), ConversionError>)
    ensures
        reports(r, upscale_finding(config)),
{
    let container = config.container.as_str();
    let requested = is_upscale_requested(config);
    if let Some(m) = &config.ml_upscale {
        if requested && !str_eq(m.as_str(), "esrgan-2x") && !str_eq(m.as_str(), "esrgan-4x") {
            return reject_with("Invalid ML upscale mode: ", m.as_str());
        }
    }
    if requested && (is_audio_only_container(container) || is_video_only_container(container)) {
        return reject("ML upscaling requires an audio-capable video container");
    }
    Ok(())
}

fn crop_enabled(config: &ConversionConfig) -> (r: bool)
    ensures
        r == (config.crop matches Some(k) && k.enabled),
{
    match &config.crop {
        Some(k) => k.enabled,
        None => false,
    }
}

fn check_copy(config: &ConversionConfig) -> (r: Result<(), ConversionError>)
    ensures
        reports(r, copy_finding(config)),
{
    if !is_copy_requested(config) {
        return Ok(());
    }
    if is_video_only_container(config.container.as_str()) {
        return reject("Stream copy mode is not available for video-only containers");
    }
    if is_upscale_requested(config) {
        return reject("ML upscaling requires re-encoding mode");
    }
    if burns_subtitles(config) {
        return reject("Burn-in subtitles are unavailable in stream copy mode");
    }
    if is_volume_changed(config.audio_volume) {
        return reject("Audio volume adjustment requires re-encoding");
    }
    if config.audio_normalize {
        return reject("Audio normalization requires re-encoding");
    }
    if !str_eq(config.rotation.as_str(), "0") || config.flip_horizontal || config.flip_vertical {
        return reject("Video transforms require re-encoding");
    }
    if crop_enabled(config) {
        return reject("Cropping requires re-encoding");
    }
    if !str_eq(config.resolution.as_str(), "original") || !str_eq(
        config.fps.as_str(),
        "original",
    ) {
        return reject("Resolution and FPS changes require re-encoding");
    }
    if config.hw_decode {
        return reject("Hardware decoding is unavailable in stream copy mode");
    }
    Ok(())
}

fn check_tracks(config: &ConversionConfig) -> (r: Result<(), ConversionError>)
    ensures
        reports(r, track_finding(config)),
{
    let container = config.container.as_str();
    if !container_supports_audio(container) && config.selected_audio_tracks.len() > 0 {
        return reject("Audio track selection is not available for this container");
    }
    if !container_supports_subtitles(container) && (config.selected_subtitle_tracks.len() > 0
        || burns_subtitles(config)) {
        return reject("Subtitle options are not available for this container");
    }
    Ok(())
}

fn check_gif(config: &ConversionConfig) -> (r: Result<(), ConversionError>)
    ensures
        reports(r, gif_finding(config)),
{
    if !is_video_only_container(config.container.as_str()) {
        return Ok(());
    }
    if config.gif_colors < 2 || config.gif_colors > 256 {
        let colors = u64_to_string(config.gif_colors as u64);
        return reject_with("GIF palette size must be between 2 and 256 colors: ", colors.as_str());
    }
    if !is_known_dither(config.gif_dither.as_str()) {
        return reject_with("Invalid GIF dither mode: ", config.gif_dither.as_str());
    }
    Ok(())
}

/// Checks the rules that bear on the configuration alone.
pub fn validate_config(config: &ConversionConfig) -> (r: Result<(), ConversionError>)
    ensures
        reports(r, config_finding(config)),
{
    check_mode(config)?;
    check_times(config)?;
    check_resolution(config)?;
    check_bitrate(config)?;
    check_codecs(config)?;
    check_upscale(config)?;
    check_copy(config)?;
    check_tracks(config)?;
    check_gif(config)
}

/// Validates a request before anything is synthesized or started.  `input`
/// is what the caller found at `file_path`.  The request is accepted exactly
/// when `task_finding` finds nothing; otherwise it is rejected as invalid
/// input, and the reason is that of the first rule that fails.
pub fn validate_task_input(file_path: &str, input: InputFile, config: &ConversionConfig) -> (r:
    Result<(), ConversionError>)
    ensures
        reports(r, task_finding(file_path@, input, config)),
{
    check_input(file_path, input)?;
    validate_config(config)
}

/// What the rules table says of the two encoders of a re-encode: the video
/// encoder is listed unless the container is audio-only, and the audio
/// encoder is listed if the container takes audio.
pub open spec fn table_allows(c: &ConversionConfig) -> bool {
    &&& audio_only(c.container@) || video_codec_allowed(c.container@, c.video_codec@)
    &&& !supports_audio(c.container@) || audio_codec_allowed(c.container@, c.audio_codec@)
}

/// The validator follows the rules table.  A re-encode that is accepted
/// uses encoders that the table allows for its container, and where every
/// other rule is met, a re-encode is accepted exactly when the table allows
/// its encoders.
pub proof fn lemma_validation_follows_table(
    file_path: Seq<char>,
    input: InputFile,
    c: &ConversionConfig,
)
    requires
        !copy_requested(c),
    ensures
        task_finding(file_path, input, c) is None ==> table_allows(c),
        codec_finding(c) is None <==> table_allows(c),
        input_finding(file_path, input) is None && mode_finding(c) is None && time_finding(c)
            is None && resolution_finding(c) is None && bitrate_finding(c) is None
            && upscale_finding(c) is None && copy_finding(c) is None && track_finding(c) is None
            && gif_finding(c) is None ==> (task_finding(file_path, input, c) is None
            <==> table_allows(c)),
{
}

/// What a stream copy cannot do: write a video-only container, burn in
/// subtitles, change the volume, normalize, rotate, flip, crop, scale,
/// change the frame rate, or decode in hardware.
pub open spec fn changes_streams(c: &ConversionConfig) -> bool {
    ||| video_only(c.container@)
    ||| has_burn_subtitles(c)
    ||| volume_changed(c.audio_volume)
    ||| c.audio_normalize
    ||| c.rotation@ != "0"@
    ||| c.flip_horizontal
    ||| c.flip_vertical
    ||| (c.crop matches Some(k) && k.enabled)
    ||| c.resolution@ != "original"@
    ||| c.fps@ != "original"@
    ||| c.hw_decode
}

/// A stream copy is rejected as soon as one of the things it cannot do is
/// asked for, whatever the rest of the request says.
pub proof fn lemma_copy_rejects_changes(
    file_path: Seq<char>,
    input: InputFile,
    c: &ConversionConfig,
)
    requires
        copy_requested(c),
        changes_streams(c),
    ensures
        copy_finding(c) is Some,
        config_finding(c) is Some,
        task_finding(file_path, input, c) is Some,
{
}

} // verus!
