//! The frame upscaling pipeline: what each of its three stages is asked to
//! do.
//!
//! Decoding extracts the trimmed, filtered source as numbered images;
//! upscaling runs the model over them; encoding reads the upscaled images
//! back as a sequence and takes audio and subtitles from the original source
//! as a second input.

use vstd::prelude::*;
use vstd::string::*;
use crate::args::{
    add_metadata_args, filter_args, metadata_args, push_filter_args, push_seek, push_track_maps,
    push_window, seek_args, stream_maps, window_args,
};
use crate::codec::{
    add_audio_encoder_args, add_channel_args, add_fps_args, add_video_codec_args,
    audio_encoder_args, channel_args, fps_args, video_codec_args,
};
use crate::error::ConversionError;
use crate::filters::{
    audio_filters, build_audio_filters, build_video_filters, burns_subtitles, has_burn_subtitles,
    video_filters,
};
use crate::output_path::{build_output_path, output_path};
use crate::text::{decimal, push_arg, push_decimal, push_owned, push_pair, str_eq, views};
use crate::timecode::{parse_time, timecode_millis};
use crate::types::{opt_view, ConversionConfig, ConversionTask, ProbeMetadata};

verus! {

/// The upscaling presets.
#[derive(Clone, Copy, Debug, PartialEq, Eq, Structural)]
pub enum UpscaleMode {
    /// Twice the width and height.
    X2,
    /// Four times the width and height.
    X4,
}

/// The preset that a configuration names.
pub open spec fn requested_mode(ml_upscale: Option<String>) -> Option<UpscaleMode> {
    match ml_upscale {
        Some(m) => if m@ == "esrgan-2x"@ {
            Some(UpscaleMode::X2)
        } else if m@ == "esrgan-4x"@ {
            Some(UpscaleMode::X4)
        } else {
            None
        },
        None => None,
    }
}

impl UpscaleMode {
    pub open spec fn factor_text(self) -> Seq<char> {
        match self {
            UpscaleMode::X2 => "2"@,
            UpscaleMode::X4 => "4"@,
        }
    }

    pub open spec fn model_text(self) -> Seq<char> {
        match self {
            UpscaleMode::X2 => "realesr-animevideov3-x2"@,
            UpscaleMode::X4 => "realesr-animevideov3-x4"@,
        }
    }

    /// The scale factor as the upscaler takes it.
    pub fn factor(self) -> (r: &'static str)
        ensures
            r@ == self.factor_text(),
    {
        match self {
            UpscaleMode::X2 => "2",
            UpscaleMode::X4 => "4",
        }
    }

    /// The name of the model for the factor.
    pub fn model(self) -> (r: &'static str)
        ensures
            r@ == self.model_text(),
    {
        match self {
            UpscaleMode::X2 => "realesr-animevideov3-x2",
            UpscaleMode::X4 => "realesr-animevideov3-x4",
        }
    }
}

/// Reads the preset of a configuration; anything but the two presets is
/// invalid input.
pub fn upscale_mode(config: &ConversionConfig) -> (r: Result<UpscaleMode, ConversionError>)
    ensures
        match r {
            Ok(mode) => requested_mode(config.ml_upscale) == Some(mode),
            Err(e) => requested_mode(config.ml_upscale) is None && e is InvalidInput && e.reason()
                == "Invalid upscale mode"@,
        },
{
    match &config.ml_upscale {
        Some(m) => {
            if str_eq(m.as_str(), "esrgan-2x") {
                return Ok(UpscaleMode::X2);
            } else if str_eq(m.as_str(), "esrgan-4x") {
                return Ok(UpscaleMode::X4);
            }
        },
        None => {},
    }
    Err(ConversionError::InvalidInput(String::from_str("Invalid upscale mode")))
}

/// Frames per second, in thousandths, assumed where the prober found none.
pub const DEFAULT_FRAME_RATE: u32 = 30_000;

/// A time in milliseconds, or `default` where there is none or it is no
/// timecode.
pub open spec fn millis_or(t: Option<String>, default: nat) -> nat {
    match t {
        Some(s) => match timecode_millis(s@) {
            Some(ms) => ms,
            None => default,
        },
        None => default,
    }
}

/// The length of the trim window in milliseconds: from the start, or zero,
/// to the end, or the duration of the source.
pub open spec fn active_millis(c: &ConversionConfig, duration: Option<String>) -> nat {
    let start = millis_or(c.start_time, 0);
    let end = millis_or(c.end_time, millis_or(duration, 0));
    if end > start {
        (end - start) as nat
    } else {
        0
    }
}

/// The frames in `millis` milliseconds at `rate` thousandths of a frame per
/// second, rounded up, and held at the largest `u32`.
pub open spec fn expected_frames(millis: nat, rate: nat) -> nat {
    let frames = (millis * rate + 999_999) / 1_000_000;
    if frames > u32::MAX {
        u32::MAX as nat
    } else {
        frames
    }
}

fn read_millis_or(t: &Option<String>, default: u64) -> (r: u64)
    ensures
        r == millis_or(*t, default as nat),
{
    match t {
        Some(s) => match parse_time(s.as_str()) {
            Some(ms) => ms,
            None => default,
        },
        None => default,
    }
}

/// The length of the trim window of `config` over a source of the probed
/// duration.
pub fn active_duration(config: &ConversionConfig, duration: &Option<String>) -> (r: u64)
    ensures
        r == active_millis(config, *duration),
{
    let full = read_millis_or(duration, 0);
    let start = read_millis_or(&config.start_time, 0);
    let end = read_millis_or(&config.end_time, full);
    if end > start {
        end - start
    } else {
        0
    }
}

/// The number of frames that decoding is expected to extract.
pub fn estimate_frames(millis: u64, rate: u32) -> (r: u32)
    ensures
        r == expected_frames(millis as nat, rate as nat),
{
    assert((millis as u128) * (rate as u128) <= 0xffff_ffff_ffff_ffff * 0xffff_ffff)
        by (nonlinear_arith)
        requires
            millis <= 0xffff_ffff_ffff_ffff,
            rate <= 0xffff_ffff,
    ;
    let frames: u128 = ((millis as u128) * (rate as u128) + 999_999) / 1_000_000;
    if frames > 0xffff_ffff {
        0xffff_ffff
    } else {
        frames as u32
    }
}

/// A frame rate in thousandths as a decimal number without trailing zeros.
pub open spec fn rate_text(rate: nat) -> Seq<char> {
    let whole = decimal(rate / 1000);
    let f = rate % 1000;
    if f == 0 {
        whole
    } else if f % 100 == 0 {
        whole + "."@ + decimal(f / 100)
    } else if f % 10 == 0 {
        whole + "."@ + decimal(f / 100) + decimal(f / 10 % 10)
    } else {
        whole + "."@ + decimal(f / 100) + decimal(f / 10 % 10) + decimal(f % 10)
    }
}

pub fn format_rate(rate: u32) -> (r: String)
    ensures
        r@ == rate_text(rate as nat),
{
    let mut out = String::new();
    push_decimal(&mut out, (rate / 1000) as u64);
    let f = (rate % 1000) as u64;
    if f != 0 {
        out.append(".");
        push_decimal(&mut out, f / 100);
        if f % 100 != 0 {
            push_decimal(&mut out, f / 10 % 10);
            if f % 10 != 0 {
                push_decimal(&mut out, f % 10);
            }
        }
    }
    assert(out@ =~= rate_text(rate as nat));
    out
}

/// What is settled before the first stage starts.
#[derive(Debug)]
pub struct UpscalePlan {
    pub mode: UpscaleMode,
    pub output_path: String,
    /// Frames per second of the source, in thousandths.
    pub frame_rate: u32,
    /// The number of frames that decoding is expected to extract.
    pub expected_frames: u32,
}

/// The frame rate that the plan works with.
pub open spec fn source_rate(probe: &ProbeMetadata) -> u32 {
    match probe.frame_rate {
        Some(rate) => rate,
        None => DEFAULT_FRAME_RATE,
    }
}

/// Plans the pipeline for `task` over the probed source: the preset, where
/// the result goes, the frame rate, and the expected number of frames in the
/// trim window.  Fails as invalid input exactly when the task names no
/// preset.
pub fn plan_upscale(task: &ConversionTask, probe: &ProbeMetadata) -> (r: Result<
    UpscalePlan,
    ConversionError,
>)
    ensures
        match r {
            Ok(plan) => {
                &&& requested_mode(task.config.ml_upscale) == Some(plan.mode)
                &&& plan.output_path@ == output_path(
                    task.file_path@,
                    task.config.container@,
                    opt_view(task.output_name),
                )
                &&& plan.frame_rate == source_rate(probe)
                &&& plan.expected_frames == expected_frames(
                    active_millis(&task.config, probe.duration),
                    source_rate(probe) as nat,
                )
            },
            Err(e) => requested_mode(task.config.ml_upscale) is None && e is InvalidInput
                && e.reason() == "Invalid upscale mode"@,
        },
{
    let mode = upscale_mode(&task.config)?;
    let name = match &task.output_name {
        Some(n) => Some(n.clone()),
        None => None,
    };
    let output_path = build_output_path(
        task.file_path.as_str(),
        task.config.container.as_str(),
        name,
    );
    let frame_rate = match probe.frame_rate {
        Some(rate) => rate,
        None => DEFAULT_FRAME_RATE,
    };
    let millis = active_duration(&task.config, &probe.duration);
    Ok(
        UpscalePlan {
            mode,
            output_path,
            frame_rate,
            expected_frames: estimate_frames(millis, frame_rate),
        },
    )
}

/// The name of the directory that holds the frames of one task.
pub fn work_dir_name(task_id: &str) -> (r: String)
    ensures
        r@ == "frame_upscale_"@ + task_id@,
{
    String::from_str("frame_upscale_").concat(task_id)
}

/// The decode stage: the trimmed source, flipped, rotated, cropped and with
/// subtitles burned in as configured, written as images after
/// `frame_pattern`.
pub open spec fn decode_args(c: &ConversionConfig, file_path: Seq<char>, frame_pattern: Seq<char>)
    -> Seq<Seq<char>> {
    seek_args(c) + seq!["-i"@, file_path] + window_args(c) + filter_args(
        "-vf"@,
        video_filters(c, false),
    ) + seq![frame_pattern]
}

fn push_seek_and_input(args: &mut Vec<String>, config: &ConversionConfig, file_path: &str)
    ensures
        views(final(args)@) == views(old(args)@) + seek_args(config) + seq!["-i"@, file_path@],
{
    push_seek(args, config);
    push_pair(args, "-i", file_path);
    assert(views(args@) =~= views(old(args)@) + seek_args(config) + seq!["-i"@, file_path@]);
}

/// Synthesizes the arguments of the decode stage.
pub fn build_decode_args(config: &ConversionConfig, file_path: &str, frame_pattern: &str) -> (r:
    Vec<String>)
    ensures
        views(r@) == decode_args(config, file_path@, frame_pattern@),
{
    let mut args: Vec<String> = Vec::new();
    push_seek_and_input(&mut args, config, file_path);
    push_window(&mut args, config);
    let chain = build_video_filters(config, false);
    push_filter_args(&mut args, "-vf", &chain);
    push_arg(&mut args, frame_pattern);
    assert(views(args@) =~= decode_args(config, file_path@, frame_pattern@));
    args
}

/// The upscale stage: every image of `input_dir` through the model of the
/// preset into `output_dir`.
pub open spec fn upscaler_args(
    mode: UpscaleMode,
    input_dir: Seq<char>,
    output_dir: Seq<char>,
    models_dir: Seq<char>,
) -> Seq<Seq<char>> {
    seq![
        "-v"@,
        "-i"@,
        input_dir,
        "-o"@,
        output_dir,
        "-s"@,
        mode.factor_text(),
        "-f"@,
        "png"@,
        "-m"@,
        models_dir,
        "-n"@,
        mode.model_text(),
        "-j"@,
        "4:4:4"@,
        "-g"@,
        "0"@,
        "-t"@,
        "0"@,
    ]
}

/// Synthesizes the arguments of the upscale stage.
pub fn build_upscaler_args(mode: UpscaleMode, input_dir: &str, output_dir: &str, models_dir: &str)
    -> (r: Vec<String>)
    ensures
        views(r@) == upscaler_args(mode, input_dir@, output_dir@, models_dir@),
{
    let mut args: Vec<String> = Vec::new();
    push_arg(&mut args, "-v");
    push_pair(&mut args, "-i", input_dir);
    push_pair(&mut args, "-o", output_dir);
    push_pair(&mut args, "-s", mode.factor());
    push_pair(&mut args, "-f", "png");
    push_pair(&mut args, "-m", models_dir);
    push_pair(&mut args, "-n", mode.model());
    push_pair(&mut args, "-j", "4:4:4");
    push_pair(&mut args, "-g", "0");
    push_pair(&mut args, "-t", "0");
    assert(views(args@) =~= upscaler_args(mode, input_dir@, output_dir@, models_dir@));
    args
}

/// The rate at which the upscaled images are read: the target frame rate,
/// or that of the source.
pub open spec fn sequence_rate(c: &ConversionConfig, source_rate: u32) -> Seq<char> {
    if c.fps@ == "original"@ {
        rate_text(source_rate as nat)
    } else {
        c.fps@
    }
}

/// The audio of the encode stage: encoded as configured where tracks are
/// selected, else copied.
pub open spec fn sequence_audio_args(c: &ConversionConfig) -> Seq<Seq<char>> {
    (if c.selected_audio_tracks@.len() > 0 {
        audio_encoder_args(c)
    } else {
        seq!["-c:a"@, "copy"@]
    }) + channel_args(c)
}

/// The encode stage.  The upscaled images are the first input, the original
/// source the second; video comes from the first, audio and subtitles from
/// the second, and the shorter of the two ends the output.
pub open spec fn sequence_args(
    c: &ConversionConfig,
    source_rate: u32,
    frame_pattern: Seq<char>,
    file_path: Seq<char>,
    output: Seq<char>,
) -> Seq<Seq<char>> {
    seq![
        "-framerate"@,
        sequence_rate(c, source_rate),
        "-start_number"@,
        "1"@,
        "-i"@,
        frame_pattern,
    ] + seek_args(c) + seq!["-i"@, file_path] + metadata_args(&c.metadata) + seq![
        "-map"@,
        "0:v:0"@,
    ] + stream_maps("1:"@, c.selected_audio_tracks@, "1:a?"@, true) + stream_maps(
        "1:"@,
        c.selected_subtitle_tracks@,
        "1:s?"@,
        true,
    ) + video_codec_args(c) + sequence_audio_args(c) + filter_args("-af"@, audio_filters(c)) + (
    if has_burn_subtitles(c) {
        seq![]
    } else {
        seq!["-c:s"@, "copy"@]
    }) + fps_args(c) + seq!["-pix_fmt"@, "yuv420p"@, "-shortest"@, output, "-y"@]
}

fn push_second_input_maps(args: &mut Vec<String>, tracks: &Vec<u32>, all: &str)
    ensures
        views(final(args)@) == views(old(args)@) + stream_maps("1:"@, tracks@, all@, true),
{
    if tracks.len() > 0 {
        push_track_maps(args, "1:", tracks);
    } else {
        push_pair(args, "-map", all);
    }
    assert(views(args@) =~= views(old(args)@) + stream_maps("1:"@, tracks@, all@, true));
}

fn push_sequence_audio(args: &mut Vec<String>, config: &ConversionConfig)
    ensures
        views(final(args)@) == views(old(args)@) + sequence_audio_args(config),
{
    if config.selected_audio_tracks.len() > 0 {
        add_audio_encoder_args(args, config);
    } else {
        push_pair(args, "-c:a", "copy");
    }
    add_channel_args(args, config);
    assert(views(args@) =~= views(old(args)@) + sequence_audio_args(config));
}

fn push_sequence_head(
    args: &mut Vec<String>,
    config: &ConversionConfig,
    source_rate: u32,
    frame_pattern: &str,
)
    ensures
        views(final(args)@) == views(old(args)@) + seq![
            "-framerate"@,
            sequence_rate(config, source_rate),
            "-start_number"@,
            "1"@,
            "-i"@,
            frame_pattern@,
        ],
{
    push_arg(args, "-framerate");
    if str_eq(config.fps.as_str(), "original") {
        push_owned(args, format_rate(source_rate));
    } else {
        push_arg(args, config.fps.as_str());
    }
    push_pair(args, "-start_number", "1");
    push_pair(args, "-i", frame_pattern);
    assert(views(args@) =~= views(old(args)@) + seq![
        "-framerate"@,
        sequence_rate(config, source_rate),
        "-start_number"@,
        "1"@,
        "-i"@,
        frame_pattern@,
    ]);
}

fn push_sequence_tail(args: &mut Vec<String>, config: &ConversionConfig, output: &str)
    ensures
        views(final(args)@) == views(old(args)@) + (if has_burn_subtitles(config) {
            seq![]
        } else {
            seq!["-c:s"@, "copy"@]
        }) + fps_args(config) + seq!["-pix_fmt"@, "yuv420p"@, "-shortest"@, output@, "-y"@],
{
    if !burns_subtitles(config) {
        push_pair(args, "-c:s", "copy");
    }
    add_fps_args(args, config);
    push_pair(args, "-pix_fmt", "yuv420p");
    push_arg(args, "-shortest");
    push_pair(args, output, "-y");
    assert(views(args@) =~= views(old(args)@) + (if has_burn_subtitles(config) {
        seq![]
    } else {
        seq!["-c:s"@, "copy"@]
    }) + fps_args(config) + seq!["-pix_fmt"@, "yuv420p"@, "-shortest"@, output@, "-y"@]);
}

/// Synthesizes the arguments of the encode stage.
pub fn build_sequence_args(
    config: &ConversionConfig,
    source_rate: u32,
    frame_pattern: &str,
    file_path: &str,
    output: &str,
) -> (r: Vec<String>)
    ensures
        views(r@) == sequence_args(config, source_rate, frame_pattern@, file_path@, output@),
{
    let mut args: Vec<String> = Vec::new();
    push_sequence_head(&mut args, config, source_rate, frame_pattern);
    push_seek_and_input(&mut args, config, file_path);
    add_metadata_args(&mut args, &config.metadata);
    push_pair(&mut args, "-map", "0:v:0");
    push_second_input_maps(&mut args, &config.selected_audio_tracks, "1:a?");
    push_second_input_maps(&mut args, &config.selected_subtitle_tracks, "1:s?");
    add_video_codec_args(&mut args, config);
    push_sequence_audio(&mut args, config);
    let chain = build_audio_filters(config);
    push_filter_args(&mut args, "-af", &chain);
    push_sequence_tail(&mut args, config, output);
    assert(views(args@) =~= sequence_args(
        config,
        source_rate,
        frame_pattern@,
        file_path@,
        output@,
    ));
    args
}

} // verus!
