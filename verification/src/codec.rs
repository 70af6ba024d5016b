//! Codec arguments: encoder, rate control, preset and encoder-specific
//! tuning for video; encoder, bitrate and channel layout for audio.

use vstd::prelude::*;
use vstd::string::*;
use crate::media_rules::{one_of, texts};
use crate::text::{decimal, push_arg, push_owned, push_pair, str_eq, u64_to_string, views};
use crate::types::ConversionConfig;

verus! {

/// The NVIDIA hardware encoders.
pub open spec fn is_nvenc(codec: Seq<char>) -> bool {
    seq!["h264_nvenc"@, "hevc_nvenc"@, "av1_nvenc"@].contains(codec)
}

/// The Apple hardware encoders.
pub open spec fn is_videotoolbox(codec: Seq<char>) -> bool {
    seq!["h264_videotoolbox"@, "hevc_videotoolbox"@].contains(codec)
}

pub fn is_nvenc_codec(codec: &str) -> (r: bool)
    ensures
        r == is_nvenc(codec@),
{
    let known = ["h264_nvenc", "hevc_nvenc", "av1_nvenc"];
    assert(texts(known@) =~= seq!["h264_nvenc"@, "hevc_nvenc"@, "av1_nvenc"@]);
    one_of(codec, known.as_slice())
}

pub fn is_videotoolbox_codec(codec: &str) -> (r: bool)
    ensures
        r == is_videotoolbox(codec@),
{
    let known = ["h264_videotoolbox", "hevc_videotoolbox"];
    assert(texts(known@) =~= seq!["h264_videotoolbox"@, "hevc_videotoolbox"@]);
    one_of(codec, known.as_slice())
}

/// The NVENC preset that stands for a software encoder preset; `p4` for a
/// preset that is not known.
pub open spec fn nvenc_preset(preset: Seq<char>) -> Seq<char> {
    if preset == "ultrafast"@ || preset == "superfast"@ {
        "p1"@
    } else if preset == "veryfast"@ {
        "p2"@
    } else if preset == "faster"@ || preset == "fast"@ {
        "p3"@
    } else if preset == "medium"@ {
        "p4"@
    } else if preset == "slow"@ {
        "p5"@
    } else if preset == "slower"@ {
        "p6"@
    } else if preset == "veryslow"@ {
        "p7"@
    } else {
        "p4"@
    }
}

pub fn map_nvenc_preset(preset: &str) -> (r: String)
    ensures
        r@ == nvenc_preset(preset@),
{
    let p = if str_eq(preset, "ultrafast") || str_eq(preset, "superfast") {
        "p1"
    } else if str_eq(preset, "veryfast") {
        "p2"
    } else if str_eq(preset, "faster") || str_eq(preset, "fast") {
        "p3"
    } else if str_eq(preset, "medium") {
        "p4"
    } else if str_eq(preset, "slow") {
        "p5"
    } else if str_eq(preset, "slower") {
        "p6"
    } else if str_eq(preset, "veryslow") {
        "p7"
    } else {
        "p4"
    };
    String::from_str(p)
}

/// Hardware decode flags for the hardware family of the target encoder.
pub open spec fn hwaccel_args(video_codec: Seq<char>) -> Seq<Seq<char>> {
    if is_nvenc(video_codec) {
        seq!["-hwaccel"@, "cuda"@]
    } else if is_videotoolbox(video_codec) {
        seq!["-hwaccel"@, "videotoolbox"@]
    } else {
        seq!["-hwaccel"@, "auto"@]
    }
}

pub fn get_hwaccel_args(video_codec: &str) -> (r: Vec<String>)
    ensures
        views(r@) == hwaccel_args(video_codec@),
{
    let mut out: Vec<String> = Vec::new();
    let device = if is_nvenc_codec(video_codec) {
        "cuda"
    } else if is_videotoolbox_codec(video_codec) {
        "videotoolbox"
    } else {
        "auto"
    };
    push_pair(&mut out, "-hwaccel", device);
    assert(views(out@) =~= hwaccel_args(video_codec@));
    out
}

/// The constant-quality level of an NVENC encoder for a quality from 1 to
/// 100: `52 - quality / 2`, kept within 1 to 51.
pub open spec fn nvenc_cq(quality: nat) -> nat {
    let raw = 52 - (quality / 2) as int;
    if raw < 1 {
        1
    } else if raw > 51 {
        51
    } else {
        raw as nat
    }
}

pub fn nvenc_quality_level(quality: u32) -> (r: u32)
    ensures
        r == nvenc_cq(quality as nat),
        1 <= r <= 51,
{
    let half = quality / 2;
    if half >= 51 {
        1
    } else if half == 0 {
        51
    } else {
        52 - half
    }
}

/// Rate control: a numeric bitrate, or the encoder's own quality scale.
pub open spec fn rate_control_args(c: &ConversionConfig) -> Seq<Seq<char>> {
    if c.video_bitrate_mode@ == "bitrate"@ {
        seq!["-b:v"@, c.video_bitrate@ + "k"@]
    } else if is_nvenc(c.video_codec@) {
        seq!["-rc:v"@, "vbr"@, "-cq:v"@, decimal(nvenc_cq(c.quality as nat))]
    } else if is_videotoolbox(c.video_codec@) {
        seq!["-q:v"@, decimal(c.quality as nat)]
    } else {
        seq!["-crf"@, decimal(c.crf as nat)]
    }
}

pub open spec fn preset_args(c: &ConversionConfig) -> Seq<Seq<char>> {
    if is_videotoolbox(c.video_codec@) {
        seq![]
    } else if is_nvenc(c.video_codec@) {
        seq!["-preset"@, nvenc_preset(c.preset@)]
    } else {
        seq!["-preset"@, c.preset@]
    }
}

pub open spec fn flag_if(on: bool, flag: Seq<char>) -> Seq<Seq<char>> {
    if on {
        seq![flag, "1"@]
    } else {
        seq![]
    }
}

pub open spec fn tuning_args(c: &ConversionConfig) -> Seq<Seq<char>> {
    flag_if(is_nvenc(c.video_codec@) && c.nvenc_spatial_aq, "-spatial_aq"@) + flag_if(
        is_nvenc(c.video_codec@) && c.nvenc_temporal_aq,
        "-temporal_aq"@,
    ) + flag_if(is_videotoolbox(c.video_codec@) && c.videotoolbox_allow_sw, "-allow_sw"@)
}

/// Everything that selects and tunes the video encoder.
pub open spec fn video_codec_args(c: &ConversionConfig) -> Seq<Seq<char>> {
    seq!["-c:v"@, c.video_codec@] + rate_control_args(c) + preset_args(c) + tuning_args(c)
}

fn push_flag_if(args: &mut Vec<String>, on: bool, flag: &str)
    ensures
        views(final(args)@) == views(old(args)@) + flag_if(on, flag@),
{
    if on {
        push_pair(args, flag, "1");
    }
    assert(views(args@) =~= views(old(args)@) + flag_if(on, flag@));
}

fn push_rate_control(args: &mut Vec<String>, config: &ConversionConfig)
    ensures
        views(final(args)@) == views(old(args)@) + rate_control_args(config),
{
    if str_eq(config.video_bitrate_mode.as_str(), "bitrate") {
        push_arg(args, "-b:v");
        push_owned(args, String::from_str(config.video_bitrate.as_str()).concat("k"));
    } else if is_nvenc_codec(config.video_codec.as_str()) {
        push_pair(args, "-rc:v", "vbr");
        push_arg(args, "-cq:v");
        push_owned(args, u64_to_string(nvenc_quality_level(config.quality) as u64));
    } else if is_videotoolbox_codec(config.video_codec.as_str()) {
        push_arg(args, "-q:v");
        push_owned(args, u64_to_string(config.quality as u64));
    } else {
        push_arg(args, "-crf");
        push_owned(args, u64_to_string(config.crf as u64));
    }
    assert(views(args@) =~= views(old(args)@) + rate_control_args(config));
}

fn push_preset(args: &mut Vec<String>, config: &ConversionConfig)
    ensures
        views(final(args)@) == views(old(args)@) + preset_args(config),
{
    if is_videotoolbox_codec(config.video_codec.as_str()) {
    } else if is_nvenc_codec(config.video_codec.as_str()) {
        push_arg(args, "-preset");
        push_owned(args, map_nvenc_preset(config.preset.as_str()));
    } else {
        push_pair(args, "-preset", config.preset.as_str());
    }
    assert(views(args@) =~= views(old(args)@) + preset_args(config));
}

/// Appends the arguments that select and tune the video encoder.
pub fn add_video_codec_args(args: &mut Vec<String>, config: &ConversionConfig)
    ensures
        views(final(args)@) == views(old(args)@) + video_codec_args(config),
{
    let nvenc = is_nvenc_codec(config.video_codec.as_str());
    let videotoolbox = is_videotoolbox_codec(config.video_codec.as_str());
    push_pair(args, "-c:v", config.video_codec.as_str());
    push_rate_control(args, config);
    push_preset(args, config);
    push_flag_if(args, nvenc && config.nvenc_spatial_aq, "-spatial_aq");
    push_flag_if(args, nvenc && config.nvenc_temporal_aq, "-temporal_aq");
    push_flag_if(args, videotoolbox && config.videotoolbox_allow_sw, "-allow_sw");
    assert(views(args@) =~= views(old(args)@) + video_codec_args(config));
}

/// Audio encoders that take no bitrate.
pub open spec fn is_lossless_audio(codec: Seq<char>) -> bool {
    seq!["flac"@, "alac"@, "pcm_s16le"@].contains(codec)
}

pub fn is_lossless_audio_codec(codec: &str) -> (r: bool)
    ensures
        r == is_lossless_audio(codec@),
{
    let known = ["flac", "alac", "pcm_s16le"];
    assert(texts(known@) =~= seq!["flac"@, "alac"@, "pcm_s16le"@]);
    one_of(codec, known.as_slice())
}

/// The audio encoder and, unless it is lossless, its bitrate.
pub open spec fn audio_encoder_args(c: &ConversionConfig) -> Seq<Seq<char>> {
    if is_lossless_audio(c.audio_codec@) {
        seq!["-c:a"@, c.audio_codec@]
    } else {
        seq!["-c:a"@, c.audio_codec@, "-b:a"@, c.audio_bitrate@ + "k"@]
    }
}

/// The channel count for a named layout.
pub open spec fn channel_args(c: &ConversionConfig) -> Seq<Seq<char>> {
    if c.audio_channels@ == "stereo"@ {
        seq!["-ac"@, "2"@]
    } else if c.audio_channels@ == "mono"@ {
        seq!["-ac"@, "1"@]
    } else {
        seq![]
    }
}

pub open spec fn audio_codec_args(c: &ConversionConfig) -> Seq<Seq<char>> {
    audio_encoder_args(c) + channel_args(c)
}

pub fn add_audio_encoder_args(args: &mut Vec<String>, config: &ConversionConfig)
    ensures
        views(final(args)@) == views(old(args)@) + audio_encoder_args(config),
{
    push_pair(args, "-c:a", config.audio_codec.as_str());
    if !is_lossless_audio_codec(config.audio_codec.as_str()) {
        push_arg(args, "-b:a");
        push_owned(args, String::from_str(config.audio_bitrate.as_str()).concat("k"));
    }
    assert(views(args@) =~= views(old(args)@) + audio_encoder_args(config));
}

pub fn add_channel_args(args: &mut Vec<String>, config: &ConversionConfig)
    ensures
        views(final(args)@) == views(old(args)@) + channel_args(config),
{
    if str_eq(config.audio_channels.as_str(), "stereo") {
        push_pair(args, "-ac", "2");
    } else if str_eq(config.audio_channels.as_str(), "mono") {
        push_pair(args, "-ac", "1");
    }
    assert(views(args@) =~= views(old(args)@) + channel_args(config));
}

/// Appends the audio encoder, its bitrate and the channel layout.
pub fn add_audio_codec_args(args: &mut Vec<String>, config: &ConversionConfig)
    ensures
        views(final(args)@) == views(old(args)@) + audio_codec_args(config),
{
    add_audio_encoder_args(args, config);
    add_channel_args(args, config);
    assert(views(args@) =~= views(old(args)@) + audio_codec_args(config));
}

/// The subtitle encoder that a container takes; streams are copied where
/// the container has no text format of its own.
pub open spec fn subtitle_encoder(container: Seq<char>) -> Seq<char> {
    if container == "mp4"@ || container == "mov"@ {
        "mov_text"@
    } else if container == "webm"@ {
        "webvtt"@
    } else {
        "copy"@
    }
}

pub open spec fn subtitle_codec_args(c: &ConversionConfig) -> Seq<Seq<char>> {
    seq!["-c:s"@, subtitle_encoder(c.container@)]
}

pub fn add_subtitle_codec_args(args: &mut Vec<String>, config: &ConversionConfig)
    ensures
        views(final(args)@) == views(old(args)@) + subtitle_codec_args(config),
{
    let container = config.container.as_str();
    let encoder = if str_eq(container, "mp4") || str_eq(container, "mov") {
        "mov_text"
    } else if str_eq(container, "webm") {
        "webvtt"
    } else {
        "copy"
    };
    push_pair(args, "-c:s", encoder);
}

/// The output frame rate, unless the source's is kept.
pub open spec fn fps_args(c: &ConversionConfig) -> Seq<Seq<char>> {
    if c.fps@ == "original"@ {
        seq![]
    } else {
        seq!["-r"@, c.fps@]
    }
}

pub fn add_fps_args(args: &mut Vec<String>, config: &ConversionConfig)
    ensures
        views(final(args)@) == views(old(args)@) + fps_args(config),
{
    if !str_eq(config.fps.as_str(), "original") {
        push_pair(args, "-r", config.fps.as_str());
    }
    assert(views(args@) =~= views(old(args)@) + fps_args(config));
}

} // verus!
