//! The argument synthesizer: from a configuration to the ordered argument
//! vector of one transcoder invocation.
//!
//! The transcoder is order-sensitive.  Options that apply to the input come
//! first (hardware decoding, the start seek), then the input, then the trim
//! window, the metadata policy and the stream selection with its codecs and
//! filters, then the output path, and the overwrite flag last.

use vstd::prelude::*;
use vstd::string::*;
use crate::codec::{
    add_audio_codec_args, add_fps_args, add_subtitle_codec_args, add_video_codec_args,
    audio_codec_args, fps_args, get_hwaccel_args, hwaccel_args, subtitle_codec_args,
    video_codec_args,
};
use crate::filters::{
    audio_filters, build_audio_filters, build_video_filters, burns_subtitles, has_burn_subtitles,
    video_filters,
};
use crate::media_rules::{
    audio_only, container_supports_audio, container_supports_subtitles, is_audio_only_container,
    is_video_only_container, one_of, supports_audio, supports_subtitles, texts, video_only,
};
use crate::text::{
    decimal, extend_args, join, join_strings, push_arg, push_decimal, push_owned, push_pair,
    push_signed_decimal, signed_decimal, str_eq, trim, views,
};
use crate::timecode::{format_seconds, parse_time, seconds_text, timecode_millis};
use crate::types::{non_empty, ConversionConfig, MetadataConfig, MetadataMode};

verus! {

/// Whether streams are copied instead of re-encoded.
pub open spec fn copy_mode(c: &ConversionConfig) -> bool {
    c.processing_mode@ == "copy"@
}

pub fn is_copy_mode(config: &ConversionConfig) -> (r: bool)
    ensures
        r == copy_mode(config),
{
    str_eq(config.processing_mode.as_str(), "copy")
}

/// The seek to the start of the trim window; it stands before the input.
pub open spec fn seek_args(c: &ConversionConfig) -> Seq<Seq<char>> {
    match non_empty(c.start_time) {
        Some(start) => seq!["-ss"@, start],
        None => seq![],
    }
}

/// The end of the trim window.  With a start, the end is given as a
/// duration, since the seek before the input has already moved time zero;
/// without one, as an absolute position.
pub open spec fn window_args(c: &ConversionConfig) -> Seq<Seq<char>> {
    match non_empty(c.end_time) {
        None => seq![],
        Some(end) => match c.start_time {
            None => seq!["-to"@, end],
            Some(start) => if start@.len() == 0 {
                seq!["-to"@, end]
            } else {
                match (timecode_millis(start@), timecode_millis(end)) {
                    (Some(s), Some(e)) => if e > s {
                        seq!["-t"@, seconds_text((e - s) as nat)]
                    } else {
                        seq![]
                    },
                    _ => seq![],
                }
            },
        },
    }
}

/// One metadata field, written only when it has text.
pub open spec fn metadata_field(key: Seq<char>, value: Option<String>) -> Seq<Seq<char>> {
    match non_empty(value) {
        Some(v) => seq!["-metadata"@, key + "="@ + v],
        None => seq![],
    }
}

/// The configured metadata fields, in their fixed order.
pub open spec fn metadata_flags(m: &MetadataConfig) -> Seq<Seq<char>> {
    metadata_field("title"@, m.title) + metadata_field("artist"@, m.artist) + metadata_field(
        "album"@,
        m.album,
    ) + metadata_field("genre"@, m.genre) + metadata_field("date"@, m.date) + metadata_field(
        "comment"@,
        m.comment,
    )
}

/// The metadata policy.
pub open spec fn metadata_args(m: &MetadataConfig) -> Seq<Seq<char>> {
    match m.mode {
        MetadataMode::Clean => seq!["-map_metadata"@, "-1"@],
        MetadataMode::Replace => seq!["-map_metadata"@, "-1"@] + metadata_flags(m),
        MetadataMode::Preserve => metadata_flags(m),
    }
}

/// One stream map per selected track; `prefix` names the input.
pub open spec fn track_maps(prefix: Seq<char>, tracks: Seq<u32>) -> Seq<Seq<char>>
    decreases tracks.len(),
{
    if tracks.len() == 0 {
        seq![]
    } else {
        track_maps(prefix, tracks.drop_last()) + seq![
            "-map"@,
            prefix + decimal(tracks.last() as nat),
        ]
    }
}

/// The selected tracks, or every stream of the kind if none is selected and
/// `all_allowed` holds.
pub open spec fn stream_maps(
    prefix: Seq<char>,
    tracks: Seq<u32>,
    all: Seq<char>,
    all_allowed: bool,
) -> Seq<Seq<char>> {
    if tracks.len() > 0 {
        track_maps(prefix, tracks)
    } else if all_allowed {
        seq!["-map"@, all]
    } else {
        seq![]
    }
}

/// Stream copy: the streams to carry over and the copy codec for all of
/// them; no filters, no codec parameters.
pub open spec fn copy_args(c: &ConversionConfig) -> Seq<Seq<char>> {
    (if audio_only(c.container@) {
        seq![]
    } else {
        seq!["-map"@, "0:v?"@]
    }) + stream_maps(
        "0:"@,
        c.selected_audio_tracks@,
        "0:a?"@,
        supports_audio(c.container@),
    ) + stream_maps(
        "0:"@,
        c.selected_subtitle_tracks@,
        "0:s?"@,
        supports_subtitles(c.container@),
    ) + seq!["-c"@, "copy"@]
}

/// A chain of filters behind its flag, or nothing for an empty chain.
pub open spec fn filter_args(flag: Seq<char>, chain: Seq<Seq<char>>) -> Seq<Seq<char>> {
    if chain.len() > 0 {
        seq![flag, join(chain, ","@)]
    } else {
        seq![]
    }
}

pub open spec fn audio_only_args(c: &ConversionConfig) -> Seq<Seq<char>> {
    seq!["-vn"@] + stream_maps("0:"@, c.selected_audio_tracks@, "0:a?"@, true) + audio_codec_args(
        c,
    )
}

/// The dither algorithms that the palette filter knows.
pub open spec fn known_dither(dither: Seq<char>) -> bool {
    seq!["none"@, "bayer"@, "floyd_steinberg"@, "sierra2_4a"@].contains(dither)
}

/// Whether `dither` is a dither algorithm that the palette filter knows.
pub fn is_known_dither(dither: &str) -> (r: bool)
    ensures
        r == known_dither(dither@),
{
    let known = ["none", "bayer", "floyd_steinberg", "sierra2_4a"];
    assert(texts(known@) =~= seq!["none"@, "bayer"@, "floyd_steinberg"@, "sierra2_4a"@]);
    one_of(dither, known.as_slice())
}

/// The dither algorithm of the palette; one that is not known falls back to
/// `sierra2_4a`.
pub open spec fn gif_dither(dither: Seq<char>) -> Seq<char> {
    if known_dither(dither) {
        dither
    } else {
        "sierra2_4a"@
    }
}

/// The palette size, kept within 2 to 256.
pub open spec fn gif_palette_size(colors: u32) -> nat {
    if colors < 2 {
        2
    } else if colors > 256 {
        256
    } else {
        colors as nat
    }
}

/// The filters in front of the palette split: the video chain, then the
/// frame rate.
pub open spec fn gif_chain(c: &ConversionConfig) -> Seq<Seq<char>> {
    if c.fps@ == "original"@ {
        video_filters(c, true)
    } else {
        video_filters(c, true).push("fps="@ + c.fps@)
    }
}

/// The filter graph of a GIF: the chain, a split into a playback branch and
/// a palette branch, an adaptive palette, and the palette applied with the
/// dither algorithm.
pub open spec fn gif_filter_complex(c: &ConversionConfig) -> Seq<char> {
    "[0:v:0]"@ + (if gif_chain(c).len() == 0 {
        "split[gif_src][gif_palette_src]"@
    } else {
        join(gif_chain(c), ","@) + ",split[gif_src][gif_palette_src]"@
    }) + ";[gif_palette_src]palettegen=max_colors="@ + decimal(gif_palette_size(c.gif_colors))
        + ":stats_mode=single[gif_palette];[gif_src][gif_palette]paletteuse=dither="@
        + gif_dither(c.gif_dither@) + ":new=1[gif_out]"@
}

pub open spec fn gif_args(c: &ConversionConfig) -> Seq<Seq<char>> {
    seq![
        "-filter_complex"@,
        gif_filter_complex(c),
        "-map"@,
        "[gif_out]"@,
        "-an"@,
        "-c:v"@,
        "gif"@,
        "-loop"@,
        signed_decimal(c.gif_loop as int),
        "-f"@,
        "gif"@,
    ]
}

/// The subtitle streams of a re-encode: the selected ones, or all of them
/// unless subtitles are burned into the picture.
pub open spec fn subtitle_args(c: &ConversionConfig) -> Seq<Seq<char>> {
    if c.selected_subtitle_tracks@.len() > 0 {
        track_maps("0:"@, c.selected_subtitle_tracks@) + subtitle_codec_args(c)
    } else if !has_burn_subtitles(c) {
        seq!["-map"@, "0:s?"@] + subtitle_codec_args(c)
    } else {
        seq![]
    }
}

pub open spec fn general_args(c: &ConversionConfig) -> Seq<Seq<char>> {
    video_codec_args(c) + filter_args("-vf"@, video_filters(c, true)) + fps_args(c) + seq![
        "-map"@,
        "0:v:0"@,
    ] + stream_maps("0:"@, c.selected_audio_tracks@, "0:a?"@, true) + audio_codec_args(c)
        + subtitle_args(c)
}

/// The arguments of a re-encode, by container class.
pub open spec fn encode_args(c: &ConversionConfig) -> Seq<Seq<char>> {
    if audio_only(c.container@) {
        audio_only_args(c) + filter_args("-af"@, audio_filters(c))
    } else if video_only(c.container@) {
        gif_args(c)
    } else {
        general_args(c) + filter_args("-af"@, audio_filters(c))
    }
}

/// What stands before the input: hardware decoding, then the start seek.
pub open spec fn input_options(c: &ConversionConfig) -> Seq<Seq<char>> {
    (if c.hw_decode {
        hwaccel_args(c.video_codec@)
    } else {
        seq![]
    }) + seek_args(c)
}

/// What stands between the input and the output path.
pub open spec fn output_options(c: &ConversionConfig) -> Seq<Seq<char>> {
    window_args(c) + metadata_args(&c.metadata) + (if copy_mode(c) {
        copy_args(c)
    } else {
        encode_args(c)
    })
}

/// The argument vector of one transcoder invocation.
pub open spec fn ffmpeg_args(input: Seq<char>, output: Seq<char>, c: &ConversionConfig) -> Seq<
    Seq<char>,
> {
    input_options(c) + seq!["-i"@, input] + output_options(c) + seq![output, "-y"@]
}

/// The input flag directly follows the input options, and the vector ends
/// with the output path followed by the overwrite flag.
pub proof fn lemma_args_frame(input: Seq<char>, output: Seq<char>, c: &ConversionConfig)
    ensures
        ({
            let args = ffmpeg_args(input, output, c);
            let k = input_options(c).len() as int;
            &&& args.len() == k + output_options(c).len() + 4
            &&& args.take(k) == input_options(c)
            &&& args[k] == "-i"@
            &&& args[k + 1] == input
            &&& args[args.len() - 2] == output
            &&& args[args.len() - 1] == "-y"@
        }),
{
    let args = ffmpeg_args(input, output, c);
    let k = input_options(c).len() as int;
    assert(args.take(k) =~= input_options(c));
}

/// Appends the start seek.
pub fn push_seek(args: &mut Vec<String>, config: &ConversionConfig)
    ensures
        views(final(args)@) == views(old(args)@) + seek_args(config),
{
    match &config.start_time {
        Some(start) => {
            if !start.as_str().is_empty() {
                push_pair(args, "-ss", start.as_str());
            }
        },
        None => {},
    }
    assert(views(args@) =~= views(old(args)@) + seek_args(config));
}

/// Appends the end of the trim window.
pub fn push_window(args: &mut Vec<String>, config: &ConversionConfig)
    ensures
        views(final(args)@) == views(old(args)@) + window_args(config),
{
    match &config.end_time {
        Some(end) => {
            if !end.as_str().is_empty() {
                match &config.start_time {
                    Some(start) => {
                        if !start.as_str().is_empty() {
                            match (parse_time(start.as_str()), parse_time(end.as_str())) {
                                (Some(s), Some(e)) => {
                                    if e > s {
                                        push_arg(args, "-t");
                                        push_owned(args, format_seconds(e - s));
                                    }
                                },
                                _ => {},
                            }
                        } else {
                            push_pair(args, "-to", end.as_str());
                        }
                    },
                    None => {
                        push_pair(args, "-to", end.as_str());
                    },
                }
            }
        },
        None => {},
    }
    assert(views(args@) =~= views(old(args)@) + window_args(config));
}

fn push_metadata_field(args: &mut Vec<String>, key: &str, value: &Option<String>)
    ensures
        views(final(args)@) == views(old(args)@) + metadata_field(key@, *value),
{
    match value {
        Some(v) => {
            if !v.as_str().is_empty() {
                push_arg(args, "-metadata");
                let mut field = String::from_str(key);
                field.append("=");
                field.append(v.as_str());
                push_owned(args, field);
            }
        },
        None => {},
    }
    assert(views(args@) =~= views(old(args)@) + metadata_field(key@, *value));
}

/// Appends the configured metadata fields that have text, each as
/// `-metadata key=value`, in the order title, artist, album, genre, date,
/// comment.
pub fn add_metadata_flags(args: &mut Vec<String>, metadata: &MetadataConfig)
    ensures
        views(final(args)@) == views(old(args)@) + metadata_flags(metadata),
{
    push_metadata_field(args, "title", &metadata.title);
    push_metadata_field(args, "artist", &metadata.artist);
    push_metadata_field(args, "album", &metadata.album);
    push_metadata_field(args, "genre", &metadata.genre);
    push_metadata_field(args, "date", &metadata.date);
    push_metadata_field(args, "comment", &metadata.comment);
    assert(views(args@) =~= views(old(args)@) + metadata_flags(metadata));
}

/// Appends the metadata policy: strip, strip and rewrite, or add.
pub fn add_metadata_args(args: &mut Vec<String>, metadata: &MetadataConfig)
    ensures
        views(final(args)@) == views(old(args)@) + metadata_args(metadata),
{
    match metadata.mode {
        MetadataMode::Clean => {
            push_pair(args, "-map_metadata", "-1");
        },
        MetadataMode::Replace => {
            push_pair(args, "-map_metadata", "-1");
            add_metadata_flags(args, metadata);
        },
        MetadataMode::Preserve => {
            add_metadata_flags(args, metadata);
        },
    }
    assert(views(args@) =~= views(old(args)@) + metadata_args(metadata));
}

/// Appends one stream map per track of `tracks`.
pub fn push_track_maps(args: &mut Vec<String>, prefix: &str, tracks: &Vec<u32>)
    ensures
        views(final(args)@) == views(old(args)@) + track_maps(prefix@, tracks@),
{
    let ghost before = views(args@);
    let mut i: usize = 0;
    assert(views(args@) =~= before + track_maps(prefix@, tracks@.take(0)));
    while i < tracks.len()
        invariant
            i <= tracks.len(),
            views(args@) == before + track_maps(prefix@, tracks@.take(i as int)),
        decreases tracks.len() - i,
    {
        push_arg(args, "-map");
        let mut map = String::from_str(prefix);
        push_decimal(&mut map, tracks[i] as u64);
        push_owned(args, map);
        proof {
            let t = tracks@.take(i + 1);
            assert(t.drop_last() =~= tracks@.take(i as int));
            assert(t.last() == tracks@[i as int]);
            assert(views(args@) =~= before + track_maps(prefix@, t));
        }
        i += 1;
    }
    assert(tracks@.take(tracks.len() as int) =~= tracks@);
}

fn push_stream_maps(
    args: &mut Vec<String>,
    prefix: &str,
    tracks: &Vec<u32>,
    all: &str,
    all_allowed: bool,
)
    ensures
        views(final(args)@) == views(old(args)@) + stream_maps(
            prefix@,
            tracks@,
            all@,
            all_allowed,
        ),
{
    if tracks.len() > 0 {
        push_track_maps(args, prefix, tracks);
    } else if all_allowed {
        push_pair(args, "-map", all);
    }
    assert(views(args@) =~= views(old(args)@) + stream_maps(prefix@, tracks@, all@, all_allowed));
}

fn push_copy_args(args: &mut Vec<String>, config: &ConversionConfig)
    ensures
        views(final(args)@) == views(old(args)@) + copy_args(config),
{
    let container = config.container.as_str();
    if !is_audio_only_container(container) {
        push_pair(args, "-map", "0:v?");
    }
    push_stream_maps(
        args,
        "0:",
        &config.selected_audio_tracks,
        "0:a?",
        container_supports_audio(container),
    );
    push_stream_maps(
        args,
        "0:",
        &config.selected_subtitle_tracks,
        "0:s?",
        container_supports_subtitles(container),
    );
    push_pair(args, "-c", "copy");
    assert(views(args@) =~= views(old(args)@) + copy_args(config));
}

/// Appends a filter chain behind its flag.
pub fn push_filter_args(args: &mut Vec<String>, flag: &str, chain: &Vec<String>)
    ensures
        views(final(args)@) == views(old(args)@) + filter_args(flag@, views(chain@)),
{
    if chain.len() > 0 {
        push_arg(args, flag);
        push_owned(args, join_strings(chain, ","));
    }
    assert(views(args@) =~= views(old(args)@) + filter_args(flag@, views(chain@)));
}

pub fn normalize_gif_dither(dither: &str) -> (r: &str)
    ensures
        r@ == gif_dither(dither@),
{
    if is_known_dither(dither) {
        dither
    } else {
        "sierra2_4a"
    }
}

/// Builds the filter graph of a GIF.
pub fn build_gif_filter_complex(config: &ConversionConfig) -> (r: String)
    ensures
        r@ == gif_filter_complex(config),
{
    let mut filters = build_video_filters(config, true);
    if !str_eq(config.fps.as_str(), "original") {
        push_owned(&mut filters, String::from_str("fps=").concat(config.fps.as_str()));
    }
    assert(views(filters@) == gif_chain(config));
    let mut out = String::from_str("[0:v:0]");
    if filters.len() == 0 {
        out.append("split[gif_src][gif_palette_src]");
    } else {
        let chain = join_strings(&filters, ",");
        out.append(chain.as_str());
        out.append(",split[gif_src][gif_palette_src]");
    }
    out.append(";[gif_palette_src]palettegen=max_colors=");
    let colors: u32 = if config.gif_colors < 2 {
        2
    } else if config.gif_colors > 256 {
        256
    } else {
        config.gif_colors
    };
    push_decimal(&mut out, colors as u64);
    out.append(":stats_mode=single[gif_palette];[gif_src][gif_palette]paletteuse=dither=");
    out.append(normalize_gif_dither(config.gif_dither.as_str()));
    out.append(":new=1[gif_out]");
    assert(out@ =~= gif_filter_complex(config));
    out
}

fn push_gif_args(args: &mut Vec<String>, config: &ConversionConfig)
    ensures
        views(final(args)@) == views(old(args)@) + gif_args(config),
{
    push_arg(args, "-filter_complex");
    push_owned(args, build_gif_filter_complex(config));
    push_pair(args, "-map", "[gif_out]");
    push_arg(args, "-an");
    push_pair(args, "-c:v", "gif");
    push_arg(args, "-loop");
    let mut count = String::new();
    push_signed_decimal(&mut count, config.gif_loop as i64);
    assert(count@ =~= signed_decimal(config.gif_loop as int));
    push_owned(args, count);
    push_pair(args, "-f", "gif");
    assert(views(args@) =~= views(old(args)@) + gif_args(config));
}

fn push_audio_only_args(args: &mut Vec<String>, config: &ConversionConfig)
    ensures
        views(final(args)@) == views(old(args)@) + audio_only_args(config),
{
    push_arg(args, "-vn");
    push_stream_maps(args, "0:", &config.selected_audio_tracks, "0:a?", true);
    add_audio_codec_args(args, config);
    assert(views(args@) =~= views(old(args)@) + audio_only_args(config));
}

fn push_subtitle_args(args: &mut Vec<String>, config: &ConversionConfig)
    ensures
        views(final(args)@) == views(old(args)@) + subtitle_args(config),
{
    if config.selected_subtitle_tracks.len() > 0 {
        push_track_maps(args, "0:", &config.selected_subtitle_tracks);
        add_subtitle_codec_args(args, config);
    } else if !burns_subtitles(config) {
        push_pair(args, "-map", "0:s?");
        add_subtitle_codec_args(args, config);
    }
    assert(views(args@) =~= views(old(args)@) + subtitle_args(config));
}

fn push_general_args(args: &mut Vec<String>, config: &ConversionConfig)
    ensures
        views(final(args)@) == views(old(args)@) + general_args(config),
{
    add_video_codec_args(args, config);
    let video_chain = build_video_filters(config, true);
    push_filter_args(args, "-vf", &video_chain);
    add_fps_args(args, config);
    push_pair(args, "-map", "0:v:0");
    push_stream_maps(args, "0:", &config.selected_audio_tracks, "0:a?", true);
    add_audio_codec_args(args, config);
    push_subtitle_args(args, config);
    assert(views(args@) =~= views(old(args)@) + general_args(config));
}

fn push_encode_args(args: &mut Vec<String>, config: &ConversionConfig)
    ensures
        views(final(args)@) == views(old(args)@) + encode_args(config),
{
    let container = config.container.as_str();
    if is_audio_only_container(container) {
        push_audio_only_args(args, config);
        let audio_chain = build_audio_filters(config);
        push_filter_args(args, "-af", &audio_chain);
    } else if is_video_only_container(container) {
        push_gif_args(args, config);
    } else {
        push_general_args(args, config);
        let audio_chain = build_audio_filters(config);
        push_filter_args(args, "-af", &audio_chain);
    }
    assert(views(args@) =~= views(old(args)@) + encode_args(config));
}

/// Synthesizes the argument vector that converts `input` into `output` as
/// `config` asks.  Pure and deterministic: the result is `ffmpeg_args` of the
/// three arguments.
pub fn build_ffmpeg_args(input: &str, output: &str, config: &ConversionConfig) -> (r: Vec<String>)
    ensures
        views(r@) == ffmpeg_args(input@, output@, config),
{
    let mut args: Vec<String> = Vec::new();
    if config.hw_decode {
        extend_args(&mut args, get_hwaccel_args(config.video_codec.as_str()));
    }
    push_seek(&mut args, config);
    assert(views(args@) =~= input_options(config));
    push_pair(&mut args, "-i", input);
    push_window(&mut args, config);
    add_metadata_args(&mut args, &config.metadata);
    if is_copy_mode(config) {
        push_copy_args(&mut args, config);
    } else {
        push_encode_args(&mut args, config);
    }
    assert(views(args@) =~= input_options(config) + seq!["-i"@, input@] + output_options(config));
    push_pair(&mut args, output, "-y");
    args
}

} // verus!
