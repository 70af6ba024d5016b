use frame_conversion::args::{
    add_metadata_flags, build_ffmpeg_args, build_gif_filter_complex, is_copy_mode,
    normalize_gif_dither,
};
use frame_conversion::codec::{
    get_hwaccel_args, is_nvenc_codec, is_videotoolbox_codec, map_nvenc_preset,
    nvenc_quality_level,
};
use frame_conversion::filters::{
    build_audio_filters, build_video_filters, escape_filter_path, is_volume_changed,
};
use frame_conversion::types::{ConversionConfig, CropConfig, MetadataConfig, MetadataMode};

fn metadata(mode: MetadataMode) -> MetadataConfig {
    MetadataConfig {
        mode,
        title: None,
        artist: None,
        album: None,
        genre: None,
        date: None,
        comment: None,
    }
}

fn base_config() -> ConversionConfig {
    ConversionConfig {
        container: "mp4".to_string(),
        processing_mode: "reencode".to_string(),
        video_codec: "libx264".to_string(),
        video_bitrate_mode: "crf".to_string(),
        video_bitrate: "5000".to_string(),
        crf: 23,
        quality: 50,
        preset: "medium".to_string(),
        hw_decode: false,
        nvenc_spatial_aq: false,
        nvenc_temporal_aq: false,
        videotoolbox_allow_sw: false,
        audio_codec: "aac".to_string(),
        audio_bitrate: "192".to_string(),
        audio_channels: "original".to_string(),
        audio_volume: 10_000,
        audio_normalize: false,
        selected_audio_tracks: vec![],
        selected_subtitle_tracks: vec![],
        subtitle_burn_path: None,
        resolution: "original".to_string(),
        custom_width: None,
        custom_height: None,
        scaling_algorithm: "".to_string(),
        fps: "original".to_string(),
        rotation: "0".to_string(),
        flip_horizontal: false,
        flip_vertical: false,
        crop: None,
        start_time: None,
        end_time: None,
        metadata: metadata(MetadataMode::Preserve),
        ml_upscale: None,
        gif_colors: 256,
        gif_dither: "sierra2_4a".to_string(),
        gif_loop: 0,
    }
}

fn position(args: &[String], value: &str) -> Option<usize> {
    args.iter().position(|a| a == value)
}

#[test]
fn plain_reencode_vector_is_exact() {
    let args = build_ffmpeg_args("in.mov", "out.mp4", &base_config());
    assert_eq!(
        args,
        vec![
            "-i", "in.mov", "-c:v", "libx264", "-crf", "23", "-preset", "medium", "-map",
            "0:v:0", "-map", "0:a?", "-c:a", "aac", "-b:a", "192k", "-map", "0:s?", "-c:s",
            "mov_text", "out.mp4", "-y",
        ]
    );
}

#[test]
fn start_and_end_give_a_duration_flag() {
    let mut config = base_config();
    config.start_time = Some("00:00:05".to_string());
    config.end_time = Some("00:00:15".to_string());
    let args = build_ffmpeg_args("in.mov", "out.mp4", &config);
    let t = position(&args, "-t").expect("duration flag");
    assert_eq!(args[t + 1], "10.000");
    assert_eq!(position(&args, "-to"), None);
    let ss = position(&args, "-ss").expect("seek flag");
    let input = position(&args, "-i").expect("input flag");
    assert_eq!(args[ss + 1], "00:00:05");
    assert!(ss < input);
    assert!(input < t);
}

#[test]
fn end_alone_gives_an_absolute_end_flag() {
    let mut config = base_config();
    config.end_time = Some("00:00:20".to_string());
    let args = build_ffmpeg_args("in.mov", "out.mp4", &config);
    let to = position(&args, "-to").expect("end flag");
    assert_eq!(args[to + 1], "00:00:20");
    assert_eq!(position(&args, "-t"), None);
    assert_eq!(position(&args, "-ss"), None);
    assert!(position(&args, "-i").unwrap() < to);
}

#[test]
fn empty_start_counts_as_no_start() {
    let mut config = base_config();
    config.start_time = Some(String::new());
    config.end_time = Some("00:01:00".to_string());
    let args = build_ffmpeg_args("in.mov", "out.mp4", &config);
    assert_eq!(position(&args, "-ss"), None);
    let to = position(&args, "-to").expect("end flag");
    assert_eq!(args[to + 1], "00:01:00");
}

#[test]
fn end_before_start_gives_no_window() {
    let mut config = base_config();
    config.start_time = Some("00:00:15".to_string());
    config.end_time = Some("00:00:05".to_string());
    let args = build_ffmpeg_args("in.mov", "out.mp4", &config);
    assert_eq!(position(&args, "-t"), None);
    assert_eq!(position(&args, "-to"), None);
}

#[test]
fn fractional_duration_has_three_decimals() {
    let mut config = base_config();
    config.start_time = Some("00:00:01.25".to_string());
    config.end_time = Some("00:01:02.5".to_string());
    let args = build_ffmpeg_args("in.mov", "out.mp4", &config);
    let t = position(&args, "-t").expect("duration flag");
    assert_eq!(args[t + 1], "61.250");
}

#[test]
fn gif_graph_has_palette_and_dither() {
    let mut config = base_config();
    config.container = "gif".to_string();
    config.video_codec = "gif".to_string();
    config.gif_colors = 16;
    config.gif_dither = "none".to_string();
    let graph = build_gif_filter_complex(&config);
    assert!(graph.contains("max_colors=16"));
    assert!(graph.contains("dither=none"));
    assert_eq!(
        graph,
        "[0:v:0]split[gif_src][gif_palette_src];[gif_palette_src]palettegen=max_colors=16:stats_mode=single[gif_palette];[gif_src][gif_palette]paletteuse=dither=none:new=1[gif_out]"
    );
}

#[test]
fn gif_graph_chains_filters_and_frame_rate() {
    let mut config = base_config();
    config.container = "gif".to_string();
    config.flip_horizontal = true;
    config.resolution = "480p".to_string();
    config.fps = "12".to_string();
    config.gif_colors = 1000;
    config.gif_dither = "unknown".to_string();
    let graph = build_gif_filter_complex(&config);
    assert_eq!(
        graph,
        "[0:v:0]hflip,scale=-2:480,fps=12,split[gif_src][gif_palette_src];[gif_palette_src]palettegen=max_colors=256:stats_mode=single[gif_palette];[gif_src][gif_palette]paletteuse=dither=sierra2_4a:new=1[gif_out]"
    );
}

#[test]
fn gif_palette_is_at_least_two() {
    let mut config = base_config();
    config.container = "gif".to_string();
    config.gif_colors = 0;
    assert!(build_gif_filter_complex(&config).contains("max_colors=2:"));
}

#[test]
fn gif_vector_is_exact() {
    let mut config = base_config();
    config.container = "gif".to_string();
    config.gif_colors = 64;
    config.gif_dither = "bayer".to_string();
    config.gif_loop = -1;
    let args = build_ffmpeg_args("in.mov", "out.gif", &config);
    assert_eq!(
        args,
        vec![
            "-i",
            "in.mov",
            "-filter_complex",
            "[0:v:0]split[gif_src][gif_palette_src];[gif_palette_src]palettegen=max_colors=64:stats_mode=single[gif_palette];[gif_src][gif_palette]paletteuse=dither=bayer:new=1[gif_out]",
            "-map",
            "[gif_out]",
            "-an",
            "-c:v",
            "gif",
            "-loop",
            "-1",
            "-f",
            "gif",
            "out.gif",
            "-y",
        ]
    );
}

#[test]
fn dither_falls_back_to_default() {
    assert_eq!(normalize_gif_dither("none"), "none");
    assert_eq!(normalize_gif_dither("bayer"), "bayer");
    assert_eq!(normalize_gif_dither("floyd_steinberg"), "floyd_steinberg");
    assert_eq!(normalize_gif_dither("sierra2_4a"), "sierra2_4a");
    assert_eq!(normalize_gif_dither("ordered"), "sierra2_4a");
    assert_eq!(normalize_gif_dither(""), "sierra2_4a");
}

#[test]
fn copy_mode_vector_is_exact() {
    let mut config = base_config();
    config.processing_mode = "copy".to_string();
    config.container = "mkv".to_string();
    config.selected_audio_tracks = vec![1, 3];
    let args = build_ffmpeg_args("in.mp4", "out.mkv", &config);
    assert_eq!(
        args,
        vec![
            "-i", "in.mp4", "-map", "0:v?", "-map", "0:1", "-map", "0:3", "-map", "0:s?", "-c",
            "copy", "out.mkv", "-y",
        ]
    );
}

#[test]
fn copy_mode_into_audio_container_maps_no_video() {
    let mut config = base_config();
    config.processing_mode = "copy".to_string();
    config.container = "m4a".to_string();
    let args = build_ffmpeg_args("in.mp4", "out.m4a", &config);
    assert_eq!(args, vec!["-i", "in.mp4", "-map", "0:a?", "-c", "copy", "out.m4a", "-y"]);
}

#[test]
fn copy_mode_is_read_untrimmed() {
    let mut config = base_config();
    assert!(!is_copy_mode(&config));
    config.processing_mode = "copy".to_string();
    assert!(is_copy_mode(&config));
    config.processing_mode = " copy".to_string();
    assert!(!is_copy_mode(&config));
}

#[test]
fn audio_only_vector_is_exact() {
    let mut config = base_config();
    config.container = "mp3".to_string();
    config.audio_codec = "libmp3lame".to_string();
    config.audio_bitrate = "320".to_string();
    config.audio_channels = "stereo".to_string();
    config.audio_volume = 15_000;
    config.audio_normalize = true;
    let args = build_ffmpeg_args("in.mov", "out.mp3", &config);
    assert_eq!(
        args,
        vec![
            "-i", "in.mov", "-vn", "-map", "0:a?", "-c:a", "libmp3lame", "-b:a", "320k", "-ac",
            "2", "-af", "loudnorm=I=-16:TP=-1.5:LRA=11,volume=1.50", "out.mp3", "-y",
        ]
    );
}

#[test]
fn lossless_audio_takes_no_bitrate() {
    let mut config = base_config();
    config.container = "flac".to_string();
    config.audio_codec = "flac".to_string();
    config.audio_channels = "mono".to_string();
    config.selected_audio_tracks = vec![2];
    let args = build_ffmpeg_args("in.mov", "out.flac", &config);
    assert_eq!(
        args,
        vec!["-i", "in.mov", "-vn", "-map", "0:2", "-c:a", "flac", "-ac", "1", "out.flac", "-y"]
    );
}

#[test]
fn hardware_decode_precedes_seek_and_input() {
    let mut config = base_config();
    config.hw_decode = true;
    config.video_codec = "h264_nvenc".to_string();
    config.start_time = Some("00:00:01".to_string());
    let args = build_ffmpeg_args("in.mov", "out.mp4", &config);
    assert_eq!(&args[..6], &["-hwaccel", "cuda", "-ss", "00:00:01", "-i", "in.mov"]);
}

#[test]
fn hwaccel_follows_encoder_family() {
    assert_eq!(get_hwaccel_args("hevc_nvenc"), vec!["-hwaccel", "cuda"]);
    assert_eq!(get_hwaccel_args("h264_videotoolbox"), vec!["-hwaccel", "videotoolbox"]);
    assert_eq!(get_hwaccel_args("libx264"), vec!["-hwaccel", "auto"]);
}

#[test]
fn output_is_followed_by_overwrite_flag() {
    let mut config = base_config();
    for container in ["mp4", "mkv", "webm", "mov", "mp3", "gif"] {
        config.container = container.to_string();
        for mode in ["reencode", "copy"] {
            config.processing_mode = mode.to_string();
            let args = build_ffmpeg_args("in", "the output", &config);
            let n = args.len();
            assert_eq!(args[n - 2], "the output");
            assert_eq!(args[n - 1], "-y");
        }
    }
}

#[test]
fn nvenc_vector_is_exact() {
    let mut config = base_config();
    config.video_codec = "hevc_nvenc".to_string();
    config.quality = 51;
    config.preset = "slow".to_string();
    config.nvenc_spatial_aq = true;
    config.nvenc_temporal_aq = true;
    config.videotoolbox_allow_sw = true;
    config.subtitle_burn_path = Some("C:\\subs\\a.srt".to_string());
    let args = build_ffmpeg_args("in.mov", "out.mp4", &config);
    assert_eq!(
        args,
        vec![
            "-i",
            "in.mov",
            "-c:v",
            "hevc_nvenc",
            "-rc:v",
            "vbr",
            "-cq:v",
            "27",
            "-preset",
            "p5",
            "-spatial_aq",
            "1",
            "-temporal_aq",
            "1",
            "-vf",
            "subtitles='C\\:/subs/a.srt'",
            "-map",
            "0:v:0",
            "-map",
            "0:a?",
            "-c:a",
            "aac",
            "-b:a",
            "192k",
            "out.mp4",
            "-y",
        ]
    );
}

#[test]
fn videotoolbox_takes_quality_and_no_preset() {
    let mut config = base_config();
    config.video_codec = "h264_videotoolbox".to_string();
    config.quality = 65;
    config.videotoolbox_allow_sw = true;
    config.nvenc_spatial_aq = true;
    config.fps = "30".to_string();
    config.selected_subtitle_tracks = vec![4];
    config.container = "mov".to_string();
    let args = build_ffmpeg_args("in.mov", "out.mov", &config);
    assert_eq!(
        args,
        vec![
            "-i", "in.mov", "-c:v", "h264_videotoolbox", "-q:v", "65", "-allow_sw", "1", "-r",
            "30", "-map", "0:v:0", "-map", "0:a?", "-c:a", "aac", "-b:a", "192k", "-map", "0:4",
            "-c:s", "mov_text", "out.mov", "-y",
        ]
    );
}

#[test]
fn bitrate_mode_takes_kilobits() {
    let mut config = base_config();
    config.video_bitrate_mode = "bitrate".to_string();
    config.video_bitrate = "4500".to_string();
    config.container = "webm".to_string();
    config.video_codec = "libvpx-vp9".to_string();
    config.audio_codec = "libopus".to_string();
    let args = build_ffmpeg_args("in.mov", "out.webm", &config);
    let b = position(&args, "-b:v").expect("bitrate flag");
    assert_eq!(args[b + 1], "4500k");
    assert_eq!(position(&args, "-crf"), None);
    let s = position(&args, "-c:s").expect("subtitle codec");
    assert_eq!(args[s + 1], "webvtt");
}

#[test]
fn nvenc_quality_level_formula() {
    assert_eq!(nvenc_quality_level(0), 51);
    assert_eq!(nvenc_quality_level(1), 51);
    assert_eq!(nvenc_quality_level(2), 51);
    assert_eq!(nvenc_quality_level(50), 27);
    assert_eq!(nvenc_quality_level(51), 27);
    assert_eq!(nvenc_quality_level(100), 2);
    assert_eq!(nvenc_quality_level(102), 1);
    assert_eq!(nvenc_quality_level(u32::MAX), 1);
}

#[test]
fn encoder_families_and_presets() {
    assert!(is_nvenc_codec("av1_nvenc"));
    assert!(!is_nvenc_codec("libx264"));
    assert!(is_videotoolbox_codec("hevc_videotoolbox"));
    assert!(!is_videotoolbox_codec("hevc_nvenc"));
    assert_eq!(map_nvenc_preset("ultrafast"), "p1");
    assert_eq!(map_nvenc_preset("veryfast"), "p2");
    assert_eq!(map_nvenc_preset("fast"), "p3");
    assert_eq!(map_nvenc_preset("medium"), "p4");
    assert_eq!(map_nvenc_preset("slow"), "p5");
    assert_eq!(map_nvenc_preset("slower"), "p6");
    assert_eq!(map_nvenc_preset("veryslow"), "p7");
    assert_eq!(map_nvenc_preset("placebo"), "p4");
}

#[test]
fn metadata_modes() {
    let mut config = base_config();
    config.metadata = metadata(MetadataMode::Clean);
    config.metadata.title = Some("ignored".to_string());
    let args = build_ffmpeg_args("in", "out", &config);
    assert_eq!(&args[2..4], &["-map_metadata", "-1"]);
    assert_eq!(position(&args, "-metadata"), None);

    config.metadata.mode = MetadataMode::Replace;
    config.metadata.artist = Some(String::new());
    config.metadata.comment = Some("a b".to_string());
    let args = build_ffmpeg_args("in", "out", &config);
    assert_eq!(
        &args[2..8],
        &["-map_metadata", "-1", "-metadata", "title=ignored", "-metadata", "comment=a b"]
    );

    config.metadata.mode = MetadataMode::Preserve;
    let args = build_ffmpeg_args("in", "out", &config);
    assert_eq!(&args[2..6], &["-metadata", "title=ignored", "-metadata", "comment=a b"]);
    assert_eq!(position(&args, "-map_metadata"), None);
}

#[test]
fn metadata_flags_keep_their_order() {
    let m = MetadataConfig {
        mode: MetadataMode::Preserve,
        title: Some("T".to_string()),
        artist: Some("A".to_string()),
        album: Some("L".to_string()),
        genre: Some("G".to_string()),
        date: Some("2024".to_string()),
        comment: Some("C".to_string()),
    };
    let mut args = vec!["first".to_string()];
    add_metadata_flags(&mut args, &m);
    assert_eq!(
        args,
        vec![
            "first", "-metadata", "title=T", "-metadata", "artist=A", "-metadata", "album=L",
            "-metadata", "genre=G", "-metadata", "date=2024", "-metadata", "comment=C",
        ]
    );
}

#[test]
fn video_filters_keep_their_order() {
    let mut config = base_config();
    config.flip_horizontal = true;
    config.flip_vertical = true;
    config.rotation = "180".to_string();
    config.crop = Some(CropConfig { enabled: true, x: -4, y: 10, width: 0, height: 720 });
    config.subtitle_burn_path = Some("/s/a:b.srt".to_string());
    config.resolution = "custom".to_string();
    config.custom_width = Some("1280".to_string());
    config.scaling_algorithm = "lanczos".to_string();
    assert_eq!(
        build_video_filters(&config, true),
        vec![
            "hflip",
            "vflip",
            "transpose=1,transpose=1",
            "crop=1:720:0:10",
            "subtitles='/s/a\\:b.srt'",
            "scale=1280:-1:flags=lanczos",
        ]
    );
    assert_eq!(build_video_filters(&config, false).len(), 5);
    config.rotation = "90".to_string();
    assert_eq!(build_video_filters(&config, false)[2], "transpose=1");
    config.rotation = "270".to_string();
    assert_eq!(build_video_filters(&config, false)[2], "transpose=2");
}

#[test]
fn disabled_crop_and_blank_burn_path_give_no_filter() {
    let mut config = base_config();
    config.crop = Some(CropConfig { enabled: false, x: 0, y: 0, width: 10, height: 10 });
    config.subtitle_burn_path = Some("   ".to_string());
    config.resolution = "huge".to_string();
    assert!(build_video_filters(&config, true).is_empty());
}

#[test]
fn filter_path_escaping() {
    assert_eq!(escape_filter_path("C:\\a\\b.srt"), "C\\:/a/b.srt");
    assert_eq!(escape_filter_path("/plain/path.ass"), "/plain/path.ass");
    assert_eq!(escape_filter_path(""), "");
    assert_eq!(escape_filter_path("ü:é"), "ü\\:é");
}

#[test]
fn volume_tolerance_and_factor() {
    assert!(!is_volume_changed(10_000));
    assert!(!is_volume_changed(10_001));
    assert!(!is_volume_changed(9_999));
    assert!(is_volume_changed(10_002));
    assert!(is_volume_changed(9_998));
    assert!(is_volume_changed(0));
    assert!(is_volume_changed(u32::MAX));
    let mut config = base_config();
    config.audio_volume = 5_000;
    assert_eq!(build_audio_filters(&config), vec!["volume=0.50"]);
    config.audio_volume = 12_345;
    assert_eq!(build_audio_filters(&config), vec!["volume=1.23"]);
    config.audio_volume = 12_350;
    assert_eq!(build_audio_filters(&config), vec!["volume=1.24"]);
    config.audio_volume = 20_000;
    assert_eq!(build_audio_filters(&config), vec!["volume=2.00"]);
    config.audio_volume = 10_000;
    assert!(build_audio_filters(&config).is_empty());
}

#[test]
fn synthesis_is_deterministic() {
    let mut config = base_config();
    config.start_time = Some("00:00:05".to_string());
    config.selected_audio_tracks = vec![1, 2];
    let a = build_ffmpeg_args("in.mov", "out.mp4", &config);
    let b = build_ffmpeg_args("in.mov", "out.mp4", &config.clone());
    assert_eq!(a, b);
}
