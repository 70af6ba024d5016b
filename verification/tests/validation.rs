use frame_conversion::error::ConversionError;
use frame_conversion::media_rules::{
    container_rules, container_supports_audio, container_supports_subtitles,
    is_audio_codec_allowed, is_audio_only_container, is_audio_stream_codec_allowed,
    is_subtitle_codec_allowed, is_video_codec_allowed, is_video_only_container,
    is_video_stream_codec_allowed, ContainerClass,
};
use frame_conversion::stream_copy::{
    collect_selected_audio_tracks, collect_selected_subtitle_tracks,
    validate_stream_copy_compatibility,
};
use frame_conversion::types::{
    AudioTrack, ConversionConfig, CropConfig, MetadataConfig, MetadataMode, ProbeMetadata,
    SubtitleTrack,
};
use frame_conversion::validate::{
    is_upscale_requested, validate_config, validate_task_input, InputFile,
};

fn base_config() -> ConversionConfig {
    ConversionConfig {
        container: "mp4".to_string(),
        processing_mode: "reencode".to_string(),
        video_codec: "libx264".to_string(),
        video_bitrate_mode: "crf".to_string(),
        video_bitrate: "5000".to_string(),
        crf: 23,
        quality: 50,
        preset: "medium".to_string(),
        hw_decode: false,
        nvenc_spatial_aq: false,
        nvenc_temporal_aq: false,
        videotoolbox_allow_sw: false,
        audio_codec: "aac".to_string(),
        audio_bitrate: "192".to_string(),
        audio_channels: "original".to_string(),
        audio_volume: 10_000,
        audio_normalize: false,
        selected_audio_tracks: vec![],
        selected_subtitle_tracks: vec![],
        subtitle_burn_path: None,
        resolution: "original".to_string(),
        custom_width: None,
        custom_height: None,
        scaling_algorithm: "".to_string(),
        fps: "original".to_string(),
        rotation: "0".to_string(),
        flip_horizontal: false,
        flip_vertical: false,
        crop: None,
        start_time: None,
        end_time: None,
        metadata: MetadataConfig {
            mode: MetadataMode::Preserve,
            title: None,
            artist: None,
            album: None,
            genre: None,
            date: None,
            comment: None,
        },
        ml_upscale: None,
        gif_colors: 256,
        gif_dither: "sierra2_4a".to_string(),
        gif_loop: 0,
    }
}

fn copy_config() -> ConversionConfig {
    let mut config = base_config();
    config.processing_mode = "copy".to_string();
    config
}

fn gif_config() -> ConversionConfig {
    let mut config = base_config();
    config.container = "gif".to_string();
    config.video_codec = "gif".to_string();
    config
}

fn reason(r: Result<(), ConversionError>) -> String {
    match r {
        Err(ConversionError::InvalidInput(reason)) => reason,
        other => panic!("expected invalid input, got {:?}", other),
    }
}

fn probe() -> ProbeMetadata {
    ProbeMetadata {
        video_codec: Some("h264".to_string()),
        duration: Some("00:01:00".to_string()),
        frame_rate: Some(25_000),
        audio_tracks: vec![
            AudioTrack { index: 1, codec: "aac".to_string() },
            AudioTrack { index: 2, codec: "flac".to_string() },
        ],
        subtitle_tracks: vec![
            SubtitleTrack { index: 3, codec: "mov_text".to_string() },
            SubtitleTrack { index: 4, codec: "subrip".to_string() },
        ],
    }
}

#[test]
fn valid_requests_are_accepted() {
    assert!(validate_task_input("/in.mov", InputFile::File, &base_config()).is_ok());
    let mut config = copy_config();
    config.processing_mode = "  copy ".to_string();
    assert!(validate_config(&config).is_ok());
    let mut config = gif_config();
    config.gif_colors = 2;
    config.gif_dither = "none".to_string();
    assert!(validate_config(&config).is_ok());
    let mut config = base_config();
    config.container = "mp3".to_string();
    config.audio_codec = "libmp3lame".to_string();
    config.video_codec = "anything".to_string();
    assert!(validate_config(&config).is_ok());
}

#[test]
fn input_must_be_a_regular_file() {
    assert_eq!(
        reason(validate_task_input("/gone.mov", InputFile::Missing, &base_config())),
        "Input file does not exist: /gone.mov"
    );
    assert_eq!(
        reason(validate_task_input("/a/dir", InputFile::NotAFile, &base_config())),
        "Input path is not a file: /a/dir"
    );
    let mut config = base_config();
    config.processing_mode = "bogus".to_string();
    assert_eq!(
        reason(validate_task_input("/gone.mov", InputFile::Missing, &config)),
        "Input file does not exist: /gone.mov"
    );
}

#[test]
fn processing_mode_is_checked_first() {
    let mut config = base_config();
    config.processing_mode = " transmute ".to_string();
    config.start_time = Some("nonsense".to_string());
    assert_eq!(reason(validate_config(&config)), "Invalid processing mode: transmute");
    config.processing_mode = String::new();
    assert_eq!(reason(validate_config(&config)), "Invalid processing mode: ");
}

#[test]
fn times_must_be_timecodes_in_order() {
    let mut config = base_config();
    config.start_time = Some(" 5 seconds ".to_string());
    config.end_time = Some("also bad".to_string());
    assert_eq!(reason(validate_config(&config)), "Invalid start time: 5 seconds");
    config.start_time = Some("00:00:05".to_string());
    assert_eq!(reason(validate_config(&config)), "Invalid end time: also bad");
    config.end_time = Some("00:00:05".to_string());
    assert_eq!(reason(validate_config(&config)), "End time must be greater than start time");
    config.end_time = Some("00:00:04.999".to_string());
    assert_eq!(reason(validate_config(&config)), "End time must be greater than start time");
    config.end_time = Some("00:00:05.001".to_string());
    assert!(validate_config(&config).is_ok());
    config.start_time = Some("   ".to_string());
    config.end_time = Some(String::new());
    assert!(validate_config(&config).is_ok());
}

#[test]
fn custom_resolution_takes_positive_or_auto() {
    let mut config = base_config();
    config.resolution = "custom".to_string();
    assert!(validate_config(&config).is_ok());
    config.custom_width = Some("wide".to_string());
    config.custom_height = Some("tall".to_string());
    assert_eq!(reason(validate_config(&config)), "Invalid custom width: wide");
    config.custom_width = Some("1280".to_string());
    assert_eq!(reason(validate_config(&config)), "Invalid custom height: tall");
    config.custom_height = Some("0".to_string());
    assert_eq!(reason(validate_config(&config)), "Resolution dimensions cannot be zero");
    config.custom_height = Some("-2".to_string());
    assert_eq!(
        reason(validate_config(&config)),
        "Resolution dimensions cannot be negative (except -1 for auto)"
    );
    config.custom_height = Some("-1".to_string());
    assert!(validate_config(&config).is_ok());
    config.custom_height = Some("+720".to_string());
    assert!(validate_config(&config).is_ok());
    config.custom_height = Some("2147483648".to_string());
    assert_eq!(reason(validate_config(&config)), "Invalid custom height: 2147483648");
    config.custom_height = Some(" 720".to_string());
    assert_eq!(reason(validate_config(&config)), "Invalid custom height:  720");
    config.processing_mode = "copy".to_string();
    assert_eq!(reason(validate_config(&config)), "Resolution and FPS changes require re-encoding");
}

#[test]
fn bitrate_mode_needs_a_positive_bitrate() {
    let mut config = base_config();
    config.video_bitrate_mode = "bitrate".to_string();
    assert!(validate_config(&config).is_ok());
    for bad in ["", "fast", "12k", ".", "1e", "1 000", "+", "-"] {
        config.video_bitrate = bad.to_string();
        assert_eq!(
            reason(validate_config(&config)),
            format!("Invalid video bitrate: {}", bad)
        );
    }
    for zero in ["0", "0.000", "-5", "-0.1", "+0", "0e3", "nan", "-inf"] {
        config.video_bitrate = zero.to_string();
        assert_eq!(reason(validate_config(&config)), "Video bitrate must be positive");
    }
    for good in ["1", "0.5", "+2500", "007", "99999999999999999999999999", "1e3", ".5", "5.", "2.5E3"] {
        config.video_bitrate = good.to_string();
        assert!(validate_config(&config).is_ok(), "bitrate {:?}", good);
    }
    config.video_bitrate = "bad".to_string();
    config.container = "mp3".to_string();
    config.audio_codec = "libmp3lame".to_string();
    assert!(validate_config(&config).is_ok());
}

#[test]
fn encoders_must_be_in_the_table() {
    let mut config = base_config();
    config.video_codec = "libvpx-vp9".to_string();
    assert_eq!(
        reason(validate_config(&config)),
        "Video codec 'libvpx-vp9' is not compatible with container 'mp4'"
    );
    config.container = "webm".to_string();
    assert_eq!(
        reason(validate_config(&config)),
        "Audio codec 'aac' is not compatible with container 'webm'"
    );
    config.audio_codec = "libopus".to_string();
    assert!(validate_config(&config).is_ok());
    config.container = "avi".to_string();
    assert_eq!(
        reason(validate_config(&config)),
        "Video codec 'libvpx-vp9' is not compatible with container 'avi'"
    );
}

#[test]
fn validation_accepts_exactly_what_the_table_allows() {
    let containers = ["mp4", "mkv", "webm", "mov", "mp3", "m4a", "wav", "flac", "gif", "avi"];
    let video = [
        "libx264", "libx265", "libvpx-vp9", "libsvtav1", "prores_ks", "h264_nvenc",
        "hevc_nvenc", "av1_nvenc", "h264_videotoolbox", "hevc_videotoolbox", "gif", "mpeg2",
    ];
    let audio = [
        "aac", "ac3", "libopus", "libvorbis", "libmp3lame", "alac", "flac", "pcm_s16le", "wma",
    ];
    for container in containers {
        for v in video {
            for a in audio {
                let mut config = base_config();
                config.container = container.to_string();
                config.video_codec = v.to_string();
                config.audio_codec = a.to_string();
                let allowed = (is_audio_only_container(container)
                    || is_video_codec_allowed(container, v))
                    && (!container_supports_audio(container)
                        || is_audio_codec_allowed(container, a));
                assert_eq!(
                    validate_config(&config).is_ok(),
                    allowed,
                    "{} {} {}",
                    container,
                    v,
                    a
                );
            }
        }
    }
}

#[test]
fn table_rows_hold_what_they_list() {
    for container in ["mp4", "mkv", "webm", "mov", "mp3", "m4a", "wav", "flac", "gif"] {
        let row = container_rules(container).expect("known container");
        for v in row.video_encoders {
            assert!(is_video_codec_allowed(container, v));
        }
        for a in row.audio_encoders {
            assert!(is_audio_codec_allowed(container, a));
        }
        for v in row.video_streams {
            assert!(is_video_stream_codec_allowed(container, v));
        }
        for a in row.audio_streams {
            assert!(is_audio_stream_codec_allowed(container, a));
        }
        for s in row.subtitle_streams {
            assert!(is_subtitle_codec_allowed(container, s));
        }
        assert_eq!(row.class == ContainerClass::AudioOnly, is_audio_only_container(container));
        assert_eq!(row.class == ContainerClass::VideoOnly, is_video_only_container(container));
        assert_eq!(row.class != ContainerClass::VideoOnly, container_supports_audio(container));
        assert_eq!(row.class == ContainerClass::General, container_supports_subtitles(container));
    }
    assert!(container_rules("avi").is_none());
    assert!(container_rules("MP4").is_none());
    assert!(!is_video_codec_allowed("avi", "libx264"));
    assert!(!is_video_codec_allowed("mp3", "libx264"));
    assert!(!is_audio_codec_allowed("gif", "aac"));
    assert!(is_video_codec_allowed("mp4", "libx264"));
    assert!(!is_video_codec_allowed("mp4", "prores_ks"));
    assert!(is_audio_codec_allowed("wav", "pcm_s16le"));
    assert!(!is_audio_codec_allowed("wav", "aac"));
}

#[test]
fn upscale_mode_is_checked() {
    let mut config = base_config();
    config.ml_upscale = Some("esrgan-8x".to_string());
    assert_eq!(reason(validate_config(&config)), "Invalid ML upscale mode: esrgan-8x");
    for ok in ["", "none", "esrgan-2x", "esrgan-4x"] {
        config.ml_upscale = Some(ok.to_string());
        assert!(validate_config(&config).is_ok());
    }
    let mut config = gif_config();
    config.ml_upscale = Some("esrgan-2x".to_string());
    assert_eq!(
        reason(validate_config(&config)),
        "ML upscaling requires an audio-capable video container"
    );
    config.container = "flac".to_string();
    config.audio_codec = "flac".to_string();
    assert_eq!(
        reason(validate_config(&config)),
        "ML upscaling requires an audio-capable video container"
    );
    let mut config = copy_config();
    config.ml_upscale = Some("esrgan-4x".to_string());
    assert_eq!(reason(validate_config(&config)), "ML upscaling requires re-encoding mode");
}

#[test]
fn copy_mode_rejects_gif_container() {
    let mut config = copy_config();
    config.container = "gif".to_string();
    assert_eq!(
        reason(validate_config(&config)),
        "Stream copy mode is not available for video-only containers"
    );
}

#[test]
fn copy_mode_rejects_burn_in_subtitles() {
    let mut config = copy_config();
    config.subtitle_burn_path = Some("/subs.srt".to_string());
    assert_eq!(
        reason(validate_config(&config)),
        "Burn-in subtitles are unavailable in stream copy mode"
    );
    config.subtitle_burn_path = Some("  ".to_string());
    assert!(validate_config(&config).is_ok());
}

#[test]
fn copy_mode_rejects_volume_change() {
    let mut config = copy_config();
    config.audio_volume = 10_002;
    assert_eq!(reason(validate_config(&config)), "Audio volume adjustment requires re-encoding");
    config.audio_volume = 9_000;
    assert_eq!(reason(validate_config(&config)), "Audio volume adjustment requires re-encoding");
    config.audio_volume = 10_001;
    assert!(validate_config(&config).is_ok());
}

#[test]
fn copy_mode_rejects_normalization() {
    let mut config = copy_config();
    config.audio_normalize = true;
    assert_eq!(reason(validate_config(&config)), "Audio normalization requires re-encoding");
}

#[test]
fn copy_mode_rejects_rotation_and_flips() {
    let mut config = copy_config();
    config.rotation = "90".to_string();
    assert_eq!(reason(validate_config(&config)), "Video transforms require re-encoding");
    let mut config = copy_config();
    config.flip_horizontal = true;
    assert_eq!(reason(validate_config(&config)), "Video transforms require re-encoding");
    let mut config = copy_config();
    config.flip_vertical = true;
    assert_eq!(reason(validate_config(&config)), "Video transforms require re-encoding");
}

#[test]
fn copy_mode_rejects_enabled_crop() {
    let mut config = copy_config();
    config.crop = Some(CropConfig { enabled: true, x: 0, y: 0, width: 10, height: 10 });
    assert_eq!(reason(validate_config(&config)), "Cropping requires re-encoding");
    config.crop = Some(CropConfig { enabled: false, x: 0, y: 0, width: 10, height: 10 });
    assert!(validate_config(&config).is_ok());
}

#[test]
fn copy_mode_rejects_resolution_and_fps_change() {
    let mut config = copy_config();
    config.resolution = "720p".to_string();
    assert_eq!(reason(validate_config(&config)), "Resolution and FPS changes require re-encoding");
    let mut config = copy_config();
    config.fps = "30".to_string();
    assert_eq!(reason(validate_config(&config)), "Resolution and FPS changes require re-encoding");
}

#[test]
fn copy_mode_rejects_hardware_decode() {
    let mut config = copy_config();
    config.hw_decode = true;
    assert_eq!(
        reason(validate_config(&config)),
        "Hardware decoding is unavailable in stream copy mode"
    );
}

#[test]
fn copy_mode_skips_encoder_rules() {
    let mut config = copy_config();
    config.video_codec = "not an encoder".to_string();
    config.audio_codec = "nor this".to_string();
    config.video_bitrate_mode = "bitrate".to_string();
    config.video_bitrate = "bad".to_string();
    assert!(validate_config(&config).is_ok());
}

#[test]
fn track_selection_needs_container_support() {
    let mut config = gif_config();
    config.selected_audio_tracks = vec![1];
    assert_eq!(
        reason(validate_config(&config)),
        "Audio track selection is not available for this container"
    );
    let mut config = base_config();
    config.container = "mp3".to_string();
    config.audio_codec = "libmp3lame".to_string();
    config.selected_subtitle_tracks = vec![2];
    assert_eq!(
        reason(validate_config(&config)),
        "Subtitle options are not available for this container"
    );
    config.selected_subtitle_tracks = vec![];
    config.subtitle_burn_path = Some("/s.srt".to_string());
    assert_eq!(
        reason(validate_config(&config)),
        "Subtitle options are not available for this container"
    );
    config.subtitle_burn_path = None;
    config.selected_audio_tracks = vec![1, 2];
    assert!(validate_config(&config).is_ok());
}

#[test]
fn gif_palette_and_dither_are_checked() {
    let mut config = gif_config();
    config.gif_colors = 300;
    assert_eq!(
        reason(validate_config(&config)),
        "GIF palette size must be between 2 and 256 colors: 300"
    );
    config.gif_colors = 1;
    assert_eq!(
        reason(validate_config(&config)),
        "GIF palette size must be between 2 and 256 colors: 1"
    );
    config.gif_colors = 16;
    config.gif_dither = "ordered".to_string();
    assert_eq!(reason(validate_config(&config)), "Invalid GIF dither mode: ordered");
    config.gif_dither = "none".to_string();
    assert!(validate_config(&config).is_ok());
    let mut config = base_config();
    config.gif_colors = 300;
    config.gif_dither = "ordered".to_string();
    assert!(validate_config(&config).is_ok());
}

#[test]
fn selection_resolves_in_order() {
    let p = probe();
    let mut config = base_config();
    let all = collect_selected_audio_tracks(&config, &p).unwrap();
    assert_eq!(all.iter().map(|t| t.index).collect::<Vec<_>>(), vec![1, 2]);
    config.selected_audio_tracks = vec![2, 1, 2];
    let some = collect_selected_audio_tracks(&config, &p).unwrap();
    assert_eq!(some.iter().map(|t| t.codec.as_str()).collect::<Vec<_>>(), vec!["flac", "aac", "flac"]);
    config.selected_audio_tracks = vec![2, 7, 9];
    match collect_selected_audio_tracks(&config, &p) {
        Err(ConversionError::InvalidInput(r)) => {
            assert_eq!(r, "Selected audio track #7 was not found in source")
        }
        other => panic!("unexpected {:?}", other),
    }
    config.selected_subtitle_tracks = vec![4];
    let subs = collect_selected_subtitle_tracks(&config, &p).unwrap();
    assert_eq!(subs.len(), 1);
    assert_eq!(subs[0].codec, "subrip");
    config.selected_subtitle_tracks = vec![1];
    match collect_selected_subtitle_tracks(&config, &p) {
        Err(ConversionError::InvalidInput(r)) => {
            assert_eq!(r, "Selected subtitle track #1 was not found in source")
        }
        other => panic!("unexpected {:?}", other),
    }
}

#[test]
fn stream_copy_is_checked_only_in_copy_mode() {
    let mut p = probe();
    p.video_codec = Some("theora".to_string());
    assert!(validate_stream_copy_compatibility(&base_config(), &p).is_ok());
    assert_eq!(
        reason(validate_stream_copy_compatibility(&copy_config(), &p)),
        "Video codec 'theora' is incompatible with container 'mp4'"
    );
}

#[test]
fn stream_copy_needs_compatible_streams() {
    let p = probe();
    let mut config = copy_config();
    assert_eq!(
        reason(validate_stream_copy_compatibility(&config, &p)),
        "Audio codec 'flac' from source track #2 is incompatible with container 'mp4'"
    );
    config.selected_audio_tracks = vec![1];
    assert_eq!(
        reason(validate_stream_copy_compatibility(&config, &p)),
        "Subtitle codec 'subrip' from source track #4 is incompatible with container 'mp4'"
    );
    config.selected_subtitle_tracks = vec![3];
    assert!(validate_stream_copy_compatibility(&config, &p).is_ok());
    config.selected_subtitle_tracks = vec![3, 9];
    assert_eq!(
        reason(validate_stream_copy_compatibility(&config, &p)),
        "Selected subtitle track #9 was not found in source"
    );
    config.selected_audio_tracks = vec![8];
    assert_eq!(
        reason(validate_stream_copy_compatibility(&config, &p)),
        "Selected audio track #8 was not found in source"
    );
}

#[test]
fn stream_copy_needs_a_video_stream() {
    let mut p = probe();
    p.video_codec = None;
    assert_eq!(
        reason(validate_stream_copy_compatibility(&copy_config(), &p)),
        "Source has no video stream; choose an audio container for stream copy"
    );
}

#[test]
fn stream_copy_into_audio_container() {
    let mut p = probe();
    let mut config = copy_config();
    config.container = "flac".to_string();
    assert_eq!(
        reason(validate_stream_copy_compatibility(&config, &p)),
        "Audio codec 'aac' from source track #1 is incompatible with container 'flac'"
    );
    config.selected_audio_tracks = vec![2];
    assert!(validate_stream_copy_compatibility(&config, &p).is_ok());
    p.video_codec = None;
    assert!(validate_stream_copy_compatibility(&config, &p).is_ok());
    p.audio_tracks.clear();
    config.selected_audio_tracks = vec![];
    assert_eq!(
        reason(validate_stream_copy_compatibility(&config, &p)),
        "Source has no audio streams to copy into an audio container"
    );
}

#[test]
fn error_is_described_with_its_label() {
    let e = ConversionError::InvalidInput("x".to_string());
    assert!(e.is_invalid_input());
    assert_eq!(e.describe(), "Invalid input: x");
    assert_eq!(ConversionError::Io("disk".to_string()).describe(), "IO error: disk");
    assert_eq!(ConversionError::Shell("no tool".to_string()).describe(), "Shell error: no tool");
    let w = ConversionError::Worker("exit 1".to_string());
    assert!(!w.is_invalid_input());
    assert_eq!(w.describe(), "Worker error: exit 1");
}

#[test]
fn upscaling_is_requested_by_a_named_mode() {
    let mut config = base_config();
    assert!(!is_upscale_requested(&config));
    for (mode, requested) in [
        ("", false),
        ("none", false),
        ("esrgan-2x", true),
        ("esrgan-4x", true),
        ("anything", true),
        ("None", true),
    ] {
        config.ml_upscale = Some(mode.to_string());
        assert_eq!(is_upscale_requested(&config), requested, "{:?}", mode);
    }
}
