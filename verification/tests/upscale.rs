use frame_conversion::error::ConversionError;
use frame_conversion::pipeline::{
    default_markers, frame_counter, read_frame_counter, text_contains, Pipeline, Stage, StageExit,
};
use frame_conversion::progress::{
    decode_stage_progress, encode_stage_progress, upscale_stage_progress, RunningStage, COMPLETE,
    DECODE_END, ENCODE_CAP, UPSCALE_END,
};
use frame_conversion::types::{
    ConversionConfig, ConversionTask, MetadataConfig, MetadataMode, ProbeMetadata,
};
use frame_conversion::upscale::{
    active_duration, build_decode_args, build_sequence_args, build_upscaler_args, estimate_frames,
    format_rate, plan_upscale, upscale_mode, work_dir_name, UpscaleMode,
};

fn base_config() -> ConversionConfig {
    ConversionConfig {
        container: "mp4".to_string(),
        processing_mode: "reencode".to_string(),
        video_codec: "libx264".to_string(),
        video_bitrate_mode: "crf".to_string(),
        video_bitrate: "5000".to_string(),
        crf: 18,
        quality: 50,
        preset: "slow".to_string(),
        hw_decode: false,
        nvenc_spatial_aq: false,
        nvenc_temporal_aq: false,
        videotoolbox_allow_sw: false,
        audio_codec: "aac".to_string(),
        audio_bitrate: "192".to_string(),
        audio_channels: "original".to_string(),
        audio_volume: 10_000,
        audio_normalize: false,
        selected_audio_tracks: vec![],
        selected_subtitle_tracks: vec![],
        subtitle_burn_path: None,
        resolution: "original".to_string(),
        custom_width: None,
        custom_height: None,
        scaling_algorithm: "".to_string(),
        fps: "original".to_string(),
        rotation: "0".to_string(),
        flip_horizontal: false,
        flip_vertical: false,
        crop: None,
        start_time: None,
        end_time: None,
        metadata: MetadataConfig {
            mode: MetadataMode::Preserve,
            title: None,
            artist: None,
            album: None,
            genre: None,
            date: None,
            comment: None,
        },
        ml_upscale: Some("esrgan-2x".to_string()),
        gif_colors: 256,
        gif_dither: "sierra2_4a".to_string(),
        gif_loop: 0,
    }
}

fn probe() -> ProbeMetadata {
    ProbeMetadata {
        video_codec: Some("h264".to_string()),
        duration: Some("00:00:10".to_string()),
        frame_rate: Some(29_970),
        audio_tracks: vec![],
        subtitle_tracks: vec![],
    }
}

fn worker_reason(exit: StageExit) -> String {
    match exit {
        StageExit::Failed(ConversionError::Worker(reason)) => reason,
        other => panic!("expected a worker failure, got {:?}", other),
    }
}

#[test]
fn plan_settles_mode_output_and_frames() {
    let task = ConversionTask {
        id: "t1".to_string(),
        file_path: "/v/in.mov".to_string(),
        output_name: Some("big".to_string()),
        config: base_config(),
    };
    let plan = plan_upscale(&task, &probe()).unwrap();
    assert_eq!(plan.mode, UpscaleMode::X2);
    assert_eq!(plan.output_path, "/v/big.mp4");
    assert_eq!(plan.frame_rate, 29_970);
    assert_eq!(plan.expected_frames, 300);
    let mut p = probe();
    p.frame_rate = None;
    p.duration = None;
    let plan = plan_upscale(&task, &p).unwrap();
    assert_eq!(plan.frame_rate, 30_000);
    assert_eq!(plan.expected_frames, 0);
}

#[test]
fn plan_needs_a_preset() {
    let mut task = ConversionTask {
        id: "t1".to_string(),
        file_path: "/v/in.mov".to_string(),
        output_name: None,
        config: base_config(),
    };
    for bad in [None, Some("none"), Some(""), Some("esrgan-8x")] {
        task.config.ml_upscale = bad.map(|s| s.to_string());
        match plan_upscale(&task, &probe()) {
            Err(ConversionError::InvalidInput(r)) => assert_eq!(r, "Invalid upscale mode"),
            other => panic!("unexpected {:?}", other),
        }
    }
    task.config.ml_upscale = Some("esrgan-4x".to_string());
    assert_eq!(upscale_mode(&task.config).unwrap(), UpscaleMode::X4);
    assert_eq!(UpscaleMode::X4.factor(), "4");
    assert_eq!(UpscaleMode::X4.model(), "realesr-animevideov3-x4");
    assert_eq!(UpscaleMode::X2.factor(), "2");
    assert_eq!(UpscaleMode::X2.model(), "realesr-animevideov3-x2");
}

#[test]
fn trim_window_and_frame_estimate() {
    let mut config = base_config();
    let duration = Some("00:01:00".to_string());
    assert_eq!(active_duration(&config, &duration), 60_000);
    config.start_time = Some("00:00:10".to_string());
    assert_eq!(active_duration(&config, &duration), 50_000);
    config.end_time = Some("00:00:30.5".to_string());
    assert_eq!(active_duration(&config, &duration), 20_500);
    config.end_time = Some("00:00:05".to_string());
    assert_eq!(active_duration(&config, &duration), 0);
    config.end_time = Some("garbage".to_string());
    assert_eq!(active_duration(&config, &duration), 50_000);
    assert_eq!(active_duration(&config, &None), 0);

    assert_eq!(estimate_frames(10_000, 30_000), 300);
    assert_eq!(estimate_frames(10_000, 29_970), 300);
    assert_eq!(estimate_frames(1_000, 23_976), 24);
    assert_eq!(estimate_frames(1, 1), 1);
    assert_eq!(estimate_frames(0, 30_000), 0);
    assert_eq!(estimate_frames(1_000, 24_000), 24);
    assert_eq!(estimate_frames(u64::MAX, u32::MAX), u32::MAX);
}

#[test]
fn frame_rate_is_written_without_trailing_zeros() {
    assert_eq!(format_rate(30_000), "30");
    assert_eq!(format_rate(29_970), "29.97");
    assert_eq!(format_rate(23_976), "23.976");
    assert_eq!(format_rate(12_500), "12.5");
    assert_eq!(format_rate(5), "0.005");
    assert_eq!(format_rate(50), "0.05");
    assert_eq!(format_rate(0), "0");
    assert_eq!(work_dir_name("task-7"), "frame_upscale_task-7");
}

#[test]
fn decode_vector_is_exact() {
    let mut config = base_config();
    config.start_time = Some("00:00:02".to_string());
    config.end_time = Some("00:00:04".to_string());
    config.flip_vertical = true;
    config.resolution = "720p".to_string();
    let args = build_decode_args(&config, "/v/in.mov", "/tmp/w/input/frame_%08d.png");
    assert_eq!(
        args,
        vec![
            "-ss",
            "00:00:02",
            "-i",
            "/v/in.mov",
            "-t",
            "2.000",
            "-vf",
            "vflip",
            "/tmp/w/input/frame_%08d.png",
        ]
    );
    let args = build_decode_args(&base_config(), "in", "out_%08d.png");
    assert_eq!(args, vec!["-i", "in", "out_%08d.png"]);
}

#[test]
fn upscaler_vector_is_exact() {
    let args = build_upscaler_args(UpscaleMode::X4, "/w/in", "/w/out", "/res/models");
    assert_eq!(
        args,
        vec![
            "-v",
            "-i",
            "/w/in",
            "-o",
            "/w/out",
            "-s",
            "4",
            "-f",
            "png",
            "-m",
            "/res/models",
            "-n",
            "realesr-animevideov3-x4",
            "-j",
            "4:4:4",
            "-g",
            "0",
            "-t",
            "0",
        ]
    );
}

#[test]
fn encode_vector_is_exact() {
    let args = build_sequence_args(&base_config(), 29_970, "/w/out/frame_%08d.png", "in.mov", "out.mp4");
    assert_eq!(
        args,
        vec![
            "-framerate",
            "29.97",
            "-start_number",
            "1",
            "-i",
            "/w/out/frame_%08d.png",
            "-i",
            "in.mov",
            "-map",
            "0:v:0",
            "-map",
            "1:a?",
            "-map",
            "1:s?",
            "-c:v",
            "libx264",
            "-crf",
            "18",
            "-preset",
            "slow",
            "-c:a",
            "copy",
            "-c:s",
            "copy",
            "-pix_fmt",
            "yuv420p",
            "-shortest",
            "out.mp4",
            "-y",
        ]
    );
}

#[test]
fn encode_vector_with_tracks_filters_and_metadata() {
    let mut config = base_config();
    config.start_time = Some("00:00:03".to_string());
    config.fps = "60".to_string();
    config.selected_audio_tracks = vec![1];
    config.selected_subtitle_tracks = vec![2, 3];
    config.audio_channels = "stereo".to_string();
    config.audio_normalize = true;
    config.subtitle_burn_path = Some("/s.srt".to_string());
    config.metadata.mode = MetadataMode::Clean;
    let args = build_sequence_args(&config, 25_000, "f_%08d.png", "in.mov", "out.mp4");
    assert_eq!(
        args,
        vec![
            "-framerate",
            "60",
            "-start_number",
            "1",
            "-i",
            "f_%08d.png",
            "-ss",
            "00:00:03",
            "-i",
            "in.mov",
            "-map_metadata",
            "-1",
            "-map",
            "0:v:0",
            "-map",
            "1:1",
            "-map",
            "1:2",
            "-map",
            "1:3",
            "-c:v",
            "libx264",
            "-crf",
            "18",
            "-preset",
            "slow",
            "-c:a",
            "aac",
            "-b:a",
            "192k",
            "-ac",
            "2",
            "-af",
            "loudnorm=I=-16:TP=-1.5:LRA=11",
            "-r",
            "60",
            "-pix_fmt",
            "yuv420p",
            "-shortest",
            "out.mp4",
            "-y",
        ]
    );
}

#[test]
fn progress_formulas() {
    assert_eq!(decode_stage_progress(0, 100), Some(0));
    assert_eq!(decode_stage_progress(50, 100), Some(250));
    assert_eq!(decode_stage_progress(1, 3), Some(166));
    assert_eq!(decode_stage_progress(100, 100), Some(DECODE_END));
    assert_eq!(decode_stage_progress(u32::MAX, 1), Some(DECODE_END));
    assert_eq!(upscale_stage_progress(0, 100), 500);
    assert_eq!(upscale_stage_progress(50, 100), 4_750);
    assert_eq!(upscale_stage_progress(1, 3), 3_333);
    assert_eq!(upscale_stage_progress(100, 100), UPSCALE_END);
    assert_eq!(upscale_stage_progress(400, 100), UPSCALE_END);
    assert_eq!(upscale_stage_progress(0, 0), 500);
    assert_eq!(upscale_stage_progress(10, 0), 1_500);
    assert_eq!(upscale_stage_progress(85, 0), UPSCALE_END);
    assert_eq!(upscale_stage_progress(u32::MAX, 0), UPSCALE_END);
    assert_eq!(encode_stage_progress(0, 100), Some(9_000));
    assert_eq!(encode_stage_progress(50, 100), Some(9_500));
    assert_eq!(encode_stage_progress(89, 100), Some(9_890));
    assert_eq!(encode_stage_progress(90, 100), Some(ENCODE_CAP));
    assert_eq!(encode_stage_progress(100, 100), Some(ENCODE_CAP));
    assert_eq!(encode_stage_progress(u32::MAX, 7), Some(ENCODE_CAP));
    assert_eq!(decode_stage_progress(5, 0), None);
    assert_eq!(encode_stage_progress(5, 0), None);
    assert!(ENCODE_CAP < COMPLETE);
}

#[test]
fn frame_counter_is_read_from_transcoder_lines() {
    assert_eq!(
        frame_counter("frame=  123 fps= 25 q=28.0 size=     256kB time=00:00:04.92"),
        Some(123)
    );
    assert_eq!(frame_counter("frame=7"), Some(7));
    assert_eq!(frame_counter("x frame=\t 42y"), Some(42));
    assert_eq!(frame_counter("frame= x frame=9"), Some(9));
    assert_eq!(frame_counter("frames=12"), None);
    assert_eq!(frame_counter("frame="), None);
    assert_eq!(frame_counter("123"), None);
    assert_eq!(frame_counter(""), None);
    assert_eq!(frame_counter("frame=4294967295"), Some(u32::MAX));
    assert_eq!(frame_counter("frame=4294967296"), None);
    assert_eq!(frame_counter("frame=\u{0663}"), None);
}

#[test]
fn captured_digits_are_read_as_a_number() {
    assert_eq!(read_frame_counter(Some(Some("0012".to_string()))), Some(12));
    assert_eq!(read_frame_counter(Some(Some("+5".to_string()))), Some(5));
    assert_eq!(read_frame_counter(Some(Some("".to_string()))), None);
    assert_eq!(read_frame_counter(Some(Some("1a".to_string()))), None);
    assert_eq!(read_frame_counter(Some(Some("99999999999".to_string()))), None);
    assert_eq!(read_frame_counter(Some(None)), None);
    assert_eq!(read_frame_counter(None), None);
}

#[test]
fn text_search() {
    assert!(text_contains("a -> b", "->"));
    assert!(text_contains("->", "->"));
    assert!(text_contains("abc", ""));
    assert!(text_contains("", ""));
    assert!(text_contains("in.png \u{2192} out.png", "\u{2192}"));
    assert!(!text_contains("a - > b", "->"));
    assert!(!text_contains("-", "->"));
    assert!(!text_contains("", "x"));
    assert!(text_contains("aab", "ab"));
}

#[test]
fn pipeline_runs_its_stages_in_order() {
    let mut p = Pipeline::new(200, default_markers());
    assert_eq!(p.stage, Stage::Decode);

    let out = p.on_line("  frame=   50 fps=30 \n");
    assert_eq!(out.log.as_deref(), Some("[DECODE] frame=   50 fps=30"));
    assert_eq!(out.progress, Some(125));
    let out = p.on_line("Press [q] to stop");
    assert_eq!(out.log.as_deref(), Some("[DECODE] Press [q] to stop"));
    assert_eq!(out.progress, None);

    match p.on_exit(Some(0), Some(100)) {
        StageExit::Start(RunningStage::Upscale) => {}
        other => panic!("unexpected {:?}", other),
    }
    assert_eq!(p.stage, Stage::Upscale);
    assert_eq!(p.total_frames, 100);

    let out = p.on_line("12.50%");
    assert_eq!(out.log, None);
    assert_eq!(out.progress, None);
    let out = p.on_line("   ");
    assert_eq!(out.log, None);
    let out = p.on_line("/w/in/frame_00000001.png -> /w/out/frame_00000001.png done");
    assert_eq!(
        out.log.as_deref(),
        Some("[UPSCALE] /w/in/frame_00000001.png -> /w/out/frame_00000001.png done")
    );
    assert_eq!(out.progress, Some(585));
    let out = p.on_line("a \u{2192} b");
    assert_eq!(out.progress, Some(670));
    assert_eq!(p.completed_frames, 2);
    let out = p.on_line("frame=99 is not counted here");
    assert_eq!(out.progress, None);
    assert_eq!(p.last_line, "frame=99 is not counted here");

    match p.on_exit(Some(0), None) {
        StageExit::Start(RunningStage::Encode) => {}
        other => panic!("unexpected {:?}", other),
    }
    assert_eq!(p.stage, Stage::Encode);
    assert_eq!(p.total_frames, 100);

    let out = p.on_line("frame=   25 fps=60");
    assert_eq!(out.log.as_deref(), Some("[ENCODE] frame=   25 fps=60"));
    assert_eq!(out.progress, Some(9_250));
    let out = p.on_line("frame=  100 fps=60");
    assert_eq!(out.progress, Some(ENCODE_CAP));

    match p.on_exit(Some(0), None) {
        StageExit::Completed => {}
        other => panic!("unexpected {:?}", other),
    }
    assert_eq!(p.stage, Stage::Done);
    let out = p.on_line("frame=1");
    assert_eq!(out.log, None);
    assert_eq!(out.progress, None);
    match p.on_exit(Some(0), None) {
        StageExit::Ignored => {}
        other => panic!("unexpected {:?}", other),
    }
    assert_eq!(p.stage, Stage::Done);
}

#[test]
fn pipeline_progress_never_goes_back() {
    let mut p = Pipeline::new(40, default_markers());
    let mut reports: Vec<u32> = Vec::new();
    for frame in [1, 10, 20, 39, 40, 41] {
        reports.extend(p.on_line(&format!("frame={}", frame)).progress);
    }
    p.on_exit(Some(0), Some(40));
    for _ in 0..45 {
        reports.extend(p.on_line("in -> out").progress);
    }
    p.on_exit(Some(0), None);
    for frame in [1, 10, 20, 39, 40, 400] {
        reports.extend(p.on_line(&format!("frame={}", frame)).progress);
    }
    assert_eq!(reports.len(), 6 + 45 + 6);
    assert!(reports.windows(2).all(|w| w[0] <= w[1]));
    assert!(reports.iter().all(|r| *r <= ENCODE_CAP));
    assert_eq!(reports[0], 12);
    assert_eq!(*reports.last().unwrap(), ENCODE_CAP);
}

#[test]
fn estimate_stays_when_no_frame_was_counted() {
    let mut p = Pipeline::new(77, default_markers());
    p.on_exit(Some(0), Some(0));
    assert_eq!(p.total_frames, 77);
    let mut p = Pipeline::new(77, default_markers());
    p.on_exit(Some(0), None);
    assert_eq!(p.total_frames, 77);
    let mut p = Pipeline::new(0, default_markers());
    assert_eq!(p.on_line("frame=5").progress, None);
    p.on_exit(Some(0), None);
    assert_eq!(p.on_line("a -> b").progress, Some(600));
}

#[test]
fn failed_stage_ends_the_pipeline() {
    let mut p = Pipeline::new(10, default_markers());
    assert_eq!(worker_reason(p.on_exit(Some(1), Some(10))), "Frame extraction failed");
    assert_eq!(p.stage, Stage::Failed);
    match p.on_exit(Some(0), None) {
        StageExit::Ignored => {}
        other => panic!("unexpected {:?}", other),
    }

    let mut p = Pipeline::new(10, default_markers());
    p.on_exit(Some(0), None);
    p.on_line("vkCreateInstance failed\n");
    assert_eq!(worker_reason(p.on_exit(None, None)), "Upscaling failed: vkCreateInstance failed\n");
    assert_eq!(p.stage, Stage::Failed);

    let mut p = Pipeline::new(10, default_markers());
    p.on_exit(Some(0), None);
    p.on_exit(Some(0), None);
    assert_eq!(worker_reason(p.on_exit(Some(-9), None)), "Encoder failed with code Some(-9)");
    let mut p = Pipeline::new(10, default_markers());
    p.on_exit(Some(0), None);
    p.on_exit(Some(0), None);
    assert_eq!(worker_reason(p.on_exit(None, None)), "Encoder failed with code None");
    assert_eq!(p.stage, Stage::Failed);
}

#[test]
fn markers_are_configurable() {
    let mut p = Pipeline::new(4, vec!["done:".to_string()]);
    p.on_exit(Some(0), None);
    assert_eq!(p.on_line("a -> b").progress, None);
    assert_eq!(p.on_line("done: 1").progress, Some(2_625));
    assert_eq!(default_markers(), vec!["\u{2192}", "->"]);
}

#[test]
fn falling_counters_are_not_reported() {
    let mut p = Pipeline::new(100, default_markers());
    assert_eq!(p.reported, 0);
    assert_eq!(p.on_line("frame=50").progress, Some(250));
    assert_eq!(p.reported, 250);
    let out = p.on_line("frame=10");
    assert_eq!(out.progress, None);
    assert_eq!(out.log.as_deref(), Some("[DECODE] frame=10"));
    assert_eq!(p.reported, 250);
    assert_eq!(p.on_line("frame=49").progress, None);
    assert_eq!(p.on_line("frame=50").progress, Some(250));
    assert_eq!(p.on_line("frame=60").progress, Some(300));
    assert_eq!(p.on_line_with("no counter in the text", Some(20)).progress, None);
    assert_eq!(p.on_line_with("no counter in the text", Some(80)).progress, Some(400));
    p.on_exit(Some(0), Some(100));
    assert_eq!(p.reported, 400);
    assert_eq!(p.on_line("a -> b").progress, Some(585));
    p.on_exit(Some(0), None);
    assert_eq!(p.reported, 585);
    assert_eq!(p.on_line("frame=90").progress, Some(ENCODE_CAP));
    assert_eq!(p.on_line("frame=10").progress, None);
    assert_eq!(p.on_line("frame=95").progress, Some(ENCODE_CAP));
    assert_eq!(p.reported, ENCODE_CAP);
    p.on_exit(Some(0), None);
    assert_eq!(p.reported, ENCODE_CAP);
}

#[test]
fn reports_never_fall_whatever_the_counters() {
    let mut p = Pipeline::new(50, default_markers());
    let mut reports: Vec<u32> = Vec::new();
    let mut seed: u32 = 12345;
    for step in 0..600 {
        seed = seed.wrapping_mul(1_103_515_245).wrapping_add(12_345);
        let counter = (seed >> 16) % 120;
        let line = match seed % 5 {
            0 => "in -> out".to_string(),
            1 => "17.5%".to_string(),
            _ => format!("frame={:5} fps=30", counter),
        };
        let before = p.reported;
        let out = p.on_line(&line);
        if let Some(r) = out.progress {
            assert!(r >= before);
            assert_eq!(p.reported, r);
            reports.push(r);
        } else {
            assert_eq!(p.reported, before);
        }
        if step == 200 {
            p.on_exit(Some(0), Some(37));
        }
        if step == 400 {
            p.on_exit(Some(0), None);
        }
    }
    assert_eq!(p.stage, Stage::Encode);
    assert!(reports.len() > 10);
    assert!(reports.windows(2).all(|w| w[0] <= w[1]));
    assert!(reports.iter().all(|r| *r <= ENCODE_CAP));
}
