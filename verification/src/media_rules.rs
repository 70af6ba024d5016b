//! The static rules table: which codecs each output container can hold.
//!
//! Encoder names are what a re-encode may be asked to produce; stream codec
//! names are what the prober reports of a source and what a stream copy would
//! carry over unchanged.

use vstd::prelude::*;
use vstd::string::*;
use crate::text::str_eq;

verus! {

/// The feature set that applies to a container.
#[derive(Clone, Copy, Debug, PartialEq, Eq, Structural)]
pub enum ContainerClass {
    /// Video with audio and subtitles.
    General,
    /// Audio streams only.
    AudioOnly,
    /// One video stream and nothing else.
    VideoOnly,
}

/// One row of the rules table.
#[derive(Clone, Copy, Debug)]
pub struct ContainerRules {
    pub class: ContainerClass,
    pub video_encoders: &'static [&'static str],
    pub audio_encoders: &'static [&'static str],
    pub video_streams: &'static [&'static str],
    pub audio_streams: &'static [&'static str],
    pub subtitle_streams: &'static [&'static str],
}

/// A row of the rules table as plain sequences.
pub struct RulesView {
    pub class: ContainerClass,
    pub video_encoders: Seq<Seq<char>>,
    pub audio_encoders: Seq<Seq<char>>,
    pub video_streams: Seq<Seq<char>>,
    pub audio_streams: Seq<Seq<char>>,
    pub subtitle_streams: Seq<Seq<char>>,
}

/// The texts of a list of names.
pub open spec fn texts(v: Seq<&'static str>) -> Seq<Seq<char>> {
    Seq::new(v.len(), |i: int| v[i]@)
}

impl View for ContainerRules {
    type V = RulesView;

    open spec fn view(&self) -> RulesView {
        RulesView {
            class: self.class,
            video_encoders: texts(self.video_encoders@),
            audio_encoders: texts(self.audio_encoders@),
            video_streams: texts(self.video_streams@),
            audio_streams: texts(self.audio_streams@),
            subtitle_streams: texts(self.subtitle_streams@),
        }
    }
}

/// The rules table.  A container that has no row is unknown, and nothing is
/// allowed in it.
pub open spec fn rules_table(container: Seq<char>) -> Option<RulesView> {
    if container == "mp4"@ {
        Some(
            RulesView {
                class: ContainerClass::General,
                video_encoders: seq![
                    "libx264"@,
                    "libx265"@,
                    "libsvtav1"@,
                    "h264_nvenc"@,
                    "hevc_nvenc"@,
                    "av1_nvenc"@,
                    "h264_videotoolbox"@,
                    "hevc_videotoolbox"@,
                ],
                audio_encoders: seq!["aac"@, "ac3"@, "libopus"@, "libmp3lame"@, "alac"@],
                video_streams: seq!["h264"@, "hevc"@, "av1"@, "mpeg4"@],
                audio_streams: seq!["aac"@, "ac3"@, "eac3"@, "mp3"@, "opus"@, "alac"@],
                subtitle_streams: seq!["mov_text"@],
            },
        )
    } else if container == "mkv"@ {
        Some(
            RulesView {
                class: ContainerClass::General,
                video_encoders: seq![
                    "libx264"@,
                    "libx265"@,
                    "libvpx-vp9"@,
                    "libsvtav1"@,
                    "prores_ks"@,
                    "h264_nvenc"@,
                    "hevc_nvenc"@,
                    "av1_nvenc"@,
                    "h264_videotoolbox"@,
                    "hevc_videotoolbox"@,
                ],
                audio_encoders: seq![
                    "aac"@,
                    "ac3"@,
                    "libopus"@,
                    "libmp3lame"@,
                    "alac"@,
                    "flac"@,
                    "pcm_s16le"@,
                ],
                video_streams: seq![
                    "h264"@,
                    "hevc"@,
                    "av1"@,
                    "vp9"@,
                    "vp8"@,
                    "mpeg4"@,
                    "prores"@,
                ],
                audio_streams: seq![
                    "aac"@,
                    "ac3"@,
                    "eac3"@,
                    "mp3"@,
                    "opus"@,
                    "vorbis"@,
                    "flac"@,
                    "alac"@,
                    "pcm_s16le"@,
                ],
                subtitle_streams: seq![
                    "subrip"@,
                    "ass"@,
                    "webvtt"@,
                    "hdmv_pgs_subtitle"@,
                    "dvd_subtitle"@,
                ],
            },
        )
    } else if container == "webm"@ {
        Some(
            RulesView {
                class: ContainerClass::General,
                video_encoders: seq!["libvpx-vp9"@, "libsvtav1"@, "av1_nvenc"@],
                audio_encoders: seq!["libopus"@, "libvorbis"@],
                video_streams: seq!["vp8"@, "vp9"@, "av1"@],
                audio_streams: seq!["opus"@, "vorbis"@],
                subtitle_streams: seq!["webvtt"@],
            },
        )
    } else if container == "mov"@ {
        Some(
            RulesView {
                class: ContainerClass::General,
                video_encoders: seq![
                    "libx264"@,
                    "libx265"@,
                    "prores_ks"@,
                    "h264_nvenc"@,
                    "hevc_nvenc"@,
                    "h264_videotoolbox"@,
                    "hevc_videotoolbox"@,
                ],
                audio_encoders: seq!["aac"@, "ac3"@, "alac"@, "pcm_s16le"@],
                video_streams: seq!["h264"@, "hevc"@, "prores"@, "mpeg4"@],
                audio_streams: seq!["aac"@, "ac3"@, "alac"@, "pcm_s16le"@],
                subtitle_streams: seq!["mov_text"@],
            },
        )
    } else if container == "mp3"@ {
        Some(
            RulesView {
                class: ContainerClass::AudioOnly,
                video_encoders: seq![],
                audio_encoders: seq!["libmp3lame"@],
                video_streams: seq![],
                audio_streams: seq!["mp3"@],
                subtitle_streams: seq![],
            },
        )
    } else if container == "m4a"@ {
        Some(
            RulesView {
                class: ContainerClass::AudioOnly,
                video_encoders: seq![],
                audio_encoders: seq!["aac"@, "alac"@],
                video_streams: seq![],
                audio_streams: seq!["aac"@, "alac"@],
                subtitle_streams: seq![],
            },
        )
    } else if container == "wav"@ {
        Some(
            RulesView {
                class: ContainerClass::AudioOnly,
                video_encoders: seq![],
                audio_encoders: seq!["pcm_s16le"@],
                video_streams: seq![],
                audio_streams: seq!["pcm_s16le"@],
                subtitle_streams: seq![],
            },
        )
    } else if container == "flac"@ {
        Some(
            RulesView {
                class: ContainerClass::AudioOnly,
                video_encoders: seq![],
                audio_encoders: seq!["flac"@],
                video_streams: seq![],
                audio_streams: seq!["flac"@],
                subtitle_streams: seq![],
            },
        )
    } else if container == "gif"@ {
        Some(
            RulesView {
                class: ContainerClass::VideoOnly,
                video_encoders: seq!["gif"@],
                audio_encoders: seq![],
                video_streams: seq!["gif"@],
                audio_streams: seq![],
                subtitle_streams: seq![],
            },
        )
    } else {
        None
    }
}

/// The class of a container that the table knows.
pub open spec fn class_of(container: Seq<char>) -> Option<ContainerClass> {
    match rules_table(container) {
        Some(row) => Some(row.class),
        None => None,
    }
}

pub open spec fn audio_only(container: Seq<char>) -> bool {
    class_of(container) == Some(ContainerClass::AudioOnly)
}

pub open spec fn video_only(container: Seq<char>) -> bool {
    class_of(container) == Some(ContainerClass::VideoOnly)
}

/// The container takes audio streams.
pub open spec fn supports_audio(container: Seq<char>) -> bool {
    rules_table(container) matches Some(row) && row.audio_encoders.len() > 0
}

/// The container takes subtitle streams.
pub open spec fn supports_subtitles(container: Seq<char>) -> bool {
    rules_table(container) matches Some(row) && row.subtitle_streams.len() > 0
}

/// A re-encode into `container` may use the video encoder `codec`.
pub open spec fn video_codec_allowed(container: Seq<char>, codec: Seq<char>) -> bool {
    rules_table(container) matches Some(row) && row.video_encoders.contains(codec)
}

/// A re-encode into `container` may use the audio encoder `codec`.
pub open spec fn audio_codec_allowed(container: Seq<char>, codec: Seq<char>) -> bool {
    rules_table(container) matches Some(row) && row.audio_encoders.contains(codec)
}

/// A video stream of codec `codec` may be copied into `container`.
pub open spec fn video_stream_allowed(container: Seq<char>, codec: Seq<char>) -> bool {
    rules_table(container) matches Some(row) && row.video_streams.contains(codec)
}

/// An audio stream of codec `codec` may be copied into `container`.
pub open spec fn audio_stream_allowed(container: Seq<char>, codec: Seq<char>) -> bool {
    rules_table(container) matches Some(row) && row.audio_streams.contains(codec)
}

/// A subtitle stream of codec `codec` may be copied into `container`.
pub open spec fn subtitle_stream_allowed(container: Seq<char>, codec: Seq<char>) -> bool {
    rules_table(container) matches Some(row) && row.subtitle_streams.contains(codec)
}

/// Each class has exactly its own feature set: an audio-only container takes
/// audio and nothing else, a video-only container takes video and nothing
/// else, and a general container takes video, audio and subtitles.
pub proof fn lemma_class_feature_sets(container: Seq<char>)
    ensures
        rules_table(container) matches Some(row) ==> {
            &&& (row.class == ContainerClass::AudioOnly) == (row.video_encoders.len() == 0)
            &&& (row.class == ContainerClass::VideoOnly) == (row.audio_encoders.len() == 0)
            &&& (row.class == ContainerClass::General) == (row.subtitle_streams.len() > 0)
            &&& (row.video_encoders.len() == 0) == (row.video_streams.len() == 0)
            &&& (row.audio_encoders.len() == 0) == (row.audio_streams.len() == 0)
        },
        audio_only(container) ==> supports_audio(container) && !supports_subtitles(container)
            && !video_only(container),
        video_only(container) ==> !supports_audio(container) && !supports_subtitles(container),
        supports_subtitles(container) ==> supports_audio(container) && !audio_only(container)
            && !video_only(container),
{
}

/// Whether `s` is one of `options`.
pub fn one_of(s: &str, options: &[&'static str]) -> (r: bool)
    ensures
        r == texts(options@).contains(s@),
{
    let mut i: usize = 0;
    while i < options.len()
        invariant
            i <= options.len(),
            forall|j: int| 0 <= j < i ==> texts(options@)[j] != s@,
        decreases options.len() - i,
    {
        if str_eq(s, options[i]) {
            assert(texts(options@)[i as int] == s@);
            return true;
        }
        i += 1;
    }
    false
}

/// Looks `container` up in the rules table.
pub fn container_rules(container: &str) -> (r: Option<ContainerRules>)
    ensures
        match r {
            Some(row) => rules_table(container@) == Some(row@),
            None => rules_table(container@) is None,
        },
{
    let general = ContainerClass::General;
    let audio = ContainerClass::AudioOnly;
    let none: &'static [&'static str] = &[];
    assert(texts(none@) =~= seq![]);
    if str_eq(container, "mp4") {
        let row = ContainerRules {
            class: general,
            video_encoders: &[
                "libx264",
                "libx265",
                "libsvtav1",
                "h264_nvenc",
                "hevc_nvenc",
                "av1_nvenc",
                "h264_videotoolbox",
                "hevc_videotoolbox",
            ],
            audio_encoders: &["aac", "ac3", "libopus", "libmp3lame", "alac"],
            video_streams: &["h264", "hevc", "av1", "mpeg4"],
            audio_streams: &["aac", "ac3", "eac3", "mp3", "opus", "alac"],
            subtitle_streams: &["mov_text"],
        };
        proof {
            let t = rules_table(container@).unwrap();
            assert(row@.video_encoders =~= t.video_encoders);
            assert(row@.audio_encoders =~= t.audio_encoders);
            assert(row@.video_streams =~= t.video_streams);
            assert(row@.audio_streams =~= t.audio_streams);
            assert(row@.subtitle_streams =~= t.subtitle_streams);
        }
        Some(row)
    } else if str_eq(container, "mkv") {
        let row = ContainerRules {
            class: general,
            video_encoders: &[
                "libx264",
                "libx265",
                "libvpx-vp9",
                "libsvtav1",
                "prores_ks",
                "h264_nvenc",
                "hevc_nvenc",
                "av1_nvenc",
                "h264_videotoolbox",
                "hevc_videotoolbox",
            ],
            audio_encoders: &["aac", "ac3", "libopus", "libmp3lame", "alac", "flac", "pcm_s16le"],
            video_streams: &["h264", "hevc", "av1", "vp9", "vp8", "mpeg4", "prores"],
            audio_streams: &[
                "aac",
                "ac3",
                "eac3",
                "mp3",
                "opus",
                "vorbis",
                "flac",
                "alac",
                "pcm_s16le",
            ],
            subtitle_streams: &["subrip", "ass", "webvtt", "hdmv_pgs_subtitle", "dvd_subtitle"],
        };
        proof {
            let t = rules_table(container@).unwrap();
            assert(row@.video_encoders =~= t.video_encoders);
            assert(row@.audio_encoders =~= t.audio_encoders);
            assert(row@.video_streams =~= t.video_streams);
            assert(row@.audio_streams =~= t.audio_streams);
            assert(row@.subtitle_streams =~= t.subtitle_streams);
        }
        Some(row)
    } else if str_eq(container, "webm") {
        let row = ContainerRules {
            class: general,
            video_encoders: &["libvpx-vp9", "libsvtav1", "av1_nvenc"],
            audio_encoders: &["libopus", "libvorbis"],
            video_streams: &["vp8", "vp9", "av1"],
            audio_streams: &["opus", "vorbis"],
            subtitle_streams: &["webvtt"],
        };
        proof {
            let t = rules_table(container@).unwrap();
            assert(row@.video_encoders =~= t.video_encoders);
            assert(row@.audio_encoders =~= t.audio_encoders);
            assert(row@.video_streams =~= t.video_streams);
            assert(row@.audio_streams =~= t.audio_streams);
            assert(row@.subtitle_streams =~= t.subtitle_streams);
        }
        Some(row)
    } else if str_eq(container, "mov") {
        let row = ContainerRules {
            class: general,
            video_encoders: &[
                "libx264",
                "libx265",
                "prores_ks",
                "h264_nvenc",
                "hevc_nvenc",
                "h264_videotoolbox",
                "hevc_videotoolbox",
            ],
            audio_encoders: &["aac", "ac3", "alac", "pcm_s16le"],
            video_streams: &["h264", "hevc", "prores", "mpeg4"],
            audio_streams: &["aac", "ac3", "alac", "pcm_s16le"],
            subtitle_streams: &["mov_text"],
        };
        proof {
            let t = rules_table(container@).unwrap();
            assert(row@.video_encoders =~= t.video_encoders);
            assert(row@.audio_encoders =~= t.audio_encoders);
            assert(row@.video_streams =~= t.video_streams);
            assert(row@.audio_streams =~= t.audio_streams);
            assert(row@.subtitle_streams =~= t.subtitle_streams);
        }
        Some(row)
    } else if str_eq(container, "mp3") {
        let row = ContainerRules {
            class: audio,
            video_encoders: none,
            audio_encoders: &["libmp3lame"],
            video_streams: none,
            audio_streams: &["mp3"],
            subtitle_streams: none,
        };
        proof {
            let t = rules_table(container@).unwrap();
            assert(row@.audio_encoders =~= t.audio_encoders);
            assert(row@.audio_streams =~= t.audio_streams);
        }
        Some(row)
    } else if str_eq(container, "m4a") {
        let row = ContainerRules {
            class: audio,
            video_encoders: none,
            audio_encoders: &["aac", "alac"],
            video_streams: none,
            audio_streams: &["aac", "alac"],
            subtitle_streams: none,
        };
        proof {
            let t = rules_table(container@).unwrap();
            assert(row@.audio_encoders =~= t.audio_encoders);
            assert(row@.audio_streams =~= t.audio_streams);
        }
        Some(row)
    } else if str_eq(container, "wav") {
        let row = ContainerRules {
            class: audio,
            video_encoders: none,
            audio_encoders: &["pcm_s16le"],
            video_streams: none,
            audio_streams: &["pcm_s16le"],
            subtitle_streams: none,
        };
        proof {
            let t = rules_table(container@).unwrap();
            assert(row@.audio_encoders =~= t.audio_encoders);
            assert(row@.audio_streams =~= t.audio_streams);
        }
        Some(row)
    } else if str_eq(container, "flac") {
        let row = ContainerRules {
            class: audio,
            video_encoders: none,
            audio_encoders: &["flac"],
            video_streams: none,
            audio_streams: &["flac"],
            subtitle_streams: none,
        };
        proof {
            let t = rules_table(container@).unwrap();
            assert(row@.audio_encoders =~= t.audio_encoders);
            assert(row@.audio_streams =~= t.audio_streams);
        }
        Some(row)
    } else if str_eq(container, "gif") {
        let row = ContainerRules {
            class: ContainerClass::VideoOnly,
            video_encoders: &["gif"],
            audio_encoders: none,
            video_streams: &["gif"],
            audio_streams: none,
            subtitle_streams: none,
        };
        proof {
            let t = rules_table(container@).unwrap();
            assert(row@.video_encoders =~= t.video_encoders);
            assert(row@.video_streams =~= t.video_streams);
        }
        Some(row)
    } else {
        None
    }
}

/// Whether the container holds audio streams only.
pub fn is_audio_only_container(container: &str) -> (r: bool)
    ensures
        r == audio_only(container@),
{
    match container_rules(container) {
        Some(row) => row.class == ContainerClass::AudioOnly,
        None => false,
    }
}

/// Whether the container holds one video stream and nothing else.
pub fn is_video_only_container(container: &str) -> (r: bool)
    ensures
        r == video_only(container@),
{
    match container_rules(container) {
        Some(row) => row.class == ContainerClass::VideoOnly,
        None => false,
    }
}

pub fn container_supports_audio(container: &str) -> (r: bool)
    ensures
        r == supports_audio(container@),
{
    match container_rules(container) {
        Some(row) => row.audio_encoders.len() > 0,
        None => false,
    }
}

pub fn container_supports_subtitles(container: &str) -> (r: bool)
    ensures
        r == supports_subtitles(container@),
{
    match container_rules(container) {
        Some(row) => row.subtitle_streams.len() > 0,
        None => false,
    }
}

/// Whether a re-encode into `container` may use the video encoder `codec`:
/// exactly when the container's row of the rules table lists it.
pub fn is_video_codec_allowed(container: &str, codec: &str) -> (r: bool)
    ensures
        r == video_codec_allowed(container@, codec@),
{
    match container_rules(container) {
        Some(row) => one_of(codec, row.video_encoders),
        None => false,
    }
}

/// Whether a re-encode into `container` may use the audio encoder `codec`:
/// exactly when the container's row of the rules table lists it.
pub fn is_audio_codec_allowed(container: &str, codec: &str) -> (r: bool)
    ensures
        r == audio_codec_allowed(container@, codec@),
{
    match container_rules(container) {
        Some(row) => one_of(codec, row.audio_encoders),
        None => false,
    }
}

pub fn is_video_stream_codec_allowed(container: &str, codec: &str) -> (r: bool)
    ensures
        r == video_stream_allowed(container@, codec@),
{
    match container_rules(container) {
        Some(row) => one_of(codec, row.video_streams),
        None => false,
    }
}

pub fn is_audio_stream_codec_allowed(container: &str, codec: &str) -> (r: bool)
    ensures
        r == audio_stream_allowed(container@, codec@),
{
    match container_rules(container) {
        Some(row) => one_of(codec, row.audio_streams),
        None => false,
    }
}

pub fn is_subtitle_codec_allowed(container: &str, codec: &str) -> (r: bool)
    ensures
        r == subtitle_stream_allowed(container@, codec@),
{
    match container_rules(container) {
        Some(row) => one_of(codec, row.subtitle_streams),
        None => false,
    }
}

} // verus!
