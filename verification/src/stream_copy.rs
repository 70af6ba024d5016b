//! Stream copy compatibility: whether the streams that a copy would carry
//! over are ones that the target container can hold.

use vstd::prelude::*;
use vstd::string::*;
use crate::args::{copy_mode, is_copy_mode};
use crate::error::ConversionError;
use crate::media_rules::{
    audio_only, audio_stream_allowed, container_supports_audio, container_supports_subtitles,
    is_audio_only_container, is_audio_stream_codec_allowed, is_subtitle_codec_allowed,
    is_video_stream_codec_allowed, subtitle_stream_allowed, supports_audio, supports_subtitles,
    video_stream_allowed,
};
use crate::text::{decimal, push_decimal};
use crate::types::{AudioTrack, ConversionConfig, ProbeMetadata, SubtitleTrack};
use crate::validate::{first_of, reports};

verus! {

/// A stream of the source as the rules see it.
pub struct TrackView {
    pub index: u32,
    pub codec: Seq<char>,
}

/// A stream of the source that can be selected for a conversion.
pub trait SourceTrack: Sized {
    /// The stream as the rules see it.
    spec fn track(&self) -> TrackView;

    /// The index of the stream in the source.
    fn stream_index(&self) -> (r: u32)
        ensures
            r == self.track().index,
    ;

    /// The codec of the stream.
    fn codec_name(&self) -> (r: &str)
        ensures
            r@ == self.track().codec,
    ;
}

impl SourceTrack for AudioTrack {
    open spec fn track(&self) -> TrackView {
        TrackView { index: self.index, codec: self.codec@ }
    }

    fn stream_index(&self) -> (r: u32) {
        self.index
    }

    fn codec_name(&self) -> (r: &str) {
        self.codec.as_str()
    }
}

impl SourceTrack for SubtitleTrack {
    open spec fn track(&self) -> TrackView {
        TrackView { index: self.index, codec: self.codec@ }
    }

    fn stream_index(&self) -> (r: u32) {
        self.index
    }

    fn codec_name(&self) -> (r: &str) {
        self.codec.as_str()
    }
}

/// The streams of a list of tracks.
pub open spec fn track_views<T: SourceTrack>(tracks: Seq<T>) -> Seq<TrackView> {
    Seq::new(tracks.len(), |i: int| tracks[i].track())
}

/// The kind of a selectable stream.
#[derive(Clone, Copy, Debug, PartialEq, Eq, Structural)]
pub enum StreamKind {
    Audio,
    Subtitle,
}

/// The position of the first track with stream index `wanted`, or the
/// number of tracks if there is none.
pub open spec fn position_of(tracks: Seq<TrackView>, wanted: u32) -> int
    decreases tracks.len(),
{
    if tracks.len() == 0 {
        0
    } else if tracks.first().index == wanted {
        0
    } else {
        1 + position_of(tracks.drop_first(), wanted)
    }
}

pub proof fn lemma_position_of(tracks: Seq<TrackView>, wanted: u32)
    ensures
        0 <= position_of(tracks, wanted) <= tracks.len(),
        position_of(tracks, wanted) < tracks.len() ==> tracks[position_of(tracks, wanted)].index
            == wanted,
        forall|k: int| 0 <= k < position_of(tracks, wanted) ==> tracks[k].index != wanted,
    decreases tracks.len(),
{
    if tracks.len() > 0 && tracks.first().index != wanted {
        let rest = tracks.drop_first();
        lemma_position_of(rest, wanted);
        assert forall|k: int| 0 <= k < position_of(tracks, wanted) implies tracks[k].index
            != wanted by {
            if k > 0 {
                assert(rest[k - 1] == tracks[k]);
            }
        }
    }
}

/// The positions of the selected tracks, in the order of the selection, or
/// the first selected stream index that the source does not have.
pub open spec fn resolve(selected: Seq<u32>, tracks: Seq<TrackView>) -> Result<Seq<int>, u32>
    decreases selected.len(),
{
    if selected.len() == 0 {
        Ok(Seq::empty())
    } else {
        match resolve(selected.drop_last(), tracks) {
            Err(missing) => Err(missing),
            Ok(positions) => {
                let p = position_of(tracks, selected.last());
                if p < tracks.len() {
                    Ok(positions.push(p))
                } else {
                    Err(selected.last())
                }
            },
        }
    }
}

/// The tracks that a conversion carries over: those selected, or all of
/// them where nothing is selected.
pub open spec fn selection(selected: Seq<u32>, tracks: Seq<TrackView>) -> Result<Seq<int>, u32> {
    if selected.len() == 0 {
        Ok(Seq::new(tracks.len(), |i: int| i))
    } else {
        resolve(selected, tracks)
    }
}

pub open spec fn kind_name(kind: StreamKind) -> Seq<char> {
    match kind {
        StreamKind::Audio => "audio"@,
        StreamKind::Subtitle => "subtitle"@,
    }
}

pub open spec fn kind_title(kind: StreamKind) -> Seq<char> {
    match kind {
        StreamKind::Audio => "Audio"@,
        StreamKind::Subtitle => "Subtitle"@,
    }
}

pub open spec fn stream_allowed(kind: StreamKind, container: Seq<char>, codec: Seq<char>) -> bool {
    match kind {
        StreamKind::Audio => audio_stream_allowed(container, codec),
        StreamKind::Subtitle => subtitle_stream_allowed(container, codec),
    }
}

pub open spec fn missing_track(kind: StreamKind, index: u32) -> Seq<char> {
    "Selected "@ + kind_name(kind) + " track #"@ + decimal(index as nat)
        + " was not found in source"@
}

pub open spec fn incompatible_track(kind: StreamKind, track: TrackView, container: Seq<char>)
    -> Seq<char> {
    kind_title(kind) + " codec '"@ + track.codec + "' from source track #"@ + decimal(
        track.index as nat,
    ) + " is incompatible with container '"@ + container + "'"@
}

/// The first of the tracks at `positions` whose codec the container cannot
/// hold.
pub open spec fn first_incompatible(
    kind: StreamKind,
    container: Seq<char>,
    tracks: Seq<TrackView>,
    positions: Seq<int>,
) -> Option<Seq<char>>
    decreases positions.len(),
{
    if positions.len() == 0 {
        None
    } else {
        first_of(
            first_incompatible(kind, container, tracks, positions.drop_last()),
            if stream_allowed(kind, container, tracks[positions.last()].codec) {
                None
            } else {
                Some(incompatible_track(kind, tracks[positions.last()], container))
            },
        )
    }
}

/// What stands against copying the selected streams of one kind.
pub open spec fn streams_finding(
    kind: StreamKind,
    container: Seq<char>,
    selected: Seq<u32>,
    tracks: Seq<TrackView>,
    need_one: bool,
) -> Option<Seq<char>> {
    match selection(selected, tracks) {
        Err(missing) => Some(missing_track(kind, missing)),
        Ok(positions) => if need_one && positions.len() == 0 {
            Some("Source has no audio streams to copy into an audio container"@)
        } else {
            first_incompatible(kind, container, tracks, positions)
        },
    }
}

pub open spec fn incompatible_video(codec: Seq<char>, container: Seq<char>) -> Seq<char> {
    "Video codec '"@ + codec + "' is incompatible with container '"@ + container + "'"@
}

/// What stands against a stream copy of the probed source.  Nothing does
/// outside copy mode.  An audio-only container needs at least one selected
/// audio track, all of them in codecs it can hold.  Any other container needs
/// a video stream it can hold, and holds the selected audio and subtitle
/// tracks as far as it takes streams of the kind at all.
pub open spec fn stream_copy_finding(c: &ConversionConfig, probe: &ProbeMetadata) -> Option<
    Seq<char>,
> {
    let audio = track_views(probe.audio_tracks@);
    let subtitles = track_views(probe.subtitle_tracks@);
    if !copy_mode(c) {
        None
    } else if audio_only(c.container@) {
        streams_finding(StreamKind::Audio, c.container@, c.selected_audio_tracks@, audio, true)
    } else {
        match probe.video_codec {
            None => Some(
                "Source has no video stream; choose an audio container for stream copy"@,
            ),
            Some(codec) => if !video_stream_allowed(c.container@, codec@) {
                Some(incompatible_video(codec@, c.container@))
            } else {
                first_of(
                    if supports_audio(c.container@) {
                        streams_finding(
                            StreamKind::Audio,
                            c.container@,
                            c.selected_audio_tracks@,
                            audio,
                            false,
                        )
                    } else {
                        None
                    },
                    if supports_subtitles(c.container@) {
                        streams_finding(
                            StreamKind::Subtitle,
                            c.container@,
                            c.selected_subtitle_tracks@,
                            subtitles,
                            false,
                        )
                    } else {
                        None
                    },
                )
            },
        }
    }
}

fn kind_text(kind: StreamKind) -> (r: &'static str)
    ensures
        r@ == kind_name(kind),
{
    match kind {
        StreamKind::Audio => "audio",
        StreamKind::Subtitle => "subtitle",
    }
}

fn kind_title_text(kind: StreamKind) -> (r: &'static str)
    ensures
        r@ == kind_title(kind),
{
    match kind {
        StreamKind::Audio => "Audio",
        StreamKind::Subtitle => "Subtitle",
    }
}

fn is_stream_allowed(kind: StreamKind, container: &str, codec: &str) -> (r: bool)
    ensures
        r == stream_allowed(kind, container@, codec@),
{
    match kind {
        StreamKind::Audio => is_audio_stream_codec_allowed(container, codec),
        StreamKind::Subtitle => is_subtitle_codec_allowed(container, codec),
    }
}

fn missing_error(kind: StreamKind, index: u32) -> (e: ConversionError)
    ensures
        e is InvalidInput,
        e.reason() == missing_track(kind, index),
{
    let mut reason = String::from_str("Selected ");
    reason.append(kind_text(kind));
    reason.append(" track #");
    push_decimal(&mut reason, index as u64);
    reason.append(" was not found in source");
    ConversionError::InvalidInput(reason)
}

fn incompatible_error<T: SourceTrack>(kind: StreamKind, track: &T, container: &str) -> (e:
    ConversionError)
    ensures
        e is InvalidInput,
        e.reason() == incompatible_track(kind, track.track(), container@),
{
    let mut reason = String::from_str(kind_title_text(kind));
    reason.append(" codec '");
    reason.append(track.codec_name());
    reason.append("' from source track #");
    push_decimal(&mut reason, track.stream_index() as u64);
    reason.append(" is incompatible with container '");
    reason.append(container);
    reason.append("'");
    ConversionError::InvalidInput(reason)
}

/// What resolving a selection returns: the selected tracks in order, or the
/// missing-track error.
pub open spec fn collected<T>(
    r: Result<Vec<&T>, ConversionError>,
    kind: StreamKind,
    selected: Seq<u32>,
    tracks: Seq<T>,
    views: Seq<TrackView>,
) -> bool {
    match r {
        Ok(found) => {
            &&& selection(selected, views) matches Ok(positions)
            &&& found@.len() == positions.len()
            &&& forall|i: int|
                0 <= i < positions.len() ==> 0 <= #[trigger] positions[i] < tracks.len()
                    && *found@[i] == tracks[positions[i]]
        },
        Err(e) => {
            &&& selection(selected, views) matches Err(missing)
            &&& e is InvalidInput
            &&& e.reason() == missing_track(kind, missing)
        },
    }
}

fn find_track<T: SourceTrack>(tracks: &Vec<T>, wanted: u32) -> (r: Option<usize>)
    ensures
        match r {
            Some(p) => p == position_of(track_views(tracks@), wanted) && p < tracks.len(),
            None => position_of(track_views(tracks@), wanted) >= tracks.len(),
        },
{
    let ghost views = track_views(tracks@);
    let mut k: usize = 0;
    proof {
        lemma_position_of(views, wanted);
    }
    while k < tracks.len()
        invariant
            k <= tracks.len(),
            views == track_views(tracks@),
            forall|j: int| 0 <= j < k ==> views[j].index != wanted,
            0 <= position_of(views, wanted) <= views.len(),
            position_of(views, wanted) < views.len() ==> views[position_of(views, wanted)].index
                == wanted,
            forall|j: int| 0 <= j < position_of(views, wanted) ==> views[j].index != wanted,
        decreases tracks.len() - k,
    {
        if tracks[k].stream_index() == wanted {
            assert(views[k as int].index == wanted);
            return Some(k);
        }
        k += 1;
    }
    None
}

/// Resolves a selection against the tracks of one kind: every track where
/// nothing is selected, else the first track of each selected stream index,
/// in the order of the selection.
fn collect_tracks<'a, T: SourceTrack>(kind: StreamKind, selected: &Vec<u32>, tracks: &'a Vec<T>)
    -> (r: Result<Vec<&'a T>, ConversionError>)
    ensures
        collected(r, kind, selected@, tracks@, track_views(tracks@)),
{
    let ghost views = track_views(tracks@);
    let mut found: Vec<&'a T> = Vec::new();
    let ghost mut positions: Seq<int> = Seq::empty();
    if selected.len() == 0 {
        let mut i: usize = 0;
        while i < tracks.len()
            invariant
                i <= tracks.len(),
                found@.len() == i,
                forall|j: int| 0 <= j < i ==> *found@[j] == tracks@[j],
            decreases tracks.len() - i,
        {
            found.push(&tracks[i]);
            i += 1;
        }
        return Ok(found);
    }
    let mut i: usize = 0;
    while i < selected.len()
        invariant
            i <= selected.len(),
            selected.len() > 0,
            views == track_views(tracks@),
            resolve(selected@.take(i as int), views) == Ok::<Seq<int>, u32>(positions),
            found@.len() == positions.len(),
            forall|j: int|
                0 <= j < positions.len() ==> 0 <= #[trigger] positions[j] < tracks.len()
                    && *found@[j] == tracks@[positions[j]],
        decreases selected.len() - i,
    {
        assert(selected@.take(i + 1).drop_last() =~= selected@.take(i as int));
        match find_track(tracks, selected[i]) {
            Some(p) => {
                found.push(&tracks[p]);
                proof {
                    positions = positions.push(p as int);
                }
            },
            None => {
                proof {
                    lemma_resolve_fails_on(selected@, views, i as int);
                }
                return Err(missing_error(kind, selected[i]));
            },
        }
        i += 1;
    }
    assert(selected@.take(selected.len() as int) =~= selected@);
    Ok(found)
}

/// Resolves the audio selection against the probed source: every audio
/// track where nothing is selected, else the first track of each selected
/// stream index, in the order of the selection.  Fails with the first
/// selected index that the source does not have.
pub fn collect_selected_audio_tracks<'a>(config: &ConversionConfig, probe: &'a ProbeMetadata) -> (r:
    Result<Vec<&'a AudioTrack>, ConversionError>)
    ensures
        collected(
            r,
            StreamKind::Audio,
            config.selected_audio_tracks@,
            probe.audio_tracks@,
            track_views(probe.audio_tracks@),
        ),
{
    collect_tracks(StreamKind::Audio, &config.selected_audio_tracks, &probe.audio_tracks)
}

/// Resolves the subtitle selection against the probed source, as
/// `collect_selected_audio_tracks` does for audio.
pub fn collect_selected_subtitle_tracks<'a>(
    config: &ConversionConfig,
    probe: &'a ProbeMetadata,
) -> (r: Result<Vec<&'a SubtitleTrack>, ConversionError>)
    ensures
        collected(
            r,
            StreamKind::Subtitle,
            config.selected_subtitle_tracks@,
            probe.subtitle_tracks@,
            track_views(probe.subtitle_tracks@),
        ),
{
    collect_tracks(StreamKind::Subtitle, &config.selected_subtitle_tracks, &probe.subtitle_tracks)
}

/// Once a selected index is missing, the selection fails with the first
/// such index, whatever follows it.
pub proof fn lemma_resolve_fails_on(selected: Seq<u32>, tracks: Seq<TrackView>, i: int)
    requires
        0 <= i < selected.len(),
        resolve(selected.take(i), tracks) is Ok,
        position_of(tracks, selected[i]) >= tracks.len(),
    ensures
        resolve(selected, tracks) == Err::<Seq<int>, u32>(selected[i]),
    decreases selected.len(),
{
    if i == selected.len() - 1 {
        assert(selected.drop_last() =~= selected.take(i));
    } else {
        assert(selected.drop_last().take(i) =~= selected.take(i));
        lemma_resolve_fails_on(selected.drop_last(), tracks, i);
    }
}

/// A finding among the first tracks of a selection stands for the whole
/// selection.
pub proof fn lemma_first_incompatible_prefix(
    kind: StreamKind,
    container: Seq<char>,
    tracks: Seq<TrackView>,
    positions: Seq<int>,
    k: int,
)
    requires
        0 <= k <= positions.len(),
        first_incompatible(kind, container, tracks, positions.take(k)) is Some,
    ensures
        first_incompatible(kind, container, tracks, positions) == first_incompatible(
            kind,
            container,
            tracks,
            positions.take(k),
        ),
    decreases positions.len(),
{
    if k < positions.len() {
        assert(positions.drop_last().take(k) =~= positions.take(k));
        lemma_first_incompatible_prefix(kind, container, tracks, positions.drop_last(), k);
    } else {
        assert(positions.take(k) =~= positions);
    }
}

/// The positions of a selection that resolves.
pub open spec fn positions_of(selected: Seq<u32>, tracks: Seq<TrackView>) -> Seq<int> {
    match selection(selected, tracks) {
        Ok(positions) => positions,
        Err(_) => Seq::empty(),
    }
}

fn check_codecs<T: SourceTrack>(
    kind: StreamKind,
    container: &str,
    found: &Vec<&T>,
    Ghost(tracks): Ghost<Seq<TrackView>>,
    Ghost(positions): Ghost<Seq<int>>,
) -> (r: Result<(), ConversionError>)
    requires
        found@.len() == positions.len(),
        forall|i: int|
            0 <= i < positions.len() ==> (*found@[i]).track() == tracks[#[trigger] positions[i]],
    ensures
        reports(r, first_incompatible(kind, container@, tracks, positions)),
{
    let mut i: usize = 0;
    assert(positions.take(0) =~= Seq::<int>::empty());
    while i < found.len()
        invariant
            i <= found.len(),
            found@.len() == positions.len(),
            forall|j: int|
                0 <= j < positions.len() ==> (*found@[j]).track() == tracks[#[trigger] positions[j]],
            first_incompatible(kind, container@, tracks, positions.take(i as int)) is None,
        decreases found.len() - i,
    {
        let track = found[i];
        proof {
            let t = positions.take(i + 1);
            assert(t.drop_last() =~= positions.take(i as int));
            assert(t.last() == positions[i as int]);
        }
        if !is_stream_allowed(kind, container, track.codec_name()) {
            proof {
                lemma_first_incompatible_prefix(kind, container@, tracks, positions, i + 1);
            }
            return Err(incompatible_error(kind, track, container));
        }
        i += 1;
    }
    assert(positions.take(found.len() as int) =~= positions);
    Ok(())
}

/// Checks the selected streams of one kind against the container.
fn check_streams<T: SourceTrack>(
    kind: StreamKind,
    container: &str,
    selected: &Vec<u32>,
    tracks: &Vec<T>,
    need_one: bool,
) -> (r: Result<(), ConversionError>)
    ensures
        reports(
            r,
            streams_finding(kind, container@, selected@, track_views(tracks@), need_one),
        ),
{
    let ghost views = track_views(tracks@);
    let ghost positions = positions_of(selected@, views);
    let found = match collect_tracks(kind, selected, tracks) {
        Ok(found) => found,
        Err(e) => { return Err(e); },
    };
    if need_one && found.len() == 0 {
        return Err(
            ConversionError::InvalidInput(
                String::from_str("Source has no audio streams to copy into an audio container"),
            ),
        );
    }
    check_codecs(kind, container, &found, Ghost(views), Ghost(positions))
}

/// Checks that the streams a copy would carry over fit the target
/// container.  Passes exactly when `stream_copy_finding` finds nothing;
/// otherwise fails as invalid input with what it found as the reason.
pub fn validate_stream_copy_compatibility(config: &ConversionConfig, probe: &ProbeMetadata) -> (r:
    Result<(), ConversionError>)
    ensures
        reports(r, stream_copy_finding(config, probe)),
{
    if !is_copy_mode(config) {
        return Ok(());
    }
    let container = config.container.as_str();
    if is_audio_only_container(container) {
        return check_streams(
            StreamKind::Audio,
            container,
            &config.selected_audio_tracks,
            &probe.audio_tracks,
            true,
        );
    }
    let video_codec = match &probe.video_codec {
        Some(codec) => codec.as_str(),
        None => {
            return Err(
                ConversionError::InvalidInput(
                    String::from_str(
                        "Source has no video stream; choose an audio container for stream copy",
                    ),
                ),
            );
        },
    };
    if !is_video_stream_codec_allowed(container, video_codec) {
        let mut reason = String::from_str("Video codec '");
        reason.append(video_codec);
        reason.append("' is incompatible with container '");
        reason.append(container);
        reason.append("'");
        return Err(ConversionError::InvalidInput(reason));
    }
    if container_supports_audio(container) {
        check_streams(
            StreamKind::Audio,
            container,
            &config.selected_audio_tracks,
            &probe.audio_tracks,
            false,
        )?;
    }
    if container_supports_subtitles(container) {
        check_streams(
            StreamKind::Subtitle,
            container,
            &config.selected_subtitle_tracks,
            &probe.subtitle_tracks,
            false,
        )?;
    }
    Ok(())
}

} // verus!
