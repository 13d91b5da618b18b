//! The playback manager: the playlist, the playback state and the rules by
//! which commands and the reports of the audio callback change them.
//!
//! The manager decides and does no work of its own. `handle` takes one
//! command and returns, in order, what is to be done: messages for the audio
//! callback, events for the host, and files to be opened.

use crate::errors::FileStreamOpenError;
use crate::events::{
    text_view, PlaybackFile, PlaybackFileView, PlaybackState, PlayerEvent, PlayerEventView,
    StreamMetadata, StreamMetadataView, StreamMetadataVisual, StreamMetadataVisualView,
    StreamTiming,
};
use crate::file_stream::{FileStream, FileStreamView};
use crate::messages::{
    ManagerToProcessMsg, ManagerToProcessMsgView, ProcessToManagerMsg, StartPlaybackState,
};
use crate::metadata::{
    first_visual, tag_text, MetadataVisual, MetadataVisualView, TagKey, TrackMetadata,
    TrackMetadataView, VisualKey,
};
use crate::queue::{identity_ordering, GoNextMode, Queue, QueueView};
use crate::time_base::{TimeBase, TimeBaseView};
use base64::Engine;
use vstd::prelude::*;

verus! {

/// A stream that has played for fewer whole seconds than this is early:
/// skipping back from it goes to the track before.
pub const STREAM_SEEK_BACK_THRESHOLD_SECONDS_PART: u8 = 3;

/// The final component of a path, as `std::path::Path::file_name` finds it.
pub uninterp spec fn path_file_name(path: Seq<char>) -> Option<Seq<char>>;

/// The path without its final component, as `std::path::Path::parent` finds
/// it.
pub uninterp spec fn path_parent(path: Seq<char>) -> Option<Seq<char>>;

/// The colour that `random_color` makes of a seed text.
pub uninterp spec fn seeded_color(seed: Seq<char>) -> Seq<char>;

/// The text that `base64` makes of bytes with its URL-safe alphabet and
/// padding.
pub uninterp spec fn base64_url_safe(data: Seq<u8>) -> Seq<char>;

/// Whether bytes of this length can be encoded: the length of the text must
/// fit `usize`.
pub open spec fn fits_base64(len: nat) -> bool {
    len / 3 < usize::MAX / 4
}

/// Calls `std::path::Path::file_name` on `path` and returns what it finds as
/// a text. The path was made of a text, so its final component is one too.
/// How a path is split is std's rule for the platform; the contract only
/// gives the result its name.
#[verifier::external_body]
fn file_name_of(path: &str) -> (name: Option<String>)
    ensures
        text_view(name) == path_file_name(path@),
{
    let name = std::path::Path::new(path).file_name()?;
    Some(name.to_str()?.to_owned())
}

/// Calls `std::path::Path::parent` on `path` and returns what it finds as a
/// text. How a path is split is std's rule for the platform; the contract
/// only gives the result its name.
#[verifier::external_body]
fn parent_of(path: &str) -> (parent: Option<String>)
    ensures
        text_view(parent) == path_parent(path@),
{
    let parent = std::path::Path::new(path).parent()?;
    Some(parent.to_str()?.to_owned())
}

/// Makes a colour of `seed` with `random_color`: a new `RandomColor`, seeded
/// with the text, written out by `to_rgba_string`. The crate hashes the text
/// with std's `DefaultHasher` and seeds its generator with the hash, so the
/// colour depends on the text alone; the contract only gives it its name.
#[verifier::external_body]
fn album_color(seed: &str) -> (color: String)
    ensures
        color@ == seeded_color(seed@),
{
    random_color::RandomColor::new().seed(seed).to_rgba_string()
}

/// Encodes `data` with `base64`'s `Engine::encode` on the engine
/// `general_purpose::URL_SAFE`. The call panics where the length of the text
/// does not fit `usize`; `requires` leaves those lengths out. The contract
/// only gives the text its name.
#[verifier::external_body]
fn encode_base64(data: &Vec<u8>) -> (text: String)
    requires
        fits_base64(data@.len()),
    ensures
        text@ == base64_url_safe(data@),
{
    base64::engine::general_purpose::URL_SAFE.encode(data)
}

/// Whether the playlist is shuffled.
#[derive(Clone, Copy, Debug, PartialEq, Eq, Structural, PartialOrd, Ord)]
pub enum ShuffleMode {
    NotEnabled,
    Enabled,
}

/// What follows the end of a track.
#[derive(Clone, Copy, Debug, PartialEq, Eq, Structural, PartialOrd, Ord)]
pub enum RepeatMode {
    /// The playlist ends after its last track.
    Off,
    RepeatAll,
    RepeatOne,
}

/// A command for the manager.
#[verifier::reject_recursive_types(S)]
pub enum ManagerCommand<S> {
    /// Play these files, starting with the one at this index.
    StartPlayback(Vec<String>, usize),
    Pause,
    Stop,
    /// The audio callback reports this position under this playback id.
    Progress(u64, usize),
    /// The audio callback reports the end of the stream with this playback
    /// id.
    PlaybackEnded(u64),
    Resume,
    /// Play at this gain, which the caller has made of the volume.
    SetVolume(S),
    /// Go to this frame of the file.
    SeekTo(usize),
    /// The file asked for under this playback id could not be opened.
    OpenFileStreamError(u64, String, FileStreamOpenError),
    /// The file asked for under this playback id is open.
    OpenFileStream(u64, String, FileStream<S>),
    SkipForward,
    SkipBack,
    SetShuffle(ShuffleMode),
    SetRepeat(RepeatMode),
}

/// The mathematical value of a command.
pub enum CommandView<S> {
    StartPlayback(Seq<String>, usize),
    Pause,
    Stop,
    Progress(u64, usize),
    PlaybackEnded(u64),
    Resume,
    SetVolume(S),
    SeekTo(usize),
    OpenFileStreamError(u64, Seq<char>),
    OpenFileStream(u64, Seq<char>, FileStreamView<S>),
    SkipForward,
    SkipBack,
    SetShuffle(ShuffleMode),
    SetRepeat(RepeatMode),
}

impl<S> View for ManagerCommand<S> {
    type V = CommandView<S>;

    open spec fn view(&self) -> CommandView<S> {
        match self {
            ManagerCommand::StartPlayback(paths, index) => CommandView::StartPlayback(
                paths@,
                *index,
            ),
            ManagerCommand::Pause => CommandView::Pause,
            ManagerCommand::Stop => CommandView::Stop,
            ManagerCommand::Progress(id, pos) => CommandView::Progress(*id, *pos),
            ManagerCommand::PlaybackEnded(id) => CommandView::PlaybackEnded(*id),
            ManagerCommand::Resume => CommandView::Resume,
            ManagerCommand::SetVolume(gain) => CommandView::SetVolume(*gain),
            ManagerCommand::SeekTo(offset) => CommandView::SeekTo(*offset),
            ManagerCommand::OpenFileStreamError(id, path, _) => CommandView::OpenFileStreamError(
                *id,
                path@,
            ),
            ManagerCommand::OpenFileStream(id, path, stream) => CommandView::OpenFileStream(
                *id,
                path@,
                stream@,
            ),
            ManagerCommand::SkipForward => CommandView::SkipForward,
            ManagerCommand::SkipBack => CommandView::SkipBack,
            ManagerCommand::SetShuffle(mode) => CommandView::SetShuffle(*mode),
            ManagerCommand::SetRepeat(mode) => CommandView::SetRepeat(*mode),
        }
    }
}

/// Something that the manager wants done.
#[verifier::reject_recursive_types(S)]
pub enum ManagerEffect<S> {
    /// Send this message to the audio callback.
    ToProcess(ManagerToProcessMsg<S>),
    /// Tell the host.
    Emit(PlayerEvent),
    /// Open this file for the device's sample rate, away from the manager's
    /// thread, and come back with `ManagerCommand::OpenFileStream` or
    /// `ManagerCommand::OpenFileStreamError` under this playback id.
    OpenFile { playback_id: u64, path: String, target_sample_rate: u32 },
}

/// The mathematical value of an effect.
pub enum EffectView<S> {
    ToProcess(ManagerToProcessMsgView<S>),
    Emit(PlayerEventView),
    OpenFile { playback_id: u64, path: Seq<char>, target_sample_rate: u32 },
}

impl<S> View for ManagerEffect<S> {
    type V = EffectView<S>;

    open spec fn view(&self) -> EffectView<S> {
        match self {
            ManagerEffect::ToProcess(message) => EffectView::ToProcess(message@),
            ManagerEffect::Emit(event) => EffectView::Emit(event@),
            ManagerEffect::OpenFile { playback_id, path, target_sample_rate } => {
                EffectView::OpenFile {
                    playback_id: *playback_id,
                    path: path@,
                    target_sample_rate: *target_sample_rate,
                }
            },
        }
    }
}

/// The values of a list of effects.
pub open spec fn effects_view<S>(effects: Seq<ManagerEffect<S>>) -> Seq<EffectView<S>> {
    Seq::new(effects.len(), |i: int| effects[i]@)
}

/// The timing of the stream that is played.
#[derive(Clone, Copy, Debug)]
pub struct StreamTimingInternal {
    time_base: TimeBase,
    n_frames: u64,
    pos: usize,
}

/// The mathematical value of a `StreamTimingInternal`.
pub struct TimingView {
    pub time_base: TimeBaseView,
    pub n_frames: u64,
    pub pos: usize,
}

impl TimingView {
    /// The timing as the host sees it.
    pub open spec fn shown(self) -> StreamTiming {
        StreamTiming {
            duration: self.n_frames,
            pos: self.pos,
            duration_seconds: self.time_base.seconds(self.n_frames as nat) as u64,
        }
    }

    /// Whether the stream has played for fewer whole seconds than the
    /// threshold for skipping back.
    pub open spec fn is_early(self) -> bool {
        self.time_base.seconds(self.pos as nat) < STREAM_SEEK_BACK_THRESHOLD_SECONDS_PART
    }
}

impl View for StreamTimingInternal {
    type V = TimingView;

    closed spec fn view(&self) -> TimingView {
        TimingView { time_base: self.time_base@, n_frames: self.n_frames, pos: self.pos }
    }
}

/// The value of a timing that may be missing.
pub open spec fn timing_view(timing: Option<StreamTimingInternal>) -> Option<TimingView> {
    match timing {
        Some(found) => Some(found@),
        None => None,
    }
}

/// A timing that may be missing as the host sees it.
pub open spec fn timing_shown(timing: Option<TimingView>) -> Option<StreamTiming> {
    match timing {
        Some(found) => Some(found.shown()),
        None => None,
    }
}

impl StreamTimingInternal {
    /// The timing of a stream of `n_frames` frames at position `pos`.
    pub fn new(time_base: TimeBase, n_frames: u64, pos: usize) -> (timing: Self)
        ensures
            timing@ == (TimingView { time_base: time_base@, n_frames, pos }),
    {
        StreamTimingInternal { time_base, n_frames, pos }
    }

    /// The timing as the host sees it.
    pub fn as_stream_timing(&self) -> (timing: StreamTiming)
        ensures
            timing == self@.shown(),
    {
        StreamTiming {
            duration: self.n_frames,
            pos: self.pos,
            duration_seconds: self.time_base.calc_seconds(self.n_frames),
        }
    }

    /// Whether the stream has played for fewer whole seconds than the
    /// threshold for skipping back.
    pub fn is_early(&self) -> (early: bool)
        ensures
            early == self@.is_early(),
    {
        self.time_base.calc_seconds(self.pos as u64) < STREAM_SEEK_BACK_THRESHOLD_SECONDS_PART as u64
    }

    /// Whether two timings have the same value.
    fn same(&self, other: &Self) -> (same: bool)
        ensures
            same == (self@ == other@),
    {
        self.time_base.numer() == other.time_base.numer() && self.time_base.denom()
            == other.time_base.denom() && self.n_frames == other.n_frames && self.pos == other.pos
    }
}

/// The path without its final component, and the path itself where it has
/// none.
pub open spec fn parent_or_self(path: Seq<char>) -> Seq<char> {
    match path_parent(path) {
        Some(parent) => parent,
        None => path,
    }
}

/// The file as the host sees it. Its name is the final component of the
/// path, and the path itself where it has none.
pub open spec fn file_shown(path: Seq<char>) -> PlaybackFileView {
    PlaybackFileView {
        path,
        name: match path_file_name(path) {
            Some(name) => name,
            None => path,
        },
    }
}

/// The cover as the host sees it: the first picture used as front cover,
/// with its bytes as text.
pub open spec fn cover_shown(visuals: Seq<MetadataVisualView>) -> Option<StreamMetadataVisualView> {
    match first_visual(visuals, VisualKey::FrontCover) {
        Some(visual) => if fits_base64(visual.data.len()) {
            Some(
                StreamMetadataVisualView {
                    data_base64: base64_url_safe(visual.data),
                    media_type: visual.media_type,
                },
            )
        } else {
            None
        },
        None => None,
    }
}

/// The metadata as the host sees it: title, artist and cover where the file
/// has them, and a colour made of the directory of the file.
pub open spec fn metadata_shown(
    metadata: Option<TrackMetadataView>,
    path: Seq<char>,
) -> StreamMetadataView {
    match metadata {
        Some(found) => StreamMetadataView {
            track_title: tag_text(found.tags, TagKey::TrackTitle),
            artist: tag_text(found.tags, TagKey::Artist),
            album_cover: cover_shown(found.visuals),
            fallback_color: seeded_color(parent_or_self(path)),
        },
        None => StreamMetadataView {
            track_title: None,
            artist: None,
            album_cover: None,
            fallback_color: seeded_color(parent_or_self(path)),
        },
    }
}

/// The file at `path` as the host sees it.
pub fn playback_file(path: &String) -> (file: PlaybackFile)
    ensures
        file@ == file_shown(path@),
{
    let name = match file_name_of(path.as_str()) {
        Some(name) => name,
        None => path.clone(),
    };
    PlaybackFile { path: path.clone(), name }
}

/// The cover `visual` as the host sees it: `None` where its bytes are too
/// many to be encoded.
pub fn cover_of(visual: &MetadataVisual) -> (cover: Option<StreamMetadataVisual>)
    ensures
        match cover {
            Some(shown) => fits_base64(visual@.data.len()) && shown@ == (StreamMetadataVisualView {
                data_base64: base64_url_safe(visual@.data),
                media_type: visual@.media_type,
            }),
            None => !fits_base64(visual@.data.len()),
        },
{
    if visual.data.len() / 3 < usize::MAX / 4 {
        Some(
            StreamMetadataVisual {
                media_type: visual.media_type.clone(),
                data_base64: encode_base64(&visual.data),
            },
        )
    } else {
        None
    }
}

/// The metadata of the file at `path` as the host sees it.
pub fn stream_metadata(metadata: Option<&TrackMetadata>, path: &String) -> (shown: StreamMetadata)
    ensures
        shown@ == metadata_shown(
            match metadata {
                Some(found) => Some(found@),
                None => None,
            },
            path@,
        ),
{
    let directory = match parent_of(path.as_str()) {
        Some(parent) => parent,
        None => path.clone(),
    };
    let fallback_color = album_color(directory.as_str());
    match metadata {
        Some(found) => {
            let track_title = found.track_title();
            let artist = found.artist();
            let album_cover = match found.front_cover() {
                Some(visual) => cover_of(visual),
                None => None,
            };
            StreamMetadata { track_title, artist, album_cover, fallback_color }
        },
        None => StreamMetadata {
            track_title: None,
            artist: None,
            album_cover: None,
            fallback_color,
        },
    }
}

/// The commands that a drained ring of the audio callback makes: every end
/// of a stream in its place, and after them the last position reported, if
/// any was.
pub open spec fn bridged<S>(messages: Seq<ProcessToManagerMsg>) -> Seq<CommandView<S>> {
    ended_of::<S>(messages) + match last_position(messages) {
        Some((id, pos)) => seq![CommandView::Progress(id, pos)],
        None => seq![],
    }
}

/// The ends of streams among `messages`, as commands.
pub open spec fn ended_of<S>(messages: Seq<ProcessToManagerMsg>) -> Seq<CommandView<S>>
    decreases messages.len(),
{
    if messages.len() == 0 {
        seq![]
    } else {
        let before = ended_of::<S>(messages.drop_last());
        match messages.last() {
            ProcessToManagerMsg::PlaybackEnded(id) => before.push(CommandView::PlaybackEnded(id)),
            ProcessToManagerMsg::PlaybackPos(_, _) => before,
        }
    }
}

/// The last position among `messages`.
pub open spec fn last_position(messages: Seq<ProcessToManagerMsg>) -> Option<(u64, usize)>
    decreases messages.len(),
{
    if messages.len() == 0 {
        None
    } else {
        match messages.last() {
            ProcessToManagerMsg::PlaybackPos(id, pos) => Some((id, pos)),
            ProcessToManagerMsg::PlaybackEnded(_) => last_position(messages.drop_last()),
        }
    }
}

/// The values of a list of commands.
pub open spec fn commands_view<S>(commands: Seq<ManagerCommand<S>>) -> Seq<CommandView<S>> {
    Seq::new(commands.len(), |i: int| commands[i]@)
}

/// Turns what the audio callback reported into commands for the manager.
/// Of the positions only the last is kept, so that the host is not told
/// more often than once for each drained ring.
pub fn bridge_commands<S>(messages: &Vec<ProcessToManagerMsg>) -> (commands: Vec<
    ManagerCommand<S>,
>)
    ensures
        commands_view(commands@) == bridged::<S>(messages@),
{
    let mut commands: Vec<ManagerCommand<S>> = Vec::new();
    let mut debounced: Option<(u64, usize)> = None;
    let mut i: usize = 0;
    assert(messages@.take(0) =~= Seq::empty());
    assert(commands_view(commands@) =~= ended_of::<S>(messages@.take(0)));
    while i < messages.len()
        invariant
            i <= messages@.len(),
            commands_view(commands@) == ended_of::<S>(messages@.take(i as int)),
            debounced == last_position(messages@.take(i as int)),
        decreases messages@.len() - i,
    {
        let ghost before = commands_view(commands@);
        let ghost seen = messages@.take(i as int);
        assert(messages@.take(i + 1).drop_last() =~= seen);
        assert(messages@.take(i + 1).last() == messages@[i as int]);
        match messages[i] {
            ProcessToManagerMsg::PlaybackEnded(playback_id) => {
                commands.push(ManagerCommand::PlaybackEnded(playback_id));
                assert(commands_view(commands@) =~= before.push(
                    CommandView::PlaybackEnded(playback_id),
                ));
            },
            ProcessToManagerMsg::PlaybackPos(playback_id, pos) => {
                debounced = Some((playback_id, pos));
            },
        }
        i += 1;
    }
    assert(messages@.take(i as int) =~= messages@);
    let ghost ended = commands_view(commands@);
    if let Some((playback_id, pos)) = debounced {
        commands.push(ManagerCommand::Progress(playback_id, pos));
        assert(commands_view(commands@) =~= ended + seq![CommandView::Progress(playback_id, pos)]);
    } else {
        assert(commands_view(commands@) =~= ended + Seq::<CommandView<S>>::empty());
    }
    commands
}

/// The state of the playback manager.
pub struct PlaybackManager {
    queue: Option<Queue<String>>,
    current_playback_id: Option<u64>,
    next_playback_id: u64,
    playback_state: PlaybackState,
    stream_timing: Option<StreamTimingInternal>,
    shuffle_mode: ShuffleMode,
    repeat_mode: RepeatMode,
    output_sample_rate: u32,
}

/// The mathematical value of the playback manager.
pub struct ManagerView {
    /// The playlist, where there is one.
    pub queue: Option<QueueView<String>>,
    /// The playback id of the track that is played or being opened.
    pub current_playback_id: Option<u64>,
    /// The playback id that the next track gets.
    pub next_playback_id: u64,
    pub playback_state: PlaybackState,
    /// The timing of the stream, once it is open and its length is known.
    pub stream_timing: Option<TimingView>,
    pub shuffle_mode: ShuffleMode,
    pub repeat_mode: RepeatMode,
    /// The sample rate of the device.
    pub output_sample_rate: u32,
}

/// What a command leads to: the manager after it, and what is to be done.
pub struct Step<S> {
    pub next: ManagerView,
    pub effects: Seq<EffectView<S>>,
}

/// The playback id after `id`. The ids wrap at 2^64.
pub open spec fn id_after(id: u64) -> u64 {
    if id == u64::MAX {
        0
    } else {
        (id + 1) as u64
    }
}

/// The way to the next track under a repeat mode.
pub open spec fn next_mode(repeat_mode: RepeatMode) -> GoNextMode {
    if repeat_mode == RepeatMode::RepeatAll {
        GoNextMode::RepeatAll
    } else {
        GoNextMode::Default
    }
}

impl ManagerView {
    /// The invariant of the manager: a player with a track is not stopped,
    /// a stopped player has no timing, the playback id that comes next is
    /// the one after the current, and the playlist is well formed.
    pub open spec fn wf(self) -> bool {
        &&& self.current_playback_id is Some ==> self.playback_state != PlaybackState::Stopped
        &&& self.playback_state == PlaybackState::Stopped ==> self.stream_timing is None
        &&& self.current_playback_id matches Some(id) ==> self.next_playback_id == id_after(id)
        &&& self.queue matches Some(queue) ==> queue.wf()
    }

    /// Nothing happens.
    pub open spec fn unchanged<S>(self) -> Step<S> {
        Step { next: self, effects: Seq::empty() }
    }

    /// The playback state becomes `state`; the host is told where that is a
    /// change.
    pub open spec fn state_set<S>(self, state: PlaybackState) -> Step<S> {
        if self.playback_state != state {
            Step {
                next: ManagerView { playback_state: state, ..self },
                effects: seq![EffectView::Emit(PlayerEventView::PlaybackStateChange(state))],
            }
        } else {
            self.unchanged()
        }
    }

    /// The timing becomes `timing`; the host is told where that is a change.
    pub open spec fn timing_set<S>(self, timing: Option<TimingView>) -> Step<S> {
        if self.stream_timing != timing {
            Step {
                next: ManagerView { stream_timing: timing, ..self },
                effects: seq![
                    EffectView::Emit(PlayerEventView::StreamTimingChange(timing_shown(timing))),
                ],
            }
        } else {
            self.unchanged()
        }
    }

    /// The file at `path` is started: the audio callback is stopped, timing
    /// and metadata are cleared, the player plays, the track gets the next
    /// playback id, the host is told the file, and the file is to be opened.
    pub open spec fn started<S>(self, path: Seq<char>) -> Step<S> {
        let cleared = self.timing_set::<S>(None);
        let playing = cleared.next.state_set::<S>(PlaybackState::Playing);
        let id = self.next_playback_id;
        Step {
            next: ManagerView {
                current_playback_id: Some(id),
                next_playback_id: id_after(id),
                ..playing.next
            },
            effects: seq![EffectView::ToProcess(ManagerToProcessMsgView::Stop)] + cleared.effects
                + playing.effects + seq![
                EffectView::Emit(PlayerEventView::StreamMetadataChange(None)),
                EffectView::Emit(PlayerEventView::PlaybackFileChange(Some(file_shown(path)))),
                EffectView::OpenFile {
                    playback_id: id,
                    path,
                    target_sample_rate: self.output_sample_rate,
                },
            ],
        }
    }

    /// Playback is stopped: no track is current, the audio callback is
    /// stopped, and the host is told that file, timing, state and metadata
    /// are gone.
    pub open spec fn stopped<S>(self) -> Step<S> {
        let idle = ManagerView { current_playback_id: None, ..self };
        let cleared = idle.timing_set::<S>(None);
        let halted = cleared.next.state_set::<S>(PlaybackState::Stopped);
        Step {
            next: halted.next,
            effects: seq![
                EffectView::ToProcess(ManagerToProcessMsgView::Stop),
                EffectView::Emit(PlayerEventView::PlaybackFileChange(None)),
            ] + cleared.effects + halted.effects + seq![
                EffectView::Emit(PlayerEventView::StreamMetadataChange(None)),
            ],
        }
    }

    /// The next track is played: the same again under `RepeatOne`, else the
    /// next of the playlist, which under `RepeatAll` follows its last with
    /// its first. Where there is no next track, playback is stopped and the
    /// playlist is dropped.
    pub open spec fn next_played<S>(self) -> Step<S> {
        if self.repeat_mode == RepeatMode::RepeatOne {
            match self.queue {
                Some(queue) => self.started(queue.current()@),
                None => self.unchanged(),
            }
        } else {
            let mode = next_mode(self.repeat_mode);
            if self.queue is Some && self.queue.unwrap().has_next(mode) {
                let queue = self.queue.unwrap().advanced(mode);
                (ManagerView { queue: Some(queue), ..self }).started(queue.current()@)
            } else {
                let halted = self.stopped::<S>();
                Step { next: ManagerView { queue: None, ..halted.next }, effects: halted.effects }
            }
        }
    }

    /// Whether `id` is the playback id of the current track.
    pub open spec fn is_current(self, id: u64) -> bool {
        self.current_playback_id == Some(id)
    }

    /// A position is reported under `id`: the timing takes it up and the
    /// host is told, where `id` is current and the timing is known.
    pub open spec fn progressed<S>(self, id: u64, pos: usize) -> Step<S> {
        if self.is_current(id) && self.stream_timing is Some {
            self.timing_set(Some(TimingView { pos, ..self.stream_timing.unwrap() }))
        } else {
            self.unchanged()
        }
    }

    /// The end of the stream is reported under `id`, or opening the file
    /// failed under `id`: the next track is played, where `id` is current.
    pub open spec fn concluded<S>(self, id: u64) -> Step<S> {
        if self.is_current(id) {
            self.next_played()
        } else {
            self.unchanged()
        }
    }

    /// A seek to `offset` is asked for: the audio callback is told where the
    /// offset lies inside the track; beyond the track the next track is
    /// played. Without timing nothing happens.
    pub open spec fn sought<S>(self, offset: usize) -> Step<S> {
        match self.stream_timing {
            Some(timing) => if (offset as int) < timing.n_frames {
                Step {
                    next: self,
                    effects: seq![
                        EffectView::ToProcess(ManagerToProcessMsgView::SeekTo(offset)),
                    ],
                }
            } else {
                self.next_played()
            },
            None => self.unchanged(),
        }
    }

    /// Whether the stream is known to have played for fewer whole seconds
    /// than the threshold.
    pub open spec fn is_early(self) -> bool {
        self.stream_timing is Some && self.stream_timing.unwrap().is_early()
    }

    /// Whether the playlist has a track before the current one.
    pub open spec fn has_previous(self) -> bool {
        self.queue is Some && self.queue.unwrap().index > 0
    }

    /// A skip back is asked for: early in a stream the track before is
    /// started, where there is one; else the stream goes back to its start,
    /// where it is known to have left it.
    pub open spec fn skipped_back<S>(self) -> Step<S> {
        if self.is_early() && self.has_previous() {
            let queue = self.queue.unwrap().retreated();
            (ManagerView { queue: Some(queue), ..self }).started(queue.current()@)
        } else if self.stream_timing is Some && self.stream_timing.unwrap().pos > 0 {
            Step {
                next: self,
                effects: seq![EffectView::ToProcess(ManagerToProcessMsgView::SeekTo(0))],
            }
        } else {
            self.unchanged()
        }
    }

    /// The state in which the audio callback starts a stream.
    pub open spec fn start_state(self) -> StartPlaybackState {
        if self.playback_state == PlaybackState::Paused {
            StartPlaybackState::Paused
        } else {
            StartPlaybackState::Playing
        }
    }

    /// The file at `path`, asked for under `id`, is open as `stream`: where
    /// `id` is current, the timing is set where length and time base are
    /// known, the host is told the metadata, and the stream goes to the
    /// audio callback. A stream that is no more asked for is given up.
    pub open spec fn stream_opened<S>(self, id: u64, path: Seq<char>, stream: FileStreamView<
        S,
    >) -> Step<S> {
        if self.is_current(id) {
            let timed = if stream.n_frames is Some && stream.time_base is Some {
                self.timing_set::<S>(
                    Some(
                        TimingView {
                            time_base: stream.time_base.unwrap(),
                            n_frames: stream.n_frames.unwrap(),
                            pos: 0,
                        },
                    ),
                )
            } else {
                self.unchanged()
            };
            Step {
                next: timed.next,
                effects: timed.effects + seq![
                    EffectView::Emit(
                        PlayerEventView::StreamMetadataChange(
                            Some(metadata_shown(stream.metadata, path)),
                        ),
                    ),
                    EffectView::ToProcess(
                        ManagerToProcessMsgView::StartPlayback(id, stream, timed.next.start_state()),
                    ),
                ],
            }
        } else {
            self.unchanged()
        }
    }

    /// A playlist of `paths` is asked for, to start at `index`: where
    /// `index` lies inside `paths`, the file there is started; else the
    /// playlist is dropped. The playlist is given here in the order of the
    /// paths; `follows` says what holds of it under shuffle.
    pub open spec fn playlist_started<S>(self, paths: Seq<String>, index: usize) -> Step<S> {
        if index < paths.len() {
            let queue = QueueView {
                elements: paths,
                ordering: identity_ordering(paths.len()),
                index: index as int,
                is_shuffled: false,
            };
            (ManagerView { queue: Some(queue), ..self }).started(paths[index as int]@)
        } else {
            Step { next: ManagerView { queue: None, ..self }, effects: Seq::empty() }
        }
    }

    /// What `command` leads to. The playlist of the result is given without
    /// regard to shuffle; `follows` says what holds of it.
    pub open spec fn handled<S>(self, command: CommandView<S>) -> Step<S> {
        match command {
            CommandView::StartPlayback(paths, index) => self.playlist_started(paths, index),
            CommandView::Pause => {
                let paused = self.state_set::<S>(PlaybackState::Paused);
                Step {
                    next: paused.next,
                    effects: seq![EffectView::ToProcess(ManagerToProcessMsgView::Pause)]
                        + paused.effects,
                }
            },
            CommandView::Resume => {
                let playing = self.state_set::<S>(PlaybackState::Playing);
                Step {
                    next: playing.next,
                    effects: seq![EffectView::ToProcess(ManagerToProcessMsgView::Resume)]
                        + playing.effects,
                }
            },
            CommandView::Stop => self.stopped(),
            CommandView::Progress(id, pos) => self.progressed(id, pos),
            CommandView::PlaybackEnded(id) => self.concluded(id),
            CommandView::SetVolume(gain) => Step {
                next: self,
                effects: seq![EffectView::ToProcess(ManagerToProcessMsgView::SetGain(gain))],
            },
            CommandView::SeekTo(offset) => self.sought(offset),
            CommandView::OpenFileStreamError(id, _) => self.concluded(id),
            CommandView::OpenFileStream(id, path, stream) => self.stream_opened(id, path, stream),
            CommandView::SkipForward => self.next_played(),
            CommandView::SkipBack => self.skipped_back(),
            CommandView::SetShuffle(mode) => Step {
                next: ManagerView {
                    shuffle_mode: mode,
                    queue: if mode == ShuffleMode::NotEnabled && self.shuffle_mode != mode
                        && self.queue is Some {
                        Some(self.queue.unwrap().unshuffled())
                    } else {
                        self.queue
                    },
                    ..self
                },
                effects: Seq::empty(),
            },
            CommandView::SetRepeat(mode) => Step {
                next: ManagerView { repeat_mode: mode, ..self },
                effects: Seq::empty(),
            },
        }
    }

    /// Whether `command` shuffles the playlist: it makes a playlist while
    /// shuffle is on, or it turns shuffle on while there is a playlist.
    pub open spec fn shuffles<S>(self, command: CommandView<S>) -> bool {
        match command {
            CommandView::StartPlayback(paths, index) => self.shuffle_mode == ShuffleMode::Enabled
                && index < paths.len(),
            CommandView::SetShuffle(mode) => mode == ShuffleMode::Enabled && self.shuffle_mode
                != mode && self.queue is Some,
            _ => false,
        }
    }

    /// `next` and `effects` may be what `command` leads to. All but the
    /// order of a shuffled playlist is fixed by `handled`; of a playlist that
    /// the command shuffles, its elements and its current element are fixed
    /// and the order of the others is left open.
    pub open spec fn follows<S>(
        self,
        command: CommandView<S>,
        next: ManagerView,
        effects: Seq<EffectView<S>>,
    ) -> bool {
        let step = self.handled(command);
        &&& effects == step.effects
        &&& next == ManagerView { queue: next.queue, ..step.next }
        &&& if self.shuffles(command) {
            match command {
                CommandView::StartPlayback(paths, index) => next.queue is Some
                    && next.queue.unwrap().is_shuffle_starting_at(paths, index as int),
                _ => next.queue is Some && next.queue.unwrap().is_shuffle_of(self.queue.unwrap()),
            }
        } else {
            next.queue == step.next.queue
        }
    }
}

/// The value of a playlist that may be missing.
pub open spec fn queue_view(queue: Option<Queue<String>>) -> Option<QueueView<String>> {
    match queue {
        Some(found) => Some(found@),
        None => None,
    }
}

impl View for PlaybackManager {
    type V = ManagerView;

    closed spec fn view(&self) -> ManagerView {
        ManagerView {
            queue: queue_view(self.queue),
            current_playback_id: self.current_playback_id,
            next_playback_id: self.next_playback_id,
            playback_state: self.playback_state,
            stream_timing: timing_view(self.stream_timing),
            shuffle_mode: self.shuffle_mode,
            repeat_mode: self.repeat_mode,
            output_sample_rate: self.output_sample_rate,
        }
    }
}

/// Appends `effect` to `effects`.
fn push_effect<S>(effects: &mut Vec<ManagerEffect<S>>, effect: ManagerEffect<S>)
    ensures
        effects_view(final(effects)@) == effects_view(old(effects)@).push(effect@),
{
    effects.push(effect);
    assert(effects_view(effects@) =~= effects_view(old(effects)@).push(effect@));
}

impl PlaybackManager {
    #[verifier::type_invariant]
    spec fn inv(self) -> bool {
        &&& self.current_playback_id is Some ==> self.playback_state != PlaybackState::Stopped
        &&& self.playback_state == PlaybackState::Stopped ==> self.stream_timing is None
        &&& self.current_playback_id matches Some(id) ==> self.next_playback_id == id_after(id)
    }

    /// A manager for a device with `output_sample_rate`: no playlist, no
    /// track, stopped, shuffle and repeat off.
    pub fn new(output_sample_rate: u32) -> (manager: Self)
        ensures
            manager@ == (ManagerView {
                queue: None,
                current_playback_id: None,
                next_playback_id: 0,
                playback_state: PlaybackState::Stopped,
                stream_timing: None,
                shuffle_mode: ShuffleMode::NotEnabled,
                repeat_mode: RepeatMode::Off,
                output_sample_rate,
            }),
            manager@.wf(),
    {
        PlaybackManager {
            queue: None,
            current_playback_id: None,
            next_playback_id: 0,
            playback_state: PlaybackState::Stopped,
            stream_timing: None,
            shuffle_mode: ShuffleMode::NotEnabled,
            repeat_mode: RepeatMode::Off,
            output_sample_rate,
        }
    }

    /// Whether the player plays.
    pub fn playback_state(&self) -> (state: PlaybackState)
        ensures
            state == self@.playback_state,
    {
        self.playback_state
    }

    /// The playback id of the track that is played or being opened.
    pub fn current_playback_id(&self) -> (id: Option<u64>)
        ensures
            id == self@.current_playback_id,
    {
        self.current_playback_id
    }

    /// Whether the playlist is shuffled.
    pub fn shuffle_mode(&self) -> (mode: ShuffleMode)
        ensures
            mode == self@.shuffle_mode,
    {
        self.shuffle_mode
    }

    /// What follows the end of a track.
    pub fn repeat_mode(&self) -> (mode: RepeatMode)
        ensures
            mode == self@.repeat_mode,
    {
        self.repeat_mode
    }

    /// The timing of the stream as the host sees it.
    pub fn stream_timing(&self) -> (timing: Option<StreamTiming>)
        ensures
            timing == timing_shown(self@.stream_timing),
    {
        match &self.stream_timing {
            Some(timing) => Some(timing.as_stream_timing()),
            None => None,
        }
    }

    /// The path of the current element of the playlist.
    pub fn current_path(&self) -> (path: Option<String>)
        ensures
            match path {
                Some(found) => self@.queue is Some && found@ == self@.queue.unwrap().current()@,
                None => self@.queue is None,
            },
    {
        match &self.queue {
            Some(queue) => Some(queue.current().clone()),
            None => None,
        }
    }

    fn is_current(&self, playback_id: u64) -> (current: bool)
        ensures
            current == self@.is_current(playback_id),
    {
        match self.current_playback_id {
            Some(id) => id == playback_id,
            None => false,
        }
    }

    fn set_playback_state<S>(
        &mut self,
        playback_state: PlaybackState,
        effects: &mut Vec<ManagerEffect<S>>,
    )
        requires
            playback_state == PlaybackState::Stopped ==> old(self)@.current_playback_id is None
                && old(self)@.stream_timing is None,
        ensures
            final(self)@ == old(self)@.state_set::<S>(playback_state).next,
            effects_view(final(effects)@) == effects_view(old(effects)@) + old(self)@.state_set::<
                S,
            >(playback_state).effects,
    {
        proof {
            use_type_invariant(&*self);
        }
        if self.playback_state != playback_state {
            self.playback_state = playback_state;
            push_effect(
                effects,
                ManagerEffect::Emit(PlayerEvent::PlaybackStateChange(playback_state)),
            );
            assert(effects_view(effects@) =~= effects_view(old(effects)@) + old(
                self,
            )@.state_set::<S>(playback_state).effects);
        } else {
            assert(effects_view(effects@) =~= effects_view(old(effects)@) + old(
                self,
            )@.state_set::<S>(playback_state).effects);
        }
    }

    fn set_stream_timing<S>(
        &mut self,
        stream_timing: Option<StreamTimingInternal>,
        effects: &mut Vec<ManagerEffect<S>>,
    )
        requires
            stream_timing is Some ==> old(self)@.playback_state != PlaybackState::Stopped,
        ensures
            final(self)@ == old(self)@.timing_set::<S>(timing_view(stream_timing)).next,
            effects_view(final(effects)@) == effects_view(old(effects)@) + old(self)@.timing_set::<
                S,
            >(timing_view(stream_timing)).effects,
    {
        proof {
            use_type_invariant(&*self);
        }
        let same = match (&self.stream_timing, &stream_timing) {
            (Some(old_timing), Some(new_timing)) => old_timing.same(new_timing),
            (None, None) => true,
            _ => false,
        };
        if !same {
            let payload = match &stream_timing {
                Some(timing) => Some(timing.as_stream_timing()),
                None => None,
            };
            self.stream_timing = stream_timing;
            push_effect(effects, ManagerEffect::Emit(PlayerEvent::StreamTimingChange(payload)));
            assert(effects_view(effects@) =~= effects_view(old(effects)@) + old(
                self,
            )@.timing_set::<S>(timing_view(stream_timing)).effects);
        } else {
            assert(effects_view(effects@) =~= effects_view(old(effects)@) + old(
                self,
            )@.timing_set::<S>(timing_view(stream_timing)).effects);
        }
    }

    fn start_playback<S>(&mut self, path: String, effects: &mut Vec<ManagerEffect<S>>)
        ensures
            final(self)@ == old(self)@.started::<S>(path@).next,
            effects_view(final(effects)@) == effects_view(old(effects)@) + old(self)@.started::<S>(
                path@,
            ).effects,
    {
        proof {
            use_type_invariant(&*self);
        }
        let ghost before = self@;
        let ghost step = before.started::<S>(path@);
        push_effect(effects, ManagerEffect::ToProcess(ManagerToProcessMsg::Stop));
        self.set_stream_timing(None, effects);
        self.set_playback_state(PlaybackState::Playing, effects);
        push_effect(effects, ManagerEffect::Emit(PlayerEvent::StreamMetadataChange(None)));
        let playback_id = self.next_playback_id;
        self.current_playback_id = None;
        self.next_playback_id = if playback_id == u64::MAX {
            0
        } else {
            playback_id + 1
        };
        self.current_playback_id = Some(playback_id);
        let file = playback_file(&path);
        push_effect(effects, ManagerEffect::Emit(PlayerEvent::PlaybackFileChange(Some(file))));
        push_effect(
            effects,
            ManagerEffect::OpenFile {
                playback_id,
                path,
                target_sample_rate: self.output_sample_rate,
            },
        );
        proof {
            assert(effects_view(effects@) =~= effects_view(old(effects)@) + step.effects);
        }
    }

    fn stop_playback<S>(&mut self, effects: &mut Vec<ManagerEffect<S>>)
        ensures
            final(self)@ == old(self)@.stopped::<S>().next,
            effects_view(final(effects)@) == effects_view(old(effects)@) + old(self)@.stopped::<
                S,
            >().effects,
    {
        proof {
            use_type_invariant(&*self);
        }
        let ghost step = self@.stopped::<S>();
        self.current_playback_id = None;
        push_effect(effects, ManagerEffect::ToProcess(ManagerToProcessMsg::Stop));
        push_effect(effects, ManagerEffect::Emit(PlayerEvent::PlaybackFileChange(None)));
        self.set_stream_timing(None, effects);
        self.set_playback_state(PlaybackState::Stopped, effects);
        push_effect(effects, ManagerEffect::Emit(PlayerEvent::StreamMetadataChange(None)));
        proof {
            assert(effects_view(effects@) =~= effects_view(old(effects)@) + step.effects);
        }
    }

    fn play_next<S>(&mut self, effects: &mut Vec<ManagerEffect<S>>)
        ensures
            final(self)@ == old(self)@.next_played::<S>().next,
            effects_view(final(effects)@) == effects_view(old(effects)@) + old(
                self,
            )@.next_played::<S>().effects,
    {
        proof {
            use_type_invariant(&*self);
        }
        let ghost before = self@;
        if self.repeat_mode == RepeatMode::RepeatOne {
            match self.current_path() {
                Some(path) => {
                    self.start_playback(path, effects);
                },
                None => {
                    assert(effects_view(effects@) =~= effects_view(old(effects)@) + Seq::empty());
                },
            }
            return ;
        }
        let mode = if self.repeat_mode == RepeatMode::RepeatAll {
            GoNextMode::RepeatAll
        } else {
            GoNextMode::Default
        };
        let mut queue: Option<Queue<String>> = None;
        core::mem::swap(&mut self.queue, &mut queue);
        let next = match &mut queue {
            Some(found) => match found.go_next(mode) {
                Some(path) => Some(path.clone()),
                None => None,
            },
            None => None,
        };
        match next {
            Some(path) => {
                core::mem::swap(&mut self.queue, &mut queue);
                self.start_playback(path, effects);
            },
            None => {
                self.stop_playback(effects);
            },
        }
    }

    fn skip_back<S>(&mut self, effects: &mut Vec<ManagerEffect<S>>)
        ensures
            final(self)@ == old(self)@.skipped_back::<S>().next,
            effects_view(final(effects)@) == effects_view(old(effects)@) + old(
                self,
            )@.skipped_back::<S>().effects,
    {
        proof {
            use_type_invariant(&*self);
        }
        let has_previous = match &self.queue {
            Some(queue) => queue.has_previous(),
            None => false,
        };
        let is_early_in_stream = match &self.stream_timing {
            Some(timing) => timing.is_early(),
            None => false,
        };
        let position = match &self.stream_timing {
            Some(timing) => timing.pos,
            None => 0,
        };
        if is_early_in_stream && has_previous {
            let mut queue: Option<Queue<String>> = None;
            core::mem::swap(&mut self.queue, &mut queue);
            let previous = match &mut queue {
                Some(found) => Some(found.go_previous_clamped().clone()),
                None => None,
            };
            core::mem::swap(&mut self.queue, &mut queue);
            if let Some(path) = previous {
                self.start_playback(path, effects);
            }
        } else if position > 0 {
            push_effect(effects, ManagerEffect::ToProcess(ManagerToProcessMsg::SeekTo(0)));
            assert(effects_view(effects@) =~= effects_view(old(effects)@) + old(
                self,
            )@.skipped_back::<S>().effects);
        } else {
            assert(effects_view(effects@) =~= effects_view(old(effects)@) + Seq::empty());
        }
    }

    fn seek_to<S>(&mut self, offset: usize, effects: &mut Vec<ManagerEffect<S>>)
        ensures
            final(self)@ == old(self)@.sought::<S>(offset).next,
            effects_view(final(effects)@) == effects_view(old(effects)@) + old(self)@.sought::<S>(
                offset,
            ).effects,
    {
        let inside = match &self.stream_timing {
            Some(timing) => Some((offset as u64) < timing.n_frames),
            None => None,
        };
        match inside {
            Some(true) => {
                push_effect(effects, ManagerEffect::ToProcess(ManagerToProcessMsg::SeekTo(offset)));
                assert(effects_view(effects@) =~= effects_view(old(effects)@) + old(
                    self,
                )@.sought::<S>(offset).effects);
            },
            Some(false) => {
                self.play_next(effects);
            },
            None => {
                assert(effects_view(effects@) =~= effects_view(old(effects)@) + Seq::empty());
            },
        }
    }

    fn progress<S>(&mut self, playback_id: u64, pos: usize, effects: &mut Vec<ManagerEffect<S>>)
        ensures
            final(self)@ == old(self)@.progressed::<S>(playback_id, pos).next,
            effects_view(final(effects)@) == effects_view(old(effects)@) + old(self)@.progressed::<
                S,
            >(playback_id, pos).effects,
    {
        proof {
            use_type_invariant(&*self);
        }
        let updated = if self.is_current(playback_id) {
            match &self.stream_timing {
                Some(timing) => Some(StreamTimingInternal { pos, ..*timing }),
                None => None,
            }
        } else {
            None
        };
        match updated {
            Some(timing) => {
                self.set_stream_timing(Some(timing), effects);
            },
            None => {
                assert(effects_view(effects@) =~= effects_view(old(effects)@) + Seq::empty());
            },
        }
    }

    fn conclude<S>(&mut self, playback_id: u64, effects: &mut Vec<ManagerEffect<S>>)
        ensures
            final(self)@ == old(self)@.concluded::<S>(playback_id).next,
            effects_view(final(effects)@) == effects_view(old(effects)@) + old(self)@.concluded::<
                S,
            >(playback_id).effects,
    {
        if self.is_current(playback_id) {
            self.play_next(effects);
        } else {
            assert(effects_view(effects@) =~= effects_view(old(effects)@) + Seq::empty());
        }
    }

    fn open_file_stream<S: Copy>(
        &mut self,
        playback_id: u64,
        path: String,
        file_stream: FileStream<S>,
        effects: &mut Vec<ManagerEffect<S>>,
    )
        ensures
            final(self)@ == old(self)@.stream_opened::<S>(playback_id, path@, file_stream@).next,
            effects_view(final(effects)@) == effects_view(old(effects)@) + old(
                self,
            )@.stream_opened::<S>(playback_id, path@, file_stream@).effects,
    {
        proof {
            use_type_invariant(&*self);
        }
        let ghost step = self@.stream_opened::<S>(playback_id, path@, file_stream@);
        if !self.is_current(playback_id) {
            file_stream.close();
            assert(effects_view(effects@) =~= effects_view(old(effects)@) + Seq::empty());
            return ;
        }
        let timing = match file_stream.n_frames() {
            Some(n_frames) => match file_stream.time_base() {
                Some(time_base) => Some(StreamTimingInternal::new(*time_base, n_frames, 0)),
                None => None,
            },
            None => None,
        };
        let ghost timed = effects_view(effects@);
        match timing {
            Some(found) => {
                self.set_stream_timing(Some(found), effects);
            },
            None => {
                assert(effects_view(effects@) =~= effects_view(old(effects)@) + Seq::empty());
            },
        }
        let shown = stream_metadata(file_stream.metadata(), &path);
        push_effect(effects, ManagerEffect::Emit(PlayerEvent::StreamMetadataChange(Some(shown))));
        let start_playback_state = match self.playback_state {
            PlaybackState::Paused => StartPlaybackState::Paused,
            _ => StartPlaybackState::Playing,
        };
        push_effect(
            effects,
            ManagerEffect::ToProcess(
                ManagerToProcessMsg::StartPlayback(playback_id, file_stream, start_playback_state),
            ),
        );
        proof {
            assert(effects_view(effects@) =~= effects_view(old(effects)@) + step.effects);
        }
    }

    fn start_playlist<S>(
        &mut self,
        file_paths: Vec<String>,
        start_index: usize,
        effects: &mut Vec<ManagerEffect<S>>,
    )
        ensures
            old(self)@.follows::<S>(
                CommandView::StartPlayback(file_paths@, start_index),
                final(self)@,
                effects_view(final(effects)@).subrange(
                    effects_view(old(effects)@).len() as int,
                    effects_view(final(effects)@).len() as int,
                ),
            ),
            effects_view(old(effects)@).is_prefix_of(effects_view(final(effects)@)),
    {
        proof {
            use_type_invariant(&*self);
        }
        let ghost before = self@;
        let ghost command = CommandView::<S>::StartPlayback(file_paths@, start_index);
        let ghost step = before.handled(command);
        let ghost given = effects_view(effects@);
        let queue = if self.shuffle_mode == ShuffleMode::Enabled {
            Queue::from_iter_shuffled(file_paths, start_index)
        } else {
            Queue::from_iter(file_paths, start_index)
        };
        let path = match &queue {
            Some(found) => Some(found.current().clone()),
            None => None,
        };
        self.queue = queue;
        match path {
            Some(found) => {
                proof {
                    crate::queue::lemma_permutation_in_range(
                        self@.queue.unwrap().ordering,
                        file_paths@.len(),
                    );
                }
                self.start_playback(found, effects);
            },
            None => {},
        }
        proof {
            assert(effects_view(effects@).subrange(
                given.len() as int,
                effects_view(effects@).len() as int,
            ) =~= step.effects);
        }
    }

    fn set_shuffle_mode(&mut self, shuffle_mode: ShuffleMode)
        ensures
            old(self)@.follows::<()>(
                CommandView::SetShuffle(shuffle_mode),
                final(self)@,
                Seq::empty(),
            ),
    {
        proof {
            use_type_invariant(&*self);
        }
        if shuffle_mode == self.shuffle_mode {
            return ;
        }
        let mut queue: Option<Queue<String>> = None;
        core::mem::swap(&mut self.queue, &mut queue);
        let mut changed = match queue {
            Some(found) => if shuffle_mode == ShuffleMode::Enabled {
                Some(found.to_shuffled())
            } else {
                Some(found.to_unshuffled())
            },
            None => None,
        };
        core::mem::swap(&mut self.queue, &mut changed);
        self.shuffle_mode = shuffle_mode;
    }

    /// Carries out `command` and returns what is to be done, in order.
    pub fn handle<S: Copy>(&mut self, command: ManagerCommand<S>) -> (effects: Vec<
        ManagerEffect<S>,
    >)
        ensures
            old(self)@.follows(command@, final(self)@, effects_view(effects@)),
            final(self)@.wf(),
    {
        proof {
            use_type_invariant(&*self);
        }
        let ghost before = self@;
        let ghost asked = command@;
        let mut effects: Vec<ManagerEffect<S>> = Vec::new();
        assert(effects_view(effects@) =~= Seq::empty());
        match command {
            ManagerCommand::StartPlayback(file_paths, start_index) => {
                self.start_playlist(file_paths, start_index, &mut effects);
                assert(effects_view(effects@).subrange(0, effects_view(effects@).len() as int)
                    =~= effects_view(effects@));
            },
            ManagerCommand::Pause => {
                push_effect(&mut effects, ManagerEffect::ToProcess(ManagerToProcessMsg::Pause));
                self.set_playback_state(PlaybackState::Paused, &mut effects);
                assert(effects_view(effects@) =~= before.handled(asked).effects);
            },
            ManagerCommand::Stop => {
                self.stop_playback(&mut effects);
                assert(effects_view(effects@) =~= before.handled(asked).effects);
            },
            ManagerCommand::Resume => {
                push_effect(&mut effects, ManagerEffect::ToProcess(ManagerToProcessMsg::Resume));
                self.set_playback_state(PlaybackState::Playing, &mut effects);
                assert(effects_view(effects@) =~= before.handled(asked).effects);
            },
            ManagerCommand::Progress(playback_id, pos) => {
                self.progress(playback_id, pos, &mut effects);
                assert(effects_view(effects@) =~= before.handled(asked).effects);
            },
            ManagerCommand::PlaybackEnded(playback_id) => {
                self.conclude(playback_id, &mut effects);
                assert(effects_view(effects@) =~= before.handled(asked).effects);
            },
            ManagerCommand::SetVolume(gain) => {
                push_effect(
                    &mut effects,
                    ManagerEffect::ToProcess(ManagerToProcessMsg::SetGain(gain)),
                );
                assert(effects_view(effects@) =~= before.handled(asked).effects);
            },
            ManagerCommand::SeekTo(offset) => {
                self.seek_to(offset, &mut effects);
                assert(effects_view(effects@) =~= before.handled(asked).effects);
            },
            ManagerCommand::OpenFileStream(playback_id, path, file_stream) => {
                self.open_file_stream(playback_id, path, file_stream, &mut effects);
                assert(effects_view(effects@) =~= before.handled(asked).effects);
            },
            ManagerCommand::OpenFileStreamError(playback_id, _, _) => {
                self.conclude(playback_id, &mut effects);
                assert(effects_view(effects@) =~= before.handled(asked).effects);
            },
            ManagerCommand::SkipForward => {
                self.play_next(&mut effects);
                assert(effects_view(effects@) =~= before.handled(asked).effects);
            },
            ManagerCommand::SkipBack => {
                self.skip_back(&mut effects);
                assert(effects_view(effects@) =~= before.handled(asked).effects);
            },
            ManagerCommand::SetShuffle(shuffle_mode) => {
                self.set_shuffle_mode(shuffle_mode);
            },
            ManagerCommand::SetRepeat(repeat_mode) => {
                self.repeat_mode = repeat_mode;
            },
        }
        proof {
            use_type_invariant(&*self);
            if let Some(queue) = &self.queue {
                use_type_invariant(queue);
            }
        }
        effects
    }
}

/// A report of the audio callback under a stale playback id changes nothing:
/// neither a position nor the end of a stream that is not the current one
/// moves the manager or has anything done.
pub proof fn lemma_stale_reports_change_nothing<S>(
    manager: ManagerView,
    playback_id: u64,
    pos: usize,
    next: ManagerView,
    effects: Seq<EffectView<S>>,
)
    requires
        manager.current_playback_id != Some(playback_id),
        manager.follows(CommandView::<S>::Progress(playback_id, pos), next, effects)
            || manager.follows(CommandView::<S>::PlaybackEnded(playback_id), next, effects),
    ensures
        next == manager,
        effects == Seq::<EffectView<S>>::empty(),
{
}

/// Every track that is started gets the playback id that was to come next,
/// and short of the last id that is one more than the id of the track
/// before: the ids grow.
pub proof fn lemma_playback_ids_grow<S>(manager: ManagerView, path: Seq<char>)
    requires
        manager.wf(),
    ensures
        manager.started::<S>(path).next.wf(),
        manager.started::<S>(path).next.current_playback_id == Some(manager.next_playback_id),
        manager.started::<S>(path).effects.last() == (EffectView::<S>::OpenFile {
            playback_id: manager.next_playback_id,
            path,
            target_sample_rate: manager.output_sample_rate,
        }),
        manager.current_playback_id matches Some(id) ==> id < u64::MAX
            ==> manager.next_playback_id == id + 1,
{
}

/// Starting a file while the player is stopped: the audio callback is
/// stopped first, the host is told once that the player plays, that no
/// metadata is known yet and which file it is, and the file is to be opened.
/// No stream goes to the audio callback yet, and there is no timing.
pub proof fn lemma_start_from_stopped<S>(manager: ManagerView, path: Seq<char>)
    requires
        manager.wf(),
        manager.playback_state == PlaybackState::Stopped,
    ensures
        manager.stream_timing is None,
        manager.started::<S>(path).next.playback_state == PlaybackState::Playing,
        manager.started::<S>(path).next.stream_timing is None,
        manager.started::<S>(path).effects == seq![
            EffectView::<S>::ToProcess(ManagerToProcessMsgView::Stop),
            EffectView::Emit(PlayerEventView::PlaybackStateChange(PlaybackState::Playing)),
            EffectView::Emit(PlayerEventView::StreamMetadataChange(None)),
            EffectView::Emit(PlayerEventView::PlaybackFileChange(Some(file_shown(path)))),
            EffectView::OpenFile {
                playback_id: manager.next_playback_id,
                path,
                target_sample_rate: manager.output_sample_rate,
            },
        ],
{
    let step = manager.started::<S>(path);
    assert(step.effects =~= seq![
        EffectView::<S>::ToProcess(ManagerToProcessMsgView::Stop),
        EffectView::Emit(PlayerEventView::PlaybackStateChange(PlaybackState::Playing)),
        EffectView::Emit(PlayerEventView::StreamMetadataChange(None)),
        EffectView::Emit(PlayerEventView::PlaybackFileChange(Some(file_shown(path)))),
        EffectView::OpenFile {
            playback_id: manager.next_playback_id,
            path,
            target_sample_rate: manager.output_sample_rate,
        },
    ]);
}

/// Stopping a player that plays a stream with known timing: the audio
/// callback is stopped, and the host is told, in this order, that the file,
/// the timing, the playing and the metadata are gone. No track is current
/// afterwards.
pub proof fn lemma_stop_clears_everything<S>(manager: ManagerView)
    requires
        manager.wf(),
        manager.playback_state == PlaybackState::Playing,
        manager.stream_timing is Some,
    ensures
        manager.handled::<S>(CommandView::Stop).next == (ManagerView {
            current_playback_id: None,
            stream_timing: None,
            playback_state: PlaybackState::Stopped,
            ..manager
        }),
        manager.handled::<S>(CommandView::Stop).next.wf(),
        manager.handled::<S>(CommandView::Stop).effects == seq![
            EffectView::<S>::ToProcess(ManagerToProcessMsgView::Stop),
            EffectView::Emit(PlayerEventView::PlaybackFileChange(None)),
            EffectView::Emit(PlayerEventView::StreamTimingChange(None)),
            EffectView::Emit(PlayerEventView::PlaybackStateChange(PlaybackState::Stopped)),
            EffectView::Emit(PlayerEventView::StreamMetadataChange(None)),
        ],
{
    let step = manager.handled::<S>(CommandView::Stop);
    assert(step.effects =~= seq![
        EffectView::<S>::ToProcess(ManagerToProcessMsgView::Stop),
        EffectView::Emit(PlayerEventView::PlaybackFileChange(None)),
        EffectView::Emit(PlayerEventView::StreamTimingChange(None)),
        EffectView::Emit(PlayerEventView::PlaybackStateChange(PlaybackState::Stopped)),
        EffectView::Emit(PlayerEventView::StreamMetadataChange(None)),
    ]);
}

/// At the end of a track that has a next one in the playlist, the next one
/// is started: the playlist moves on by one and stays, the track gets the
/// next playback id, and the host is told the file of the next track and is
/// not told that the file is gone.
pub proof fn lemma_end_of_track_starts_the_next<S>(manager: ManagerView, playback_id: u64)
    requires
        manager.wf(),
        manager.is_current(playback_id),
        manager.repeat_mode == RepeatMode::Off,
        manager.queue is Some,
        manager.queue.unwrap().index + 1 < manager.queue.unwrap().elements.len(),
    ensures
        ({
            let step = manager.handled::<S>(CommandView::PlaybackEnded(playback_id));
            let queue = manager.queue.unwrap();
            let next_path = queue.elements[queue.ordering[queue.index + 1] as int]@;
            &&& step.next.queue == Some(QueueView { index: queue.index + 1, ..queue })
            &&& step.next.current_playback_id == Some(manager.next_playback_id)
            &&& step.next.playback_state == PlaybackState::Playing
            &&& step.effects == (ManagerView {
                queue: Some(QueueView { index: queue.index + 1, ..queue }),
                ..manager
            }).started::<S>(next_path).effects
            &&& step.effects.contains(
                EffectView::Emit(PlayerEventView::PlaybackFileChange(Some(file_shown(next_path)))),
            )
            &&& !step.effects.contains(EffectView::Emit(PlayerEventView::PlaybackFileChange(None)))
        }),
{
    let step = manager.handled::<S>(CommandView::PlaybackEnded(playback_id));
    let queue = manager.queue.unwrap();
    let next_path = queue.elements[queue.ordering[queue.index + 1] as int]@;
    let moved = ManagerView { queue: Some(QueueView { index: queue.index + 1, ..queue }), ..manager };
    let cleared = moved.timing_set::<S>(None);
    let playing = cleared.next.state_set::<S>(PlaybackState::Playing);
    let shown = EffectView::<S>::Emit(
        PlayerEventView::PlaybackFileChange(Some(file_shown(next_path))),
    );
    let gone = EffectView::<S>::Emit(PlayerEventView::PlaybackFileChange(None));
    let tail = seq![
        EffectView::<S>::Emit(PlayerEventView::StreamMetadataChange(None)),
        shown,
        EffectView::OpenFile {
            playback_id: manager.next_playback_id,
            path: next_path,
            target_sample_rate: manager.output_sample_rate,
        },
    ];
    let head = seq![EffectView::<S>::ToProcess(ManagerToProcessMsgView::Stop)] + cleared.effects
        + playing.effects;
    assert(step.effects == head + tail);
    assert(tail[1] == shown);
    assert((head + tail)[head.len() as int + 1] == shown);
    assert forall|i: int| 0 <= i < step.effects.len() implies step.effects[i] != gone by {
        if i < head.len() {
            if i >= 1 && i < 1 + cleared.effects.len() {
                assert(step.effects[i] == cleared.effects[i - 1]);
            } else if i >= 1 {
                assert(step.effects[i] == playing.effects[i - 1 - cleared.effects.len()]);
            }
        } else {
            assert(step.effects[i] == tail[i - head.len()]);
        }
    }
}

} // verus!
