//! What the player tells its host.

use vstd::prelude::*;

verus! {

/// Whether the player plays.
#[derive(Clone, Copy, Debug, PartialEq, Eq, Structural)]
pub enum PlaybackState {
    Playing,
    Paused,
    Stopped,
}

/// The file that is played.
#[derive(Clone, Debug, PartialEq, Eq)]
pub struct PlaybackFile {
    pub path: String,
    pub name: String,
}

/// Where the stream is, and how long it lasts.
#[derive(Clone, Copy, Debug, PartialEq, Eq, Structural)]
pub struct StreamTiming {
    /// The length in frames of the file.
    pub duration: u64,
    /// The position in frames of the file.
    pub pos: usize,
    /// The length in whole seconds.
    pub duration_seconds: u64,
}

/// The front cover of a track.
#[derive(Clone, Debug, PartialEq, Eq)]
pub struct StreamMetadataVisual {
    pub data_base64: String,
    pub media_type: String,
}

/// What is shown of a track.
#[derive(Clone, Debug, PartialEq, Eq)]
pub struct StreamMetadata {
    pub track_title: Option<String>,
    pub artist: Option<String>,
    pub album_cover: Option<StreamMetadataVisual>,
    /// A colour to show where there is no cover.
    pub fallback_color: String,
}

/// An event for the host.
#[derive(Clone, Debug, PartialEq, Eq)]
pub enum PlayerEvent {
    PlaybackFileChange(Option<PlaybackFile>),
    PlaybackStateChange(PlaybackState),
    StreamTimingChange(Option<StreamTiming>),
    StreamMetadataChange(Option<StreamMetadata>),
}

/// The mathematical value of a `PlaybackFile`.
pub struct PlaybackFileView {
    pub path: Seq<char>,
    pub name: Seq<char>,
}

/// The mathematical value of a `StreamMetadataVisual`.
pub struct StreamMetadataVisualView {
    pub data_base64: Seq<char>,
    pub media_type: Seq<char>,
}

/// The mathematical value of a `StreamMetadata`.
pub struct StreamMetadataView {
    pub track_title: Option<Seq<char>>,
    pub artist: Option<Seq<char>>,
    pub album_cover: Option<StreamMetadataVisualView>,
    pub fallback_color: Seq<char>,
}

/// The mathematical value of a `PlayerEvent`.
pub enum PlayerEventView {
    PlaybackFileChange(Option<PlaybackFileView>),
    PlaybackStateChange(PlaybackState),
    StreamTimingChange(Option<StreamTiming>),
    StreamMetadataChange(Option<StreamMetadataView>),
}

/// The characters of a text that may be missing.
pub open spec fn text_view(text: Option<String>) -> Option<Seq<char>> {
    match text {
        Some(found) => Some(found@),
        None => None,
    }
}

impl View for PlaybackFile {
    type V = PlaybackFileView;

    open spec fn view(&self) -> PlaybackFileView {
        PlaybackFileView { path: self.path@, name: self.name@ }
    }
}

impl View for StreamMetadataVisual {
    type V = StreamMetadataVisualView;

    open spec fn view(&self) -> StreamMetadataVisualView {
        StreamMetadataVisualView { data_base64: self.data_base64@, media_type: self.media_type@ }
    }
}

impl View for StreamMetadata {
    type V = StreamMetadataView;

    open spec fn view(&self) -> StreamMetadataView {
        StreamMetadataView {
            track_title: text_view(self.track_title),
            artist: text_view(self.artist),
            album_cover: match self.album_cover {
                Some(cover) => Some(cover@),
                None => None,
            },
            fallback_color: self.fallback_color@,
        }
    }
}

impl View for PlayerEvent {
    type V = PlayerEventView;

    open spec fn view(&self) -> PlayerEventView {
        match self {
            PlayerEvent::PlaybackFileChange(file) => PlayerEventView::PlaybackFileChange(
                match file {
                    Some(found) => Some(found@),
                    None => None,
                },
            ),
            PlayerEvent::PlaybackStateChange(state) => PlayerEventView::PlaybackStateChange(
                *state,
            ),
            PlayerEvent::StreamTimingChange(timing) => PlayerEventView::StreamTimingChange(
                *timing,
            ),
            PlayerEvent::StreamMetadataChange(metadata) => PlayerEventView::StreamMetadataChange(
                match metadata {
                    Some(found) => Some(found@),
                    None => None,
                },
            ),
        }
    }
}

} // verus!
