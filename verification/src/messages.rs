//! The messages between the manager and the audio callback.

use crate::file_stream::{FileStream, FileStreamView};
use vstd::prelude::*;

verus! {

/// The state in which the audio callback starts a stream.
#[derive(Clone, Copy, Debug, PartialEq, Eq, Structural)]
pub enum StartPlaybackState {
    Playing,
    Paused,
}

/// What the manager tells the audio callback.
#[verifier::reject_recursive_types(S)]
pub enum ManagerToProcessMsg<S> {
    /// Play this stream, under this playback id, from this state on.
    StartPlayback(u64, FileStream<S>, StartPlaybackState),
    Pause,
    Resume,
    /// Give up the stream.
    Stop,
    /// Multiply every sample by this gain.
    SetGain(S),
    /// Move the stream to this frame of the file.
    SeekTo(usize),
}

/// The mathematical value of a message to the audio callback.
pub enum ManagerToProcessMsgView<S> {
    StartPlayback(u64, FileStreamView<S>, StartPlaybackState),
    Pause,
    Resume,
    Stop,
    SetGain(S),
    SeekTo(usize),
}

impl<S> View for ManagerToProcessMsg<S> {
    type V = ManagerToProcessMsgView<S>;

    open spec fn view(&self) -> ManagerToProcessMsgView<S> {
        match self {
            ManagerToProcessMsg::StartPlayback(id, stream, state) => {
                ManagerToProcessMsgView::StartPlayback(*id, stream@, *state)
            },
            ManagerToProcessMsg::Pause => ManagerToProcessMsgView::Pause,
            ManagerToProcessMsg::Resume => ManagerToProcessMsgView::Resume,
            ManagerToProcessMsg::Stop => ManagerToProcessMsgView::Stop,
            ManagerToProcessMsg::SetGain(gain) => ManagerToProcessMsgView::SetGain(*gain),
            ManagerToProcessMsg::SeekTo(frame) => ManagerToProcessMsgView::SeekTo(*frame),
        }
    }
}

/// What the audio callback tells the manager.
#[derive(Clone, Copy, Debug, PartialEq, Eq, Structural)]
pub enum ProcessToManagerMsg {
    /// The stream with this playback id is at this frame of the file.
    PlaybackPos(u64, usize),
    /// The stream with this playback id has been played to its end.
    PlaybackEnded(u64),
}

} // verus!
