//! The playback core of a directory-browsing music player.
//!
//! The crate holds the playlist, the block cache between the decoder and the
//! audio callback, the callback itself and the manager that ties them
//! together. Every function is verified: its contract is stated over the view
//! of the value it works on.
//!
//! The samples are copied and never computed with, so their type is a
//! parameter of everything that touches them.

pub mod decode_worker;
pub mod errors;
pub mod events;
pub mod file_stream;
pub mod manager;
pub mod messages;
pub mod metadata;
pub mod output;
pub mod process;
pub mod queue;
pub mod ring;
pub mod samples;
pub mod time_base;

pub use decode_worker::{
    DecodeWorker, DecodeWorkerToFileStreamMessage, DecodedBlock, FileStreamToDecodeWorkerMessage,
    WorkerControl, WorkerStep,
};
pub use errors::{FileStreamOpenError, IoFault, OpenErrorKind, StreamErrorKind};
pub use events::{
    PlaybackFile, PlaybackState, PlayerEvent, StreamMetadata, StreamMetadataVisual, StreamTiming,
};
pub use file_stream::{FileStream, FileStreamMetadata, OpenedTrack, ReadData};
pub use manager::{
    ManagerCommand, ManagerEffect, PlaybackManager, RepeatMode, ShuffleMode, StreamTimingInternal,
};
pub use messages::{ManagerToProcessMsg, ProcessToManagerMsg, StartPlaybackState};
pub use metadata::{MetadataTag, MetadataVisual, TagKey, TagValue, TrackMetadata, VisualKey};
pub use output::{Output, SupportedBufferSize, SupportedOutputConfig};
pub use process::{Process, ProcessPlaybackState};
pub use queue::{GoNextMode, Queue};
pub use time_base::TimeBase;
