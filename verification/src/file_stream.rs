//! The file stream: the buffer of decoded blocks between the worker of a
//! file and the audio callback.
//!
//! The stream takes blocks from the worker's ring, hands their frames out in
//! the order they came, counts its position in frames of the file, and sends
//! every block it is done with back to the worker, so that nothing is freed
//! on the thread that reads.

use crate::decode_worker::{
    scale_frames, scaled_frames, BlockView, DecodeWorker, DecodeWorkerToFileStreamMessage,
    DecodeWorkerView, DecodedBlock, FileStreamToDecodeWorkerMessage, WorkerRequestView,
};
use crate::metadata::{TrackMetadata, TrackMetadataView};
use crate::ring::{ring_buffer, ring_pop, ring_push, ring_slots, MESSAGE_BUFFER_SIZE};
use crate::samples::{
    constant_buffer, constant_frames, covers_frames, has_frames, no_frames, planar_view,
};
use crate::time_base::{TimeBase, TimeBaseView};
use std::collections::VecDeque;
use vstd::prelude::*;
use vstd::slice::slice_subrange;

verus! {

/// The smallest number of frames of the file in a block.
pub const MIN_BLOCK_SIZE: usize = 1024;

/// The largest number of frames that one `read` hands out.
pub const READ_BUFFER_SIZE: usize = 16384;

/// What a `read` handed out: the first `len` frames of every channel of
/// `data`.
pub struct ReadData<'a, S> {
    data: &'a Vec<Vec<S>>,
    len: usize,
    reached_end_of_file: bool,
}

/// The mathematical value of a `ReadData`.
pub struct ReadDataView<S> {
    pub data: Seq<Seq<S>>,
    pub len: nat,
    pub reached_end_of_file: bool,
}

impl<'a, S> View for ReadData<'a, S> {
    type V = ReadDataView<S>;

    closed spec fn view(&self) -> ReadDataView<S> {
        ReadDataView {
            data: planar_view(*self.data),
            len: self.len as nat,
            reached_end_of_file: self.reached_end_of_file,
        }
    }
}

impl<'a, S> ReadData<'a, S> {
    #[verifier::type_invariant]
    spec fn inv(self) -> bool {
        covers_frames(self@.data, self@.len)
    }

    /// The first `len` frames of `data`.
    pub fn new(data: &'a Vec<Vec<S>>, len: usize, reached_end_of_file: bool) -> (read: Self)
        requires
            covers_frames(planar_view(*data), len as nat),
        ensures
            read@ == (ReadDataView {
                data: planar_view(*data),
                len: len as nat,
                reached_end_of_file,
            }),
    {
        Self { data, len, reached_end_of_file }
    }

    /// The frames of `channel`.
    pub fn read_channel(&self, channel: usize) -> (samples: &[S])
        requires
            channel < self@.data.len(),
        ensures
            samples@ == self@.data[channel as int].subrange(0, self@.len as int),
            samples@.len() == self@.len <= self@.data[channel as int].len(),
    {
        proof {
            use_type_invariant(self);
            assert(self@.data[channel as int].len() >= self@.len);
        }
        slice_subrange(self.data[channel].as_slice(), 0, self.len)
    }

    /// The number of channels.
    pub fn num_channels(&self) -> (channels: usize)
        ensures
            channels == self@.data.len(),
    {
        self.data.len()
    }

    /// The number of frames.
    pub fn num_frames(&self) -> (frames: usize)
        ensures
            frames == self@.len,
    {
        self.len
    }

    /// Whether the last block of the stream was read to its end.
    pub fn reached_end_of_file(&self) -> (reached: bool)
        ensures
            reached == self@.reached_end_of_file,
    {
        self.reached_end_of_file
    }
}

/// What is known of a track besides its samples.
pub struct FileStreamMetadata {
    pub time_base: Option<TimeBase>,
    pub preferred_metadata: Option<TrackMetadata>,
}

impl FileStreamMetadata {
    /// The time base with the metadata to be shown: that of the container
    /// where it has any, else what was found while the file was probed.
    pub fn preferring(
        time_base: Option<TimeBase>,
        container: Option<TrackMetadata>,
        probed: Option<TrackMetadata>,
    ) -> (metadata: Self)
        ensures
            metadata.time_base == time_base,
            metadata.preferred_metadata == if container is Some {
                container
            } else {
                probed
            },
    {
        let preferred_metadata = match container {
            Some(found) => Some(found),
            None => probed,
        };
        FileStreamMetadata { time_base, preferred_metadata }
    }
}

/// What opening a file found: the track to be played and the first packet
/// decoded from it.
pub struct OpenedTrack<S> {
    pub track_id: u32,
    pub n_frames: Option<u64>,
    pub sample_rate: u32,
    /// The largest number of frames that a packet of the decoder holds.
    pub capacity: usize,
    pub first_packet: Vec<Vec<S>>,
    pub metadata: FileStreamMetadata,
}

/// What a read does to a list of blocks.
pub struct ReadOutcome<S> {
    /// The number of frames read.
    pub frames: nat,
    /// Whether the last block of the stream was read to its end.
    pub eof: bool,
    /// The blocks from the first that was not read to its end.
    pub blocks: Seq<BlockView<S>>,
}

/// Reads up to `want` frames from `blocks`, in order. A block that is read to
/// its end is left behind; reading stops at the first block that has frames
/// left, and after the last block of the stream.
pub open spec fn read_blocks<S>(blocks: Seq<BlockView<S>>, want: nat) -> ReadOutcome<S>
    decreases blocks.len(),
{
    if want == 0 || blocks.len() == 0 {
        ReadOutcome { frames: 0, eof: false, blocks }
    } else {
        let head = blocks[0];
        let taken = if head.remaining() <= want {
            head.remaining()
        } else {
            want
        };
        if taken < head.remaining() {
            ReadOutcome {
                frames: taken,
                eof: false,
                blocks: blocks.update(0, head.advanced(taken)),
            }
        } else if head.is_eof {
            ReadOutcome {
                frames: taken,
                eof: true,
                blocks: blocks.drop_first(),
            }
        } else {
            let rest = read_blocks(blocks.drop_first(), (want - taken) as nat);
            ReadOutcome {
                frames: taken + rest.frames,
                eof: rest.eof,
                blocks: rest.blocks,
            }
        }
    }
}

/// The samples of `channel` that `read_blocks` reads.
pub open spec fn read_samples<S>(blocks: Seq<BlockView<S>>, want: nat, channel: int) -> Seq<S>
    decreases blocks.len(),
{
    if want == 0 || blocks.len() == 0 {
        Seq::empty()
    } else {
        let head = blocks[0];
        let taken = if head.remaining() <= want {
            head.remaining()
        } else {
            want
        };
        let chunk = head.samples[channel].subrange(
            head.playhead as int,
            (head.playhead + taken) as int,
        );
        if taken < head.remaining() || head.is_eof {
            chunk
        } else {
            chunk + read_samples(blocks.drop_first(), (want - taken) as nat, channel)
        }
    }
}

/// `blocks` without the blocks at its head that have no frame left. The last
/// block of the stream stays until a read has reached its end (`eof`).
pub open spec fn without_exhausted<S>(blocks: Seq<BlockView<S>>, eof: bool) -> Seq<BlockView<S>>
    decreases blocks.len(),
{
    if blocks.len() > 0 && blocks[0].remaining() == 0 && (!blocks[0].is_eof || eof) {
        without_exhausted(blocks.drop_first(), eof)
    } else {
        blocks
    }
}

/// The mathematical value of a file stream.
pub struct FileStreamView<S> {
    /// The blocks that wait to be read, oldest first.
    pub blocks: Seq<BlockView<S>>,
    /// The position, in frames of the file.
    pub playhead: nat,
    /// The buffer that `read` fills.
    pub read_buffer: Seq<Seq<S>>,
    /// The epoch: the number of seeks so far.
    pub stream_id: nat,
    /// The length of the track in frames of the file, where it is known.
    pub n_frames: Option<u64>,
    /// The time base of the track, where it is known.
    pub time_base: Option<TimeBaseView>,
    /// The metadata found when the file was opened.
    pub metadata: Option<TrackMetadataView>,
    /// The messages that were offered to the ring to the worker, oldest
    /// first.
    pub requests: Seq<WorkerRequestView<S>>,
    /// The samples of each channel that `read` has handed out since the
    /// stream was opened.
    pub delivered: Seq<Seq<S>>,
    /// The sample rate of the file.
    pub source_rate: nat,
    /// The sample rate of the device.
    pub target_rate: nat,
    /// What every read that found a block came to, oldest first.
    pub reads: Seq<ReadRecord>,
}

/// What a read came to.
pub struct ReadRecord {
    /// The number of frames read.
    pub frames: nat,
    /// Whether the last block of the stream was read to its end.
    pub eof: bool,
}

/// The blocks `from .. to` of `blocks`, read to their end, as requests to
/// free them.
pub open spec fn released<S>(blocks: Seq<BlockView<S>>, from: int, to: int) -> Seq<
    WorkerRequestView<S>,
> {
    Seq::new(
        (to - from) as nat,
        |i: int| WorkerRequestView::DisposeBlock(blocks[from + i].advanced(blocks[from + i].remaining())),
    )
}

impl<S> FileStreamView<S> {
    /// Whether `block` may wait in this stream: it is well formed, of the
    /// stream's epoch, and has the stream's channels.
    pub open spec fn holds(self, block: BlockView<S>) -> bool {
        &&& block.wf()
        &&& block.stream_id == self.stream_id
        &&& block.samples.len() == self.read_buffer.len()
        &&& block.source_rate == self.source_rate
        &&& block.target_rate == self.target_rate
    }

    /// The invariant of a file stream: every block that waits is of the
    /// current epoch, and the list of them never outgrows the room it was
    /// made with.
    pub open spec fn wf(self) -> bool {
        &&& has_frames(self.read_buffer, READ_BUFFER_SIZE as nat)
        &&& self.blocks.len() <= MESSAGE_BUFFER_SIZE
        &&& self.playhead <= usize::MAX
        &&& self.stream_id <= u32::MAX
        &&& 0 < self.source_rate <= u32::MAX
        &&& 0 < self.target_rate <= u32::MAX
        &&& forall|i: int| 0 <= i < self.blocks.len() ==> self.holds(#[trigger] self.blocks[i])
    }

    /// `self` is `before` after it has looked at its ring: blocks may have
    /// come, and nothing else has changed.
    pub open spec fn polled_from(self, before: Self) -> bool {
        &&& self.wf()
        &&& before.blocks.is_prefix_of(self.blocks)
        &&& self == FileStreamView { blocks: self.blocks, ..before }
    }

    /// The number of frames that a read of `frames` frames asks for.
    pub open spec fn wanted(frames: nat) -> nat {
        if frames <= READ_BUFFER_SIZE {
            frames
        } else {
            READ_BUFFER_SIZE as nat
        }
    }

    /// What a read of `frames` frames finds.
    pub open spec fn outcome(self, frames: nat) -> ReadOutcome<S> {
        read_blocks(self.blocks, Self::wanted(frames))
    }

    /// The number of frames of the file that `frames` frames at the
    /// device's rate stand for, rounded to the nearest whole number.
    pub open spec fn source_frames(self, frames: nat) -> nat {
        scaled_frames(frames, self.source_rate, self.target_rate)
    }

    /// The blocks that stay after a read of `frames` frames.
    pub open spec fn kept(self, frames: nat) -> Seq<BlockView<S>> {
        without_exhausted(self.outcome(frames).blocks, self.outcome(frames).eof)
    }

    /// The stream after a read of `frames` frames: the frames read stand at
    /// the start of the read buffer, the position has moved by the frames of
    /// the file that all of them together stand for, and the blocks read to
    /// their end are gone: each was offered to the worker, to be freed
    /// there.
    pub open spec fn after_read(self, frames: nat) -> Self {
        let outcome = self.outcome(frames);
        FileStreamView {
            blocks: self.kept(frames),
            requests: self.requests + released(
                self.blocks,
                0,
                self.blocks.len() - self.kept(frames).len(),
            ),
            delivered: Seq::new(
                self.read_buffer.len(),
                |channel: int|
                    self.delivered[channel] + read_samples(
                        self.blocks,
                        Self::wanted(frames),
                        channel,
                    ),
            ),
            playhead: if self.playhead + self.source_frames(outcome.frames) <= usize::MAX {
                self.playhead + self.source_frames(outcome.frames)
            } else {
                usize::MAX as nat
            },
            reads: self.reads.push(ReadRecord { frames: outcome.frames, eof: outcome.eof }),
            read_buffer: Seq::new(
                self.read_buffer.len(),
                |channel: int|
                    read_samples(self.blocks, Self::wanted(frames), channel)
                        + self.read_buffer[channel].skip(outcome.frames as int),
            ),
            ..self
        }
    }

    /// All that a stream has asked of its worker once it is closed: what it
    /// had asked before, every block that waited, and last the read buffer
    /// with the word that the stream is gone.
    pub open spec fn closing_requests(self) -> Seq<WorkerRequestView<S>> {
        (self.requests + Seq::new(
            self.blocks.len(),
            |i: int| WorkerRequestView::DisposeBlock(self.blocks[i]),
        )).push(WorkerRequestView::Done(self.read_buffer))
    }

    /// The request that a seek to `seek_to` makes of the worker.
    pub open spec fn seek_request(self, seek_to: usize) -> WorkerRequestView<S> {
        WorkerRequestView::Seek(seek_to, (self.stream_id + 1) as u32)
    }

    /// The stream after a seek to `seek_to`: a new epoch, no block, and the
    /// position asked for. The worker was offered the request, and then
    /// every block that waited, as it was.
    pub open spec fn after_seek(self, seek_to: usize) -> Self {
        FileStreamView {
            stream_id: self.stream_id + 1,
            playhead: seek_to as nat,
            blocks: Seq::empty(),
            requests: self.requests.push(self.seek_request(seek_to)) + Seq::new(
                self.blocks.len(),
                |i: int| WorkerRequestView::DisposeBlock(self.blocks[i]),
            ),
            ..self
        }
    }

    /// The stream after a seek to `seek_to` that the ring to the worker
    /// refused: the request was offered, and nothing else has changed.
    pub open spec fn seek_refused(self, seek_to: usize) -> Self {
        FileStreamView { requests: self.requests.push(self.seek_request(seek_to)), ..self }
    }

    /// `self` may be what `seek` makes of `before`. Where the epochs are used
    /// up nothing is asked of the worker.
    pub open spec fn is_seek_of(self, before: Self, seek_to: usize, sought: bool) -> bool {
        exists|polled: Self|
            polled.polled_from(before) && self == #[trigger] polled.seek_outcome(seek_to, sought)
    }

    /// What a seek makes of a stream that has taken the blocks that had
    /// come.
    pub open spec fn seek_outcome(self, seek_to: usize, sought: bool) -> Self {
        if sought {
            self.after_seek(seek_to)
        } else if self.stream_id >= u32::MAX {
            self
        } else {
            self.seek_refused(seek_to)
        }
    }

    /// `self` may be what `read` makes of `before`, with the frames of
    /// `read`.
    pub open spec fn is_read_of(self, before: Self, frames: nat, read: Option<ReadDataView<S>>) -> bool {
        exists|polled: Self|
            #![trigger polled.polled_from(before)]
            polled.polled_from(before) && match read {
                Some(data) => {
                    &&& polled.blocks.len() > 0
                    &&& self == polled.after_read(frames)
                    &&& data == (ReadDataView {
                        data: self.read_buffer,
                        len: polled.outcome(frames).frames,
                        reached_end_of_file: polled.outcome(frames).eof,
                    })
                },
                None => polled.blocks.len() == 0 && self == polled,
            }
    }
}

/// The values of the blocks of a list.
pub open spec fn blocks_view<S>(blocks: Seq<Box<DecodedBlock<S>>>) -> Seq<BlockView<S>> {
    Seq::new(blocks.len(), |i: int| (*blocks[i])@)
}

/// The value of a time base that may be missing.
pub open spec fn time_base_view(time_base: Option<TimeBase>) -> Option<TimeBaseView> {
    match time_base {
        Some(found) => Some(found@),
        None => None,
    }
}

/// The value of metadata that may be missing.
pub open spec fn metadata_view(metadata: Option<TrackMetadata>) -> Option<TrackMetadataView> {
    match metadata {
        Some(found) => Some(found@),
        None => None,
    }
}

/// A file that is being played.
#[verifier::reject_recursive_types(S)]
pub struct FileStream<S> {
    message_consumer: rtrb::Consumer<DecodeWorkerToFileStreamMessage<S>>,
    message_producer: rtrb::Producer<FileStreamToDecodeWorkerMessage<S>>,
    blocks: VecDeque<Box<DecodedBlock<S>>>,
    playhead: usize,
    read_buffer: Vec<Vec<S>>,
    stream_id: u32,
    n_frames: Option<u64>,
    time_base: Option<TimeBase>,
    metadata: Option<TrackMetadata>,
    requests: Ghost<Seq<WorkerRequestView<S>>>,
    delivered: Ghost<Seq<Seq<S>>>,
    source_rate: u32,
    target_rate: u32,
    reads: Ghost<Seq<ReadRecord>>,
}

impl<S> View for FileStream<S> {
    type V = FileStreamView<S>;

    closed spec fn view(&self) -> FileStreamView<S> {
        FileStreamView {
            blocks: blocks_view(self.blocks@),
            playhead: self.playhead as nat,
            read_buffer: planar_view(self.read_buffer),
            stream_id: self.stream_id as nat,
            n_frames: self.n_frames,
            time_base: time_base_view(self.time_base),
            metadata: metadata_view(self.metadata),
            requests: self.requests@,
            delivered: self.delivered@,
            source_rate: self.source_rate as nat,
            target_rate: self.target_rate as nat,
            reads: self.reads@,
        }
    }
}

impl<S> FileStream<S> {
    /// Every file stream is well formed.
    #[verifier::type_invariant]
    pub open spec fn inv(self) -> bool {
        self@.wf()
    }
}

/// Copies `count` samples of `channel` of `block`, from its playhead on, over
/// those of `target` from `at` on.
fn copy_channel<S: Copy>(
    target: &mut Vec<S>,
    block: &DecodedBlock<S>,
    channel: usize,
    at: usize,
    count: usize,
)
    requires
        channel < block@.samples.len(),
        count <= block@.remaining(),
        at + count <= old(target)@.len(),
    ensures
        final(target)@.len() == old(target)@.len(),
        final(target)@ == old(target)@.subrange(0, at as int) + block@.samples[channel as int].subrange(
            block@.playhead as int,
            block@.playhead + count,
        ) + old(target)@.subrange(at + count, old(target)@.len() as int),
{
    let len = target.len();
    let from = block.playhead();
    let remaining = block.remaining();
    let ghost source = block@.samples[channel as int];
    assert(source.len() >= block@.num_frames);
    let mut i: usize = 0;
    while i < count
        invariant
            i <= count <= remaining,
            remaining == block@.remaining(),
            from == block@.playhead,
            block@.wf(),
            channel < block@.samples.len(),
            source == block@.samples[channel as int],
            source.len() >= block@.num_frames,
            at + count <= len,
            len == old(target)@.len(),
            target@.len() == old(target)@.len(),
            target@ == old(target)@.subrange(0, at as int) + source.subrange(
                from as int,
                from + i,
            ) + old(target)@.subrange(at + i, old(target)@.len() as int),
        decreases count - i,
    {
        let sample = block.sample(channel, from + i);
        target[at + i] = sample;
        i += 1;
        assert(target@ =~= old(target)@.subrange(0, at as int) + source.subrange(
            from as int,
            from + i,
        ) + old(target)@.subrange(at + i, old(target)@.len() as int));
    }
}

/// Copies `count` frames of `block`, from its playhead on, over those of
/// `buffer` from `at` on.
fn copy_frames<S: Copy>(buffer: &mut Vec<Vec<S>>, block: &DecodedBlock<S>, at: usize, count: usize)
    requires
        old(buffer)@.len() == block@.samples.len(),
        count <= block@.remaining(),
        at + count <= READ_BUFFER_SIZE,
        has_frames(planar_view(*old(buffer)), READ_BUFFER_SIZE as nat),
    ensures
        final(buffer)@.len() == old(buffer)@.len(),
        has_frames(planar_view(*final(buffer)), READ_BUFFER_SIZE as nat),
        forall|c: int|
            0 <= c < old(buffer)@.len() ==> (#[trigger] planar_view(*final(buffer))[c])
                == planar_view(*old(buffer))[c].subrange(0, at as int)
                + block@.samples[c].subrange(block@.playhead as int, block@.playhead + count)
                + planar_view(*old(buffer))[c].subrange(at + count, READ_BUFFER_SIZE as int),
{
    let channels = buffer.len();
    let mut channel: usize = 0;
    assert forall|c: int| 0 <= c < channels implies (#[trigger] buffer@[c])@.len()
        == READ_BUFFER_SIZE by {
        assert(planar_view(*buffer)[c].len() == READ_BUFFER_SIZE);
    }
    while channel < channels
        invariant
            channel <= channels,
            channels == block@.samples.len(),
            buffer@.len() == channels,
            old(buffer)@.len() == channels,
            count <= block@.remaining(),
            at + count <= READ_BUFFER_SIZE,
            has_frames(planar_view(*old(buffer)), READ_BUFFER_SIZE as nat),
            forall|c: int| 0 <= c < channels ==> (#[trigger] buffer@[c])@.len() == READ_BUFFER_SIZE,
            forall|c: int|
                0 <= c < channel ==> (#[trigger] buffer@[c])@ == old(buffer)@[c]@.subrange(
                    0,
                    at as int,
                ) + block@.samples[c].subrange(block@.playhead as int, block@.playhead + count)
                    + old(buffer)@[c]@.subrange(at + count, READ_BUFFER_SIZE as int),
            forall|c: int| channel <= c < channels ==> (#[trigger] buffer@[c]) == old(buffer)@[c],
        decreases channels - channel,
    {
        assert(planar_view(*old(buffer))[channel as int].len() == READ_BUFFER_SIZE);
        copy_channel(&mut buffer[channel], block, channel, at, count);
        channel += 1;
    }
    assert forall|c: int| 0 <= c < channels implies (#[trigger] planar_view(*buffer)[c]).len()
        == READ_BUFFER_SIZE by {
        assert(buffer@[c]@.len() == READ_BUFFER_SIZE);
    }
}

/// `left + right`, and `usize::MAX` where that is larger.
fn saturating_sum(left: usize, right: usize) -> (sum: usize)
    ensures
        sum == if left + right <= usize::MAX {
            (left + right) as nat
        } else {
            usize::MAX as nat
        },
{
    if left > usize::MAX - right {
        usize::MAX
    } else {
        left + right
    }
}

impl<S: Copy> FileStream<S> {
    /// A stream for an opened track, with the worker that will decode it.
    /// The worker starts with the first packet of the track; the stream
    /// starts empty, at position 0 and in epoch 0, with a read buffer of
    /// `silence`. A block holds as many frames of the file as a packet of the
    /// decoder can, and `MIN_BLOCK_SIZE` at least.
    pub fn open(track: OpenedTrack<S>, target_sample_rate: u32, silence: S) -> (opened: (
        Self,
        DecodeWorker<S>,
    ))
        requires
            track.sample_rate > 0,
            target_sample_rate > 0,
            track.first_packet@.len() > 0,
            has_frames(
                planar_view(track.first_packet),
                planar_view(track.first_packet)[0].len(),
            ),
            planar_view(track.first_packet)[0].len() <= track.capacity,
        ensures
            opened.0@ == (FileStreamView {
                blocks: Seq::empty(),
                playhead: 0,
                read_buffer: Seq::new(
                    track.first_packet@.len(),
                    |channel: int| constant_frames(silence, READ_BUFFER_SIZE as nat),
                ),
                stream_id: 0,
                n_frames: track.n_frames,
                time_base: time_base_view(track.metadata.time_base),
                metadata: metadata_view(track.metadata.preferred_metadata),
                requests: Seq::empty(),
                delivered: no_frames(track.first_packet@.len()),
                source_rate: track.sample_rate as nat,
                target_rate: target_sample_rate as nat,
                reads: Seq::empty(),
            }),
            opened.0@.wf(),
            opened.1@ == (DecodeWorkerView {
                input: planar_view(track.first_packet),
                block_size: if track.capacity >= MIN_BLOCK_SIZE {
                    track.capacity as nat
                } else {
                    MIN_BLOCK_SIZE as nat
                },
                track_id: track.track_id,
                source_rate: track.sample_rate as nat,
                target_rate: target_sample_rate as nat,
                stream_id: 0,
                is_eof: false,
                seek_delta: 0,
                produced: Seq::empty(),
                received: Seq::empty(),
            }),
            opened.1@.wf(),
    {
        let block_size = if track.capacity >= MIN_BLOCK_SIZE {
            track.capacity
        } else {
            MIN_BLOCK_SIZE
        };
        let num_channels = track.first_packet.len();
        let (from_worker_producer, from_worker_consumer) = ring_buffer(MESSAGE_BUFFER_SIZE);
        let (to_worker_producer, to_worker_consumer) = ring_buffer(MESSAGE_BUFFER_SIZE);
        let sample_rate = track.sample_rate;
        let worker = DecodeWorker::new(
            target_sample_rate,
            num_channels,
            block_size,
            sample_rate,
            track.track_id,
            track.first_packet,
            from_worker_producer,
            to_worker_consumer,
        );
        let read_buffer = constant_buffer(num_channels, READ_BUFFER_SIZE, silence);
        let stream = FileStream {
            message_consumer: from_worker_consumer,
            message_producer: to_worker_producer,
            blocks: VecDeque::with_capacity(MESSAGE_BUFFER_SIZE),
            playhead: 0,
            read_buffer,
            stream_id: 0,
            n_frames: track.n_frames,
            time_base: track.metadata.time_base,
            metadata: track.metadata.preferred_metadata,
            requests: Ghost(Seq::empty()),
            delivered: Ghost(no_frames(num_channels as nat)),
            source_rate: sample_rate,
            target_rate: target_sample_rate,
            reads: Ghost(Seq::empty()),
        };
        proof {
            assert(stream@.blocks =~= Seq::empty());
        }
        (stream, worker)
    }

    /// The length of the track in frames of the file, where it is known.
    pub fn n_frames(&self) -> (frames: Option<u64>)
        ensures
            frames == self@.n_frames,
    {
        self.n_frames
    }

    /// The time base of the track, where it is known.
    pub fn time_base(&self) -> (time_base: Option<&TimeBase>)
        ensures
            match time_base {
                Some(found) => self@.time_base == Some(found@),
                None => self@.time_base is None,
            },
    {
        self.time_base.as_ref()
    }

    /// The position, in frames of the file.
    pub fn playhead(&self) -> (frame: usize)
        ensures
            frame == self@.playhead,
    {
        self.playhead
    }

    /// The metadata found when the file was opened.
    pub fn metadata(&self) -> (metadata: Option<&TrackMetadata>)
        ensures
            match metadata {
                Some(found) => self@.metadata == Some(found@),
                None => self@.metadata is None,
            },
    {
        self.metadata.as_ref()
    }

    /// The number of channels.
    pub fn num_channels(&self) -> (channels: usize)
        ensures
            channels == self@.read_buffer.len(),
    {
        self.read_buffer.len()
    }

    /// The epoch: the number of seeks so far.
    pub fn stream_id(&self) -> (id: u32)
        ensures
            id == self@.stream_id,
    {
        self.stream_id
    }

    /// Whether a block that came from the ring is taken up: it is of the
    /// current epoch and has the stream's channels and sample rates.
    pub fn accepts(&self, block: &DecodedBlock<S>) -> (accepted: bool)
        ensures
            accepted == (block@.stream_id == self@.stream_id && block@.samples.len()
                == self@.read_buffer.len() && block@.source_rate == self@.source_rate
                && block@.target_rate == self@.target_rate),
    {
        block.stream_id() == self.stream_id && block.num_channels() == self.read_buffer.len()
            && block.source_rate() == self.source_rate && block.target_rate()
            == self.target_rate
    }

    /// Takes the blocks that wait in the ring, as far as the list has room
    /// for them. A block of an earlier epoch is dropped.
    fn poll(&mut self)
        ensures
            final(self)@.polled_from(old(self)@),
    {
        proof {
            use_type_invariant(&*self);
        }
        let ghost start = self@;
        let mut blocks: VecDeque<Box<DecodedBlock<S>>> = VecDeque::new();
        core::mem::swap(&mut self.blocks, &mut blocks);
        let ghost hollow = self@;
        proof {
            assert(hollow.blocks =~= Seq::empty());
            assert(blocks_view(blocks@) =~= start.blocks);
        }
        let mut budget: usize = ring_slots(&self.message_consumer);
        let mut waiting = true;
        while waiting && budget > 0 && blocks.len() < MESSAGE_BUFFER_SIZE
            invariant
                self@ == hollow,
                hollow == (FileStreamView { blocks: Seq::empty(), ..start }),
                start.wf(),
                blocks@.len() <= MESSAGE_BUFFER_SIZE,
                start.blocks.is_prefix_of(blocks_view(blocks@)),
                forall|i: int|
                    0 <= i < blocks@.len() ==> start.holds(#[trigger] blocks_view(blocks@)[i]),
            decreases budget,
        {
            budget -= 1;
            match ring_pop(&mut self.message_consumer) {
                None => {
                    waiting = false;
                },
                Some(DecodeWorkerToFileStreamMessage::Block(decoded)) => {
                    if self.accepts(&decoded) {
                        let ghost before = blocks_view(blocks@);
                        proof {
                            use_type_invariant(&*decoded);
                        }
                        blocks.push_back(decoded);
                        proof {
                            assert(blocks_view(blocks@) =~= before.push(decoded@));
                            assert forall|i: int| 0 <= i < blocks@.len() implies start.holds(
                                #[trigger] blocks_view(blocks@)[i],
                            ) by {
                                if i < before.len() {
                                    assert(blocks_view(blocks@)[i] == before[i]);
                                }
                            }
                        }
                    }
                },
            }
        }
        let ghost arrived = blocks_view(blocks@);
        core::mem::swap(&mut self.blocks, &mut blocks);
        proof {
            assert(self@.blocks =~= arrived);
            assert(self@ == (FileStreamView { blocks: arrived, ..start }));
        }
    }

    /// Whether a block waits to be read, after the blocks that wait in the
    /// ring have been taken.
    pub fn is_ready(&mut self) -> (ready: bool)
        ensures
            final(self)@.polled_from(old(self)@),
            ready == (final(self)@.blocks.len() > 0),
    {
        self.poll();
        self.blocks.len() > 0
    }

    /// Offers `request` to the ring to the worker. Returns whether the ring
    /// took it.
    fn ask(&mut self, request: FileStreamToDecodeWorkerMessage<S>) -> (taken: bool)
        ensures
            final(self)@ == (FileStreamView {
                requests: old(self)@.requests.push(request@),
                ..old(self)@
            }),
    {
        proof {
            use_type_invariant(&*self);
        }
        let ghost asked = request@;
        let rejected = ring_push(&mut self.message_producer, request);
        proof {
            self.requests@ = self.requests@.push(asked);
        }
        rejected.is_none()
    }

    /// Hands all blocks that wait to the worker.
    fn release_blocks(&mut self)
        ensures
            final(self)@ == (FileStreamView {
                blocks: Seq::empty(),
                requests: old(self)@.requests + Seq::new(
                    old(self)@.blocks.len(),
                    |i: int| WorkerRequestView::DisposeBlock(old(self)@.blocks[i]),
                ),
                ..old(self)@
            }),
    {
        proof {
            use_type_invariant(&*self);
        }
        let ghost start = self@;
        let mut blocks: VecDeque<Box<DecodedBlock<S>>> = VecDeque::new();
        core::mem::swap(&mut self.blocks, &mut blocks);
        proof {
            assert(self@.blocks =~= Seq::empty());
            assert(blocks_view(blocks@) =~= start.blocks);
            assert(self@.requests =~= start.requests + Seq::new(
                0,
                |i: int| WorkerRequestView::DisposeBlock(start.blocks[i]),
            ));
        }
        let ghost mut released: int = 0;
        while blocks.len() > 0
            invariant
                self@ == (FileStreamView {
                    blocks: Seq::empty(),
                    requests: self@.requests,
                    ..start
                }),
                released + blocks@.len() == start.blocks.len(),
                0 <= released,
                blocks_view(blocks@) == start.blocks.skip(released),
                self@.requests == start.requests + Seq::new(
                    released as nat,
                    |i: int| WorkerRequestView::DisposeBlock(start.blocks[i]),
                ),
            decreases blocks@.len(),
        {
            let ghost before = blocks_view(blocks@);
            let ghost asked = self@.requests;
            let front = blocks.pop_front();
            proof {
                assert(blocks_view(blocks@) =~= before.drop_first());
                assert(before.drop_first() =~= start.blocks.skip(released + 1));
            }
            if let Some(block) = front {
                assert(block@ == before[0]);
                self.ask(FileStreamToDecodeWorkerMessage::DisposeBlock(block));
                proof {
                    assert(self@.requests =~= start.requests + Seq::new(
                        (released + 1) as nat,
                        |i: int| WorkerRequestView::DisposeBlock(start.blocks[i]),
                    ));
                }
            }
            proof {
                released = released + 1;
            }
        }
        // The emptied list goes back in, with the room it was made with.
        core::mem::swap(&mut self.blocks, &mut blocks);
        proof {
            assert(self@.blocks =~= Seq::empty());
        }
    }

    /// Moves the stream to `seek_to`, a frame of the file: asks the worker
    /// to go on decoding there under the next epoch, hands it the blocks
    /// that wait, and sets the position. Returns whether the worker's ring
    /// took the request; where it did not, or the epochs are used up, the
    /// seek does not take place.
    pub fn seek(&mut self, seek_to: usize) -> (sought: bool)
        ensures
            final(self)@.is_seek_of(old(self)@, seek_to, sought),
            old(self)@.stream_id >= u32::MAX ==> !sought,
            final(self)@.wf(),
    {
        self.poll();
        let ghost polled = self@;
        proof {
            use_type_invariant(&*self);
        }
        if self.stream_id == u32::MAX {
            proof {
                assert(self@ == polled.seek_outcome(seek_to, false));
            }
            return false;
        }
        let next_id = self.stream_id + 1;
        let sought = self.ask(FileStreamToDecodeWorkerMessage::Seek(seek_to, next_id));
        if sought {
            self.release_blocks();
            self.stream_id = next_id;
            self.playhead = seek_to;
            proof {
                assert(self@.requests =~= polled.after_seek(seek_to).requests);
                assert(self@ == polled.seek_outcome(seek_to, true));
            }
        } else {
            proof {
                assert(self@ == polled.seek_outcome(seek_to, false));
            }
        }
        proof {
            use_type_invariant(&*self);
        }
        sought
    }

    /// Reads up to `frames` frames, and `READ_BUFFER_SIZE` at most, from the
    /// blocks that wait, after the blocks that wait in the ring have been
    /// taken. `None` where no block waits.
    pub fn read(&mut self, frames: usize) -> (read: Option<ReadData<'_, S>>)
        ensures
            final(self)@.is_read_of(
                old(self)@,
                frames as nat,
                match read {
                    Some(data) => Some(data@),
                    None => None,
                },
            ),
            read matches Some(data) ==> data@.len <= frames && data@.len <= READ_BUFFER_SIZE,
            final(self)@.wf(),
            final(self)@.playhead >= old(self)@.playhead,
            final(self)@.stream_id == old(self)@.stream_id,
    {
        self.poll();
        let ghost polled = self@;
        proof {
            use_type_invariant(&*self);
        }
        if self.blocks.len() == 0 {
            return None;
        }
        let (frames_read, is_eof) = self.read_buffered(frames);
        proof {
            use_type_invariant(&*self);
            lemma_read_bounds(polled.blocks, FileStreamView::<S>::wanted(frames as nat));
            assert(covers_frames(self@.read_buffer, frames_read as nat)) by {
                assert forall|c: int| 0 <= c < self@.read_buffer.len() implies (
                #[trigger] self@.read_buffer[c]).len() >= frames_read by {
                    assert(self@.read_buffer[c].len() == READ_BUFFER_SIZE);
                }
            }
        }
        Some(ReadData::new(&self.read_buffer, frames_read, is_eof))
    }

    /// Reads from the blocks that wait. Returns the number of frames read
    /// and whether the last block of the stream was read to its end.
    fn read_buffered(&mut self, frames: usize) -> (read: (usize, bool))
        ensures
            final(self)@ == old(self)@.after_read(frames as nat),
            read.0 == old(self)@.outcome(frames as nat).frames,
            read.1 == old(self)@.outcome(frames as nat).eof,
    {
        proof {
            use_type_invariant(&*self);
        }
        let ghost start = self@;
        let ghost want_spec = FileStreamView::<S>::wanted(frames as nat);
        let ghost total = read_blocks(start.blocks, want_spec);
        let want = if frames <= READ_BUFFER_SIZE {
            frames
        } else {
            READ_BUFFER_SIZE
        };
        let mut blocks: VecDeque<Box<DecodedBlock<S>>> = VecDeque::new();
        core::mem::swap(&mut self.blocks, &mut blocks);
        proof {
            assert(self@.blocks =~= Seq::empty());
        }
        let mut buffer: Vec<Vec<S>> = Vec::new();
        core::mem::swap(&mut self.read_buffer, &mut buffer);
        let ghost hollow = self@;
        proof {
            assert(hollow.blocks =~= Seq::empty());
            assert(hollow.read_buffer =~= Seq::empty());
            assert(blocks_view(blocks@) =~= start.blocks);
            assert(planar_view(buffer) =~= start.read_buffer);
            assert(start.blocks.skip(0) =~= start.blocks);
            assert(self@.requests =~= start.requests + released(start.blocks, 0, 0));
        }
        let mut frames_read: usize = 0;
        let ghost mut gone: int = 0;
        let ghost mut partial: bool = false;
        let mut is_eof = false;
        let mut done = false;
        proof {
            assert forall|c: int| 0 <= c < start.read_buffer.len() implies read_samples(
                start.blocks,
                want_spec,
                c,
            ) == (#[trigger] planar_view(buffer)[c]).take(0) + read_samples(
                blocks_view(blocks@),
                want_spec,
                c,
            ) by {
                assert(planar_view(buffer)[c].take(0) =~= Seq::<S>::empty());
                assert(Seq::<S>::empty() + read_samples(start.blocks, want_spec, c)
                    =~= read_samples(start.blocks, want_spec, c));
            }
        }
        while !done && frames_read < want
            invariant
                want == want_spec,
                want_spec == FileStreamView::<S>::wanted(frames as nat),
                total == read_blocks(start.blocks, want_spec),
                frames_read <= want <= READ_BUFFER_SIZE,
                self@ == (FileStreamView { requests: self@.requests, ..hollow }),
                hollow == (FileStreamView {
                    blocks: Seq::empty(),
                    read_buffer: Seq::empty(),
                    ..start
                }),
                start.wf(),
                0 <= gone <= start.blocks.len(),
                gone + blocks@.len() == start.blocks.len(),
                self@.requests == start.requests + released(start.blocks, 0, gone),
                partial ==> done && blocks@.len() > 0 && blocks_view(blocks@)[0].remaining() > 0
                    && blocks_view(blocks@).drop_first() == start.blocks.skip(gone + 1),
                !partial ==> blocks_view(blocks@) == start.blocks.skip(gone),
                forall|i: int|
                    0 <= i < blocks@.len() ==> start.holds(#[trigger] blocks_view(blocks@)[i]),
                buffer@.len() == start.read_buffer.len(),
                has_frames(planar_view(buffer), READ_BUFFER_SIZE as nat),
                forall|c: int|
                    0 <= c < start.read_buffer.len() ==> (#[trigger] planar_view(buffer)[c]).skip(
                        frames_read as int,
                    ) == start.read_buffer[c].skip(frames_read as int),
                !done ==> {
                    let rest = read_blocks(blocks_view(blocks@), (want - frames_read) as nat);
                    &&& !is_eof
                    &&& total.frames == frames_read + rest.frames
                    &&& total.eof == rest.eof
                    &&& total.blocks == rest.blocks
                    &&& forall|c: int|
                        0 <= c < start.read_buffer.len() ==> read_samples(
                            start.blocks,
                            want_spec,
                            c,
                        ) == (#[trigger] planar_view(buffer)[c]).take(frames_read as int)
                            + read_samples(blocks_view(blocks@), (want - frames_read) as nat, c)
                },
                done ==> {
                    &&& total.frames == frames_read
                    &&& total.eof == is_eof
                    &&& total.blocks == blocks_view(blocks@)
                    &&& forall|c: int|
                        0 <= c < start.read_buffer.len() ==> read_samples(
                            start.blocks,
                            want_spec,
                            c,
                        ) == (#[trigger] planar_view(buffer)[c]).take(frames_read as int)
                },
            decreases
                    blocks@.len() + if done {
                        0nat
                    } else {
                        1nat
                    },
        {
            let ghost before = blocks_view(blocks@);
            let ghost asked = self@.requests;
            let front = blocks.pop_front();
            proof {
                if before.len() > 0 {
                    assert(blocks_view(blocks@) =~= before.drop_first());
                    assert(before.drop_first() =~= start.blocks.skip(gone + 1));
                    assert forall|i: int| 0 <= i < blocks@.len() implies start.holds(
                        #[trigger] blocks_view(blocks@)[i],
                    ) by {
                        assert(blocks_view(blocks@)[i] == before[i + 1]);
                    }
                } else {
                    assert(blocks_view(blocks@) =~= before);
                }
            }
            match front {
                None => {
                    proof {
                        assert forall|c: int|
                            0 <= c < start.read_buffer.len() implies read_samples(
                            start.blocks,
                            want_spec,
                            c,
                        ) == (#[trigger] planar_view(buffer)[c]).take(frames_read as int) by {
                            assert(read_samples(before, (want - frames_read) as nat, c)
                                =~= Seq::<S>::empty());
                            assert(planar_view(buffer)[c].take(frames_read as int) + Seq::<
                                S,
                            >::empty() =~= planar_view(buffer)[c].take(frames_read as int));
                        }
                    }
                    done = true;
                },
                Some(mut block) => {
                    let ghost head = block@;
                    assert(head == before[0]);
                    assert(head == start.blocks[gone]);
                    assert(start.holds(head));
                    let available = block.remaining();
                    let taken = if available <= want - frames_read {
                        available
                    } else {
                        want - frames_read
                    };
                    let ghost buffer_before = planar_view(buffer);
                    copy_frames(&mut buffer, &block, frames_read, taken);
                    block.advance(taken);
                    proof {
                        assert forall|c: int|
                            0 <= c < start.read_buffer.len() implies (
                        #[trigger] planar_view(buffer)[c]).skip(frames_read + taken)
                            == start.read_buffer[c].skip(frames_read + taken) by {
                            assert(buffer_before[c].len() == READ_BUFFER_SIZE);
                            assert(planar_view(buffer)[c].skip(frames_read + taken)
                                =~= buffer_before[c].skip(frames_read as int).skip(taken as int));
                            assert(start.read_buffer[c].skip(frames_read + taken)
                                =~= start.read_buffer[c].skip(frames_read as int).skip(
                                taken as int,
                            ));
                        }
                        assert forall|c: int|
                            0 <= c < start.read_buffer.len() implies (
                        #[trigger] planar_view(buffer)[c]).take(frames_read + taken)
                            == buffer_before[c].take(frames_read as int) + head.samples[c].subrange(
                            head.playhead as int,
                            head.playhead + taken,
                        ) by {
                            assert(buffer_before[c].len() == READ_BUFFER_SIZE);
                            assert(planar_view(buffer)[c].take(frames_read + taken)
                                =~= buffer_before[c].take(frames_read as int)
                                + head.samples[c].subrange(
                                head.playhead as int,
                                head.playhead + taken,
                            ));
                        }
                    }
                    frames_read = frames_read + taken;
                    if taken == available {
                        let ends_stream = block.is_eof();
                        assert(block@ == head.advanced(head.remaining()));
                        self.ask(FileStreamToDecodeWorkerMessage::DisposeBlock(block));
                        proof {
                            assert(self@.requests =~= start.requests + released(
                                start.blocks,
                                0,
                                gone + 1,
                            ));
                            gone = gone + 1;
                        }
                        if ends_stream {
                            is_eof = true;
                            done = true;
                            proof {
                                assert forall|c: int|
                                    0 <= c < start.read_buffer.len() implies read_samples(
                                    start.blocks,
                                    want_spec,
                                    c,
                                ) == (#[trigger] planar_view(buffer)[c]).take(
                                    frames_read as int,
                                ) by {
                                    assert(read_samples(
                                        start.blocks,
                                        want_spec,
                                        c,
                                    ) == buffer_before[c].take((frames_read - taken) as int)
                                        + head.samples[c].subrange(
                                        head.playhead as int,
                                        head.playhead + taken,
                                    ));
                                }
                            }
                        } else {
                            proof {
                                assert forall|c: int|
                                    0 <= c < start.read_buffer.len() implies read_samples(
                                    start.blocks,
                                    want_spec,
                                    c,
                                ) == (#[trigger] planar_view(buffer)[c]).take(frames_read as int)
                                    + read_samples(
                                    blocks_view(blocks@),
                                    (want - frames_read) as nat,
                                    c,
                                ) by {
                                    let first = buffer_before[c].take(
                                        (frames_read - taken) as int,
                                    );
                                    let chunk = head.samples[c].subrange(
                                        head.playhead as int,
                                        head.playhead + taken,
                                    );
                                    let tail = read_samples(
                                        blocks_view(blocks@),
                                        (want - frames_read) as nat,
                                        c,
                                    );
                                    assert(read_samples(
                                        before,
                                        (want - (frames_read - taken)) as nat,
                                        c,
                                    ) == chunk + tail);
                                    assert(first + (chunk + tail) =~= (first + chunk) + tail);
                                }
                            }
                        }
                    } else {
                        let ghost advanced = block@;
                        blocks.push_front(block);
                        done = true;
                        proof {
                            partial = true;
                            assert(blocks_view(blocks@) =~= before.update(0, advanced));
                            assert(blocks_view(blocks@).drop_first() =~= before.drop_first());
                            assert forall|i: int| 0 <= i < blocks@.len() implies start.holds(
                                #[trigger] blocks_view(blocks@)[i],
                            ) by {
                                if i > 0 {
                                    assert(blocks_view(blocks@)[i] == before[i]);
                                }
                            }
                            assert forall|c: int|
                                0 <= c < start.read_buffer.len() implies read_samples(
                                start.blocks,
                                want_spec,
                                c,
                            ) == (#[trigger] planar_view(buffer)[c]).take(frames_read as int) by {
                                assert(read_samples(
                                    start.blocks,
                                    want_spec,
                                    c,
                                ) == buffer_before[c].take((frames_read - taken) as int)
                                    + head.samples[c].subrange(
                                    head.playhead as int,
                                    head.playhead + taken,
                                ));
                            }
                        }
                    }
                },
            }
        }
        proof {
            if !done {
                assert forall|c: int| 0 <= c < start.read_buffer.len() implies read_samples(
                    start.blocks,
                    want_spec,
                    c,
                ) == (#[trigger] planar_view(buffer)[c]).take(frames_read as int) by {
                    assert(read_samples(blocks_view(blocks@), 0, c) =~= Seq::<S>::empty());
                    assert(planar_view(buffer)[c].take(frames_read as int) + Seq::<S>::empty()
                        =~= planar_view(buffer)[c].take(frames_read as int));
                }
            }
            assert(total.blocks == blocks_view(blocks@));
        }
        let mut cleaning = true;
        while cleaning && blocks.len() > 0
            invariant
                self@ == (FileStreamView { requests: self@.requests, ..hollow }),
                start.wf(),
                0 <= gone <= start.blocks.len(),
                gone + blocks@.len() == start.blocks.len(),
                self@.requests == start.requests + released(start.blocks, 0, gone),
                partial ==> blocks@.len() > 0 && blocks_view(blocks@)[0].remaining() > 0,
                !partial ==> blocks_view(blocks@) == start.blocks.skip(gone),
                forall|i: int|
                    0 <= i < blocks@.len() ==> start.holds(#[trigger] blocks_view(blocks@)[i]),
                without_exhausted(blocks_view(blocks@), is_eof) == without_exhausted(
                    total.blocks,
                    is_eof,
                ),
                !cleaning ==> without_exhausted(blocks_view(blocks@), is_eof) == blocks_view(
                    blocks@,
                ),
            decreases
                    blocks@.len() + if cleaning {
                        1nat
                    } else {
                        0nat
                    },
        {
            let ghost before = blocks_view(blocks@);
            let head = &blocks[0];
            assert((*blocks@[0])@ == before[0]);
            let exhausted = head.remaining() == 0 && (!head.is_eof() || is_eof);
            if exhausted {
                let front = blocks.pop_front();
                proof {
                    assert(blocks_view(blocks@) =~= before.drop_first());
                    assert(before.drop_first() =~= start.blocks.skip(gone + 1));
                    assert forall|i: int| 0 <= i < blocks@.len() implies start.holds(
                        #[trigger] blocks_view(blocks@)[i],
                    ) by {
                        assert(blocks_view(blocks@)[i] == before[i + 1]);
                    }
                }
                if let Some(block) = front {
                    assert(block@ == start.blocks[gone]);
                    assert(block@ == start.blocks[gone].advanced(start.blocks[gone].remaining()));
                    self.ask(FileStreamToDecodeWorkerMessage::DisposeBlock(block));
                    proof {
                        assert(self@.requests =~= start.requests + released(
                            start.blocks,
                            0,
                            gone + 1,
                        ));
                        gone = gone + 1;
                    }
                }
            } else {
                cleaning = false;
            }
        }
        let ghost kept = blocks_view(blocks@);
        let ghost filled = planar_view(buffer);
        core::mem::swap(&mut self.read_buffer, &mut buffer);
        proof {
            assert(self@.read_buffer =~= filled);
        }
        core::mem::swap(&mut self.blocks, &mut blocks);
        let moved = scale_frames(frames_read, self.source_rate, self.target_rate);
        self.playhead = saturating_sum(self.playhead, moved);
        proof {
            self.delivered@ = start.after_read(frames as nat).delivered;
            self.reads@ = start.after_read(frames as nat).reads;
            assert(self@.blocks =~= kept);
            assert(kept == start.kept(frames as nat));
            assert(gone == start.blocks.len() - kept.len());
            assert(self@.read_buffer =~= start.after_read(frames as nat).read_buffer) by {
                assert forall|c: int| 0 <= c < start.read_buffer.len() implies (
                #[trigger] self@.read_buffer[c]) == read_samples(start.blocks, want_spec, c)
                    + start.read_buffer[c].skip(total.frames as int) by {
                    assert(filled[c] =~= filled[c].take(frames_read as int) + filled[c].skip(
                        frames_read as int,
                    ));
                }
            }
        }
        (frames_read, is_eof)
    }

    /// Gives the stream up: hands the blocks that wait and the read buffer
    /// to the worker, which frees them and stops. Returns, for proofs, all
    /// that the stream has asked of its worker.
    pub fn close(self) -> (requests: Ghost<Seq<WorkerRequestView<S>>>)
        ensures
            requests@ == self@.closing_requests(),
    {
        let ghost start = self@;
        let mut stream = self;
        stream.release_blocks();
        let FileStream { mut message_producer, read_buffer, requests, .. } = stream;
        let done = FileStreamToDecodeWorkerMessage::Done(read_buffer);
        let ghost asked = requests@.push(done@);
        let _ = ring_push(&mut message_producer, done);
        Ghost(asked)
    }
}

/// A read hands out no more frames than were asked for.
pub proof fn lemma_read_bounds<S>(blocks: Seq<BlockView<S>>, want: nat)
    ensures
        read_blocks(blocks, want).frames <= want,
    decreases blocks.len(),
{
    if want == 0 || blocks.len() == 0 {
    } else {
        let head = blocks[0];
        if head.remaining() <= want && !head.is_eof {
            lemma_read_bounds(blocks.drop_first(), (want - head.remaining()) as nat);
        }
    }
}

/// A read that is asked for frames and neither gets one nor reaches the end
/// of the stream leaves no block behind: all that waited were empty.
pub proof fn lemma_empty_read_leaves_nothing<S>(blocks: Seq<BlockView<S>>, want: nat)
    requires
        want > 0,
        read_blocks(blocks, want).frames == 0,
        !read_blocks(blocks, want).eof,
    ensures
        without_exhausted(read_blocks(blocks, want).blocks, false).len() == 0,
    decreases blocks.len(),
{
    if blocks.len() > 0 {
        lemma_empty_read_leaves_nothing(blocks.drop_first(), want);
    }
}

/// Of every channel as many samples are read as frames.
pub proof fn lemma_read_samples_len<S>(blocks: Seq<BlockView<S>>, want: nat, channel: int)
    requires
        forall|i: int|
            0 <= i < blocks.len() ==> (#[trigger] blocks[i]).wf() && 0 <= channel
                < blocks[i].samples.len(),
    ensures
        read_samples(blocks, want, channel).len() == read_blocks(blocks, want).frames,
    decreases blocks.len(),
{
    if want == 0 || blocks.len() == 0 {
    } else {
        let head = blocks[0];
        assert(head.samples[channel].len() >= head.num_frames);
        if head.remaining() <= want && !head.is_eof {
            assert forall|i: int| 0 <= i < blocks.drop_first().len() implies (
            #[trigger] blocks.drop_first()[i]).wf() && 0 <= channel
                < blocks.drop_first()[i].samples.len() by {
                assert(blocks.drop_first()[i] == blocks[i + 1]);
            }
            lemma_read_samples_len(
                blocks.drop_first(),
                (want - head.remaining()) as nat,
                channel,
            );
        }
    }
}

/// No block of an earlier epoch is read after a seek: whatever blocks have
/// come and whatever was read since, every block that waits in a stream is of
/// the epoch that the seek began, which is not the epoch before it.
pub proof fn lemma_seek_leaves_no_stale_block<S>(
    before: FileStreamView<S>,
    seek_to: usize,
    later: FileStreamView<S>,
    i: int,
)
    requires
        before.wf(),
        later.wf(),
        later.stream_id == before.after_seek(seek_to).stream_id,
        0 <= i < later.blocks.len(),
    ensures
        before.after_seek(seek_to).blocks.len() == 0,
        later.blocks[i].stream_id != before.stream_id,
        later.blocks[i].stream_id == before.stream_id + 1,
{
    assert(later.holds(later.blocks[i]));
}

/// The position never goes back but by a seek: taking the blocks that have
/// come leaves it where it is, and a read moves it forward or leaves it.
pub proof fn lemma_playhead_moves_forward<S>(
    before: FileStreamView<S>,
    polled: FileStreamView<S>,
    frames: nat,
)
    requires
        before.wf(),
        polled.polled_from(before),
    ensures
        polled.playhead == before.playhead,
        polled.after_read(frames).playhead >= before.playhead,
        polled.after_read(frames).stream_id == before.stream_id,
{
}

} // verus!
