//! Decoded blocks, and the worker that cuts a stream of decoded packets into
//! blocks of a fixed size and hands them to the file stream.
//!
//! Reading and decoding packets and converting the sample rate are done by
//! the caller; everything the worker decides between those steps is here.

use crate::ring::{ring_is_full, ring_pop, ring_push, ring_slots};
use crate::samples::{
    append_planar, covers, covers_frames, frames_between, has_frames, joined, no_frames,
    pad_planar, padded, planar_view, take_planar,
};
use vstd::prelude::*;

verus! {

/// `frames * numer / denom`, rounded to the nearest whole number, a half
/// upwards.
pub open spec fn scaled_frames(frames: nat, numer: nat, denom: nat) -> nat {
    ((2 * frames * numer + denom) / (2 * denom)) as nat
}

/// `frames * numer / denom`, rounded to the nearest whole number, a half
/// upwards, and `usize::MAX` where that is larger.
pub fn scale_frames(frames: usize, numer: u32, denom: u32) -> (scaled: usize)
    requires
        denom > 0,
    ensures
        scaled == if scaled_frames(frames as nat, numer as nat, denom as nat) <= usize::MAX {
            scaled_frames(frames as nat, numer as nat, denom as nat)
        } else {
            usize::MAX as nat
        },
{
    assert(2 * frames * numer <= 2 * usize::MAX * u32::MAX) by (nonlinear_arith)
        requires
            frames <= usize::MAX,
            numer <= u32::MAX,
    ;
    let wide: u128 = (2 * (frames as u128) * (numer as u128) + (denom as u128)) / (2 * (
    denom as u128));
    if wide > usize::MAX as u128 {
        usize::MAX
    } else {
        wide as usize
    }
}

/// One unit of decoded audio at the rate of the output device.
pub struct DecodedBlock<S> {
    samples: Vec<Vec<S>>,
    num_frames: usize,
    playhead: usize,
    is_eof: bool,
    source_rate: u32,
    target_rate: u32,
    stream_id: u32,
}

/// The mathematical value of a block.
pub struct BlockView<S> {
    /// The samples of each channel.
    pub samples: Seq<Seq<S>>,
    /// The number of frames that count.
    pub num_frames: nat,
    /// The next frame to be read.
    pub playhead: nat,
    /// Whether this is the last block of its stream.
    pub is_eof: bool,
    /// The sample rate of the file.
    pub source_rate: nat,
    /// The sample rate of the device; `target_rate / source_rate` is the
    /// resample ratio.
    pub target_rate: nat,
    /// The epoch of the stream at the time the block was decoded.
    pub stream_id: nat,
}

impl<S> BlockView<S> {
    /// The invariant of a block.
    pub open spec fn wf(self) -> bool {
        &&& self.playhead <= self.num_frames <= usize::MAX
        &&& covers_frames(self.samples, self.num_frames)
        &&& 0 < self.source_rate <= u32::MAX
        &&& 0 < self.target_rate <= u32::MAX
        &&& self.stream_id <= u32::MAX
    }

    /// The number of frames that are left to read.
    pub open spec fn remaining(self) -> nat {
        (self.num_frames - self.playhead) as nat
    }

    /// The next `frames` frames of every channel.
    pub open spec fn chunk(self, frames: nat) -> Seq<Seq<S>> {
        frames_between(self.samples, self.playhead as int, (self.playhead + frames) as int)
    }

    /// The block with `frames` more frames read.
    pub open spec fn advanced(self, frames: nat) -> Self {
        BlockView { playhead: self.playhead + frames, ..self }
    }
}

impl<S> View for DecodedBlock<S> {
    type V = BlockView<S>;

    closed spec fn view(&self) -> BlockView<S> {
        BlockView {
            samples: planar_view(self.samples),
            num_frames: self.num_frames as nat,
            playhead: self.playhead as nat,
            is_eof: self.is_eof,
            source_rate: self.source_rate as nat,
            target_rate: self.target_rate as nat,
            stream_id: self.stream_id as nat,
        }
    }
}

impl<S> DecodedBlock<S> {
    /// Every block is well formed.
    #[verifier::type_invariant]
    pub open spec fn inv(self) -> bool {
        self@.wf()
    }
}

impl<S: Copy> DecodedBlock<S> {
    /// A block that has not been read from. `None` where a channel of
    /// `samples` is shorter than `num_frames` or a sample rate is zero.
    pub fn new(
        samples: Vec<Vec<S>>,
        num_frames: usize,
        is_eof: bool,
        source_rate: u32,
        target_rate: u32,
        stream_id: u32,
    ) -> (block: Option<Self>)
        ensures
            block is Some <==> covers_frames(planar_view(samples), num_frames as nat) && source_rate
                > 0 && target_rate > 0,
            block matches Some(b) ==> b@ == (BlockView {
                samples: planar_view(samples),
                num_frames: num_frames as nat,
                playhead: 0,
                is_eof,
                source_rate: source_rate as nat,
                target_rate: target_rate as nat,
                stream_id: stream_id as nat,
            }) && b@.wf(),
    {
        if source_rate == 0 || target_rate == 0 || !covers(&samples, num_frames) {
            None
        } else {
            Some(
                DecodedBlock {
                    samples,
                    num_frames,
                    playhead: 0,
                    is_eof,
                    source_rate,
                    target_rate,
                    stream_id,
                },
            )
        }
    }

    /// The number of frames that count.
    pub fn num_frames(&self) -> (frames: usize)
        ensures
            frames == self@.num_frames,
    {
        self.num_frames
    }

    /// The next frame to be read.
    pub fn playhead(&self) -> (frame: usize)
        ensures
            frame == self@.playhead,
    {
        self.playhead
    }

    /// Whether this is the last block of its stream.
    pub fn is_eof(&self) -> (eof: bool)
        ensures
            eof == self@.is_eof,
    {
        self.is_eof
    }

    /// The epoch of the stream at the time the block was decoded.
    pub fn stream_id(&self) -> (id: u32)
        ensures
            id == self@.stream_id,
    {
        self.stream_id
    }

    /// The number of channels.
    pub fn num_channels(&self) -> (channels: usize)
        ensures
            channels == self@.samples.len(),
    {
        self.samples.len()
    }

    /// The number of frames that are left to read.
    pub fn remaining(&self) -> (frames: usize)
        ensures
            frames == self@.remaining(),
            self@.wf(),
    {
        proof {
            use_type_invariant(self);
        }
        self.num_frames - self.playhead
    }

    /// The sample of `channel` at `frame`.
    pub fn sample(&self, channel: usize, frame: usize) -> (sample: S)
        requires
            channel < self@.samples.len(),
            frame < self@.num_frames,
        ensures
            sample == self@.samples[channel as int][frame as int],
    {
        proof {
            use_type_invariant(self);
            assert(self@.samples[channel as int].len() >= self@.num_frames);
        }
        self.samples[channel][frame]
    }

    /// Moves the playhead forward by `frames`.
    pub fn advance(&mut self, frames: usize)
        requires
            frames <= old(self)@.remaining(),
        ensures
            final(self)@ == old(self)@.advanced(frames as nat),
            final(self)@.wf(),
    {
        proof {
            use_type_invariant(&*self);
        }
        self.playhead = self.playhead + frames;
    }

    /// The sample rate of the file.
    pub fn source_rate(&self) -> (rate: u32)
        ensures
            rate == self@.source_rate,
            rate > 0,
    {
        proof {
            use_type_invariant(self);
        }
        self.source_rate
    }

    /// The sample rate of the device.
    pub fn target_rate(&self) -> (rate: u32)
        ensures
            rate == self@.target_rate,
            rate > 0,
    {
        proof {
            use_type_invariant(self);
        }
        self.target_rate
    }
}

/// What the worker sends to the file stream.
pub enum DecodeWorkerToFileStreamMessage<S> {
    /// A block to be played.
    Block(Box<DecodedBlock<S>>),
}

/// What the file stream sends to the worker.
pub enum FileStreamToDecodeWorkerMessage<S> {
    /// A block that has been played, to be freed on the worker's thread.
    DisposeBlock(Box<DecodedBlock<S>>),
    /// Go on decoding at this frame of the file, under this stream id.
    Seek(usize, u32),
    /// The stream is gone; its read buffer is to be freed on the worker's
    /// thread.
    Done(Vec<Vec<S>>),
}

/// The mathematical value of a message to the worker.
pub enum WorkerRequestView<S> {
    DisposeBlock(BlockView<S>),
    Seek(usize, u32),
    Done(Seq<Seq<S>>),
}

impl<S> View for FileStreamToDecodeWorkerMessage<S> {
    type V = WorkerRequestView<S>;

    open spec fn view(&self) -> WorkerRequestView<S> {
        match self {
            FileStreamToDecodeWorkerMessage::DisposeBlock(block) => WorkerRequestView::DisposeBlock(
                (**block)@,
            ),
            FileStreamToDecodeWorkerMessage::Seek(seek_to, stream_id) => WorkerRequestView::Seek(
                *seek_to,
                *stream_id,
            ),
            FileStreamToDecodeWorkerMessage::Done(buffer) => WorkerRequestView::Done(
                planar_view(*buffer),
            ),
        }
    }
}

/// What the worker has to do after looking at its messages.
#[derive(Clone, Copy, Debug, PartialEq, Eq, Structural)]
pub enum WorkerControl {
    /// Nothing: go on decoding.
    Idle,
    /// Stop.
    Done,
    /// Move the reader to `seek_to`, then call `apply_seek` with
    /// `stream_id`.
    Seek { seek_to: usize, stream_id: u32 },
}

/// The next step of the worker's loop.
#[derive(Clone, Copy, Debug, PartialEq, Eq, Structural)]
pub enum WorkerStep {
    /// Leave the loop.
    Stop,
    /// Move the reader to `seek_to`, then call `apply_seek` with
    /// `stream_id`.
    Seek { seek_to: usize, stream_id: u32 },
    /// Sleep for a moment and ask again.
    Wait,
    /// Read the next packet and decode it.
    Decode,
}

/// The step that follows from what the messages ask and from whether the
/// worker has to wait: a message that asks for the end or for a seek comes
/// first; without one the worker waits where it must, and decodes where it
/// need not.
pub open spec fn step_spec(control: WorkerControl, wait: bool) -> WorkerStep {
    match control {
        WorkerControl::Done => WorkerStep::Stop,
        WorkerControl::Seek { seek_to, stream_id } => WorkerStep::Seek { seek_to, stream_id },
        WorkerControl::Idle => if wait {
            WorkerStep::Wait
        } else {
            WorkerStep::Decode
        },
    }
}

/// The step that follows from `control` and `wait`.
pub fn step_of(control: WorkerControl, wait: bool) -> (step: WorkerStep)
    ensures
        step == step_spec(control, wait),
{
    match control {
        WorkerControl::Done => WorkerStep::Stop,
        WorkerControl::Seek { seek_to, stream_id } => WorkerStep::Seek { seek_to, stream_id },
        WorkerControl::Idle => if wait {
            WorkerStep::Wait
        } else {
            WorkerStep::Decode
        },
    }
}

/// What a message asks of the worker; `None` for a block to be freed, which
/// asks nothing.
pub open spec fn request_control<S>(request: WorkerRequestView<S>) -> Option<WorkerControl> {
    match request {
        WorkerRequestView::DisposeBlock(_) => None,
        WorkerRequestView::Seek(seek_to, stream_id) => Some(
            WorkerControl::Seek { seek_to, stream_id },
        ),
        WorkerRequestView::Done(_) => Some(WorkerControl::Done),
    }
}

/// What a message asks of the worker; `None` for a block to be freed, which
/// asks nothing.
pub open spec fn control_spec<S>(message: FileStreamToDecodeWorkerMessage<S>) -> Option<
    WorkerControl,
> {
    request_control(message@)
}

/// What the messages `taken` ask of a worker that stops at the first that
/// asks anything: what the last of them asks, and nothing where there is none
/// or the last is a block to be freed.
pub open spec fn asked<S>(taken: Seq<WorkerRequestView<S>>) -> WorkerControl {
    if taken.len() > 0 && request_control(taken.last()) is Some {
        request_control(taken.last()).unwrap()
    } else {
        WorkerControl::Idle
    }
}

/// None of `taken` but the last asks anything of the worker.
pub open spec fn only_last_asks<S>(taken: Seq<WorkerRequestView<S>>) -> bool {
    forall|i: int| 0 <= i < taken.len() - 1 ==> request_control(#[trigger] taken[i]) is None
}

/// What `message` asks of the worker. A block or read buffer that the
/// message carries is freed here.
pub fn control_of<S>(message: FileStreamToDecodeWorkerMessage<S>) -> (control: Option<
    WorkerControl,
>)
    ensures
        control == control_spec(message),
{
    match message {
        FileStreamToDecodeWorkerMessage::DisposeBlock(_) => None,
        FileStreamToDecodeWorkerMessage::Seek(seek_to, stream_id) => Some(
            WorkerControl::Seek { seek_to, stream_id },
        ),
        FileStreamToDecodeWorkerMessage::Done(_) => Some(WorkerControl::Done),
    }
}

/// No block follows an end-of-stream block of its own stream id.
pub open spec fn ends_are_final<S>(blocks: Seq<BlockView<S>>) -> bool {
    forall|i: int, j: int|
        #![trigger blocks[i], blocks[j]]
        0 <= i < j < blocks.len() && blocks[i].is_eof ==> blocks[j].stream_id
            != blocks[i].stream_id
}

/// The state of the worker of one file.
#[verifier::reject_recursive_types(S)]
pub struct DecodeWorker<S> {
    message_producer: rtrb::Producer<DecodeWorkerToFileStreamMessage<S>>,
    message_consumer: rtrb::Consumer<FileStreamToDecodeWorkerMessage<S>>,
    input_buffer: Vec<Vec<S>>,
    block_size: usize,
    track_id: u32,
    source_rate: u32,
    target_rate: u32,
    stream_id: u32,
    is_eof: bool,
    seek_delta: usize,
    produced: Ghost<Seq<BlockView<S>>>,
    received: Ghost<Seq<WorkerRequestView<S>>>,
}

/// The mathematical value of a worker.
pub struct DecodeWorkerView<S> {
    /// The decoded frames that wait for a block to be full.
    pub input: Seq<Seq<S>>,
    /// The number of frames of the file in a block.
    pub block_size: nat,
    /// The track that is decoded.
    pub track_id: u32,
    /// The sample rate of the file.
    pub source_rate: nat,
    /// The sample rate of the device.
    pub target_rate: nat,
    /// The epoch of the stream.
    pub stream_id: nat,
    /// Whether the end-of-stream block of this epoch has been sent.
    pub is_eof: bool,
    /// The number of decoded frames still to be thrown away after a seek.
    pub seek_delta: nat,
    /// The blocks that the ring to the file stream has taken, oldest first.
    pub produced: Seq<BlockView<S>>,
    /// The messages that the worker has taken from the ring of the file
    /// stream, oldest first.
    pub received: Seq<WorkerRequestView<S>>,
}

impl<S> DecodeWorkerView<S> {
    /// The messages that the worker has taken since it was `before`.
    pub open spec fn taken_since(self, before: Self) -> Seq<WorkerRequestView<S>> {
        self.received.skip(before.received.len() as int)
    }

    /// `self` is `before` after it has looked at its messages: it has taken
    /// some, of which none but the last asks anything, and nothing else has
    /// changed.
    pub open spec fn has_looked(self, before: Self) -> bool {
        &&& before.received.is_prefix_of(self.received)
        &&& self == DecodeWorkerView { received: self.received, ..before }
        &&& only_last_asks(self.taken_since(before))
    }

    /// Whether the worker waits before it reads the next packet, given
    /// whether its ring to the file stream is full: it waits once it has
    /// sent the end-of-stream block, and while the ring has no room.
    pub open spec fn waits(self, ring_full: bool) -> bool {
        self.is_eof || ring_full
    }

    /// Whether `step` may follow `control`: it is the step that `step_spec`
    /// gives for the ring full or for the ring not full.
    pub open spec fn may_step(self, control: WorkerControl, step: WorkerStep) -> bool {
        step == step_spec(control, self.waits(true)) || step == step_spec(
            control,
            self.waits(false),
        )
    }

    /// The number of frames that wait.
    pub open spec fn buffered(self) -> nat {
        self.input[0].len()
    }

    /// Whether the two sample rates differ.
    pub open spec fn resamples(self) -> bool {
        self.source_rate != self.target_rate
    }

    /// The invariant of a worker. Its last three lines say that the stream
    /// id never goes back and that, within one stream id, the end-of-stream
    /// block is the last.
    pub open spec fn wf(self) -> bool {
        &&& self.input.len() > 0
        &&& has_frames(self.input, self.buffered())
        &&& self.buffered() <= self.block_size <= usize::MAX
        &&& 0 < self.block_size
        &&& 0 < self.source_rate <= u32::MAX
        &&& 0 < self.target_rate <= u32::MAX
        &&& self.stream_id <= u32::MAX
        &&& self.seek_delta <= usize::MAX
        &&& ends_are_final(self.produced)
        &&& forall|i: int|
            0 <= i < self.produced.len() ==> (#[trigger] self.produced[i]).stream_id
                <= self.stream_id
        &&& !self.is_eof ==> forall|i: int|
            0 <= i < self.produced.len() ==> !((#[trigger] self.produced[i]).is_eof
                && self.produced[i].stream_id == self.stream_id)
    }

    /// Whether `packet` has the shape that `accept_packet` takes: the
    /// worker's channels, all of one length, which is not above the block
    /// size.
    pub open spec fn takes(self, packet: Seq<Seq<S>>) -> bool {
        &&& packet.len() == self.input.len()
        &&& has_frames(packet, packet[0].len())
        &&& packet[0].len() <= self.block_size
    }

    /// Whether a packet of `frames` frames fills a block.
    pub open spec fn completes_block(self, frames: nat) -> bool {
        &&& frames > 0
        &&& frames >= self.seek_delta
        &&& (frames - self.seek_delta) + self.buffered() >= self.block_size
    }

    /// The frame of a packet that fills a block at which the next block
    /// begins.
    pub open spec fn cut(self) -> int {
        self.seek_delta + (self.block_size - self.buffered())
    }

    /// The input of the block that `packet` fills, where it fills one.
    pub open spec fn completed_block(self, packet: Seq<Seq<S>>) -> Option<Seq<Seq<S>>> {
        if self.completes_block(packet[0].len()) {
            Some(joined(self.input, frames_between(packet, self.seek_delta as int, self.cut())))
        } else {
            None
        }
    }

    /// The worker after `packet`. An empty packet changes nothing; a packet
    /// shorter than what is left to throw away after a seek is thrown away
    /// whole; of any other the frames after those to throw away are kept, and
    /// where they fill a block, only what follows the block stays.
    pub open spec fn after_packet(self, packet: Seq<Seq<S>>) -> Self {
        let frames = packet[0].len();
        if frames == 0 {
            self
        } else if frames < self.seek_delta {
            DecodeWorkerView { seek_delta: (self.seek_delta - frames) as nat, ..self }
        } else if self.completes_block(frames) {
            DecodeWorkerView {
                seek_delta: 0,
                input: frames_between(packet, self.cut(), frames as int),
                ..self
            }
        } else {
            DecodeWorkerView {
                seek_delta: 0,
                input: joined(
                    self.input,
                    frames_between(packet, self.seek_delta as int, frames as int),
                ),
                ..self
            }
        }
    }

    /// The worker after the end of the file: nothing waits any more.
    pub open spec fn flushed(self) -> Self {
        DecodeWorkerView { input: no_frames(self.input.len()), ..self }
    }

    /// The worker after a seek that the reader answered with `actual_ts` for
    /// the `required_ts` asked for.
    pub open spec fn after_seek(self, stream_id: nat, required_ts: nat, actual_ts: nat) -> Self {
        DecodeWorkerView {
            stream_id,
            is_eof: false,
            seek_delta: (required_ts - actual_ts) as nat,
            input: no_frames(self.input.len()),
            ..self
        }
    }

    /// The number of frames of a block that is not the last: what the
    /// resampler announced where the rates differ, the block size where they
    /// do not.
    pub open spec fn block_frames(self, output_frames_next: nat) -> nat {
        if self.resamples() {
            output_frames_next
        } else {
            self.block_size
        }
    }

    /// The number of frames of the last block, made of `residual` frames of
    /// the file: as many as they make at the device's rate, rounded to the
    /// nearest whole number.
    pub open spec fn eof_frames(self, residual: nat) -> nat {
        scaled_frames(residual, self.target_rate, self.source_rate)
    }

    /// The block that is made of `samples`.
    pub open spec fn block(self, samples: Seq<Seq<S>>, num_frames: nat, is_eof: bool) -> BlockView<
        S,
    > {
        BlockView {
            samples,
            num_frames,
            playhead: 0,
            is_eof,
            source_rate: self.source_rate,
            target_rate: self.target_rate,
            stream_id: self.stream_id,
        }
    }

    /// The worker after the ring has taken `block`.
    pub open spec fn after_block(self, block: BlockView<S>) -> Self {
        DecodeWorkerView {
            produced: self.produced.push(block),
            is_eof: self.is_eof || block.is_eof,
            ..self
        }
    }
}

impl<S> View for DecodeWorker<S> {
    type V = DecodeWorkerView<S>;

    closed spec fn view(&self) -> DecodeWorkerView<S> {
        DecodeWorkerView {
            input: planar_view(self.input_buffer),
            block_size: self.block_size as nat,
            track_id: self.track_id,
            source_rate: self.source_rate as nat,
            target_rate: self.target_rate as nat,
            stream_id: self.stream_id as nat,
            is_eof: self.is_eof,
            seek_delta: self.seek_delta as nat,
            produced: self.produced@,
            received: self.received@,
        }
    }
}

impl<S: Copy> DecodeWorker<S> {
    /// A worker for the track `track_id` of a file with `sample_rate`, to be
    /// played at `target_sample_rate`. `first_packet` holds the frames that
    /// were decoded while the file was opened; they are the first to be
    /// played.
    pub fn new(
        target_sample_rate: u32,
        num_channels: usize,
        block_size: usize,
        sample_rate: u32,
        track_id: u32,
        first_packet: Vec<Vec<S>>,
        message_producer: rtrb::Producer<DecodeWorkerToFileStreamMessage<S>>,
        message_consumer: rtrb::Consumer<FileStreamToDecodeWorkerMessage<S>>,
    ) -> (worker: Self)
        requires
            num_channels > 0,
            first_packet@.len() == num_channels,
            has_frames(planar_view(first_packet), planar_view(first_packet)[0].len()),
            planar_view(first_packet)[0].len() <= block_size,
            block_size > 0,
            sample_rate > 0,
            target_sample_rate > 0,
        ensures
            worker@ == (DecodeWorkerView {
                input: planar_view(first_packet),
                block_size: block_size as nat,
                track_id,
                source_rate: sample_rate as nat,
                target_rate: target_sample_rate as nat,
                stream_id: 0,
                is_eof: false,
                seek_delta: 0,
                produced: Seq::empty(),
                received: Seq::empty(),
            }),
            worker@.wf(),
    {
        DecodeWorker {
            message_producer,
            message_consumer,
            input_buffer: first_packet,
            block_size,
            track_id,
            source_rate: sample_rate,
            target_rate: target_sample_rate,
            stream_id: 0,
            is_eof: false,
            seek_delta: 0,
            produced: Ghost(Seq::empty()),
            received: Ghost(Seq::empty()),
        }
    }

    /// The track that is decoded.
    pub fn track_id(&self) -> (id: u32)
        ensures
            id == self@.track_id,
    {
        self.track_id
    }

    /// The number of frames of the file in a block.
    pub fn block_size(&self) -> (frames: usize)
        ensures
            frames == self@.block_size,
    {
        self.block_size
    }

    /// The epoch of the stream.
    pub fn stream_id(&self) -> (id: u32)
        ensures
            id == self@.stream_id,
    {
        self.stream_id
    }

    /// The number of channels.
    pub fn num_channels(&self) -> (channels: usize)
        ensures
            channels == self@.input.len(),
    {
        self.input_buffer.len()
    }

    /// Whether the sample rate has to be converted.
    pub fn resamples(&self) -> (differs: bool)
        ensures
            differs == self@.resamples(),
    {
        self.source_rate != self.target_rate
    }

    /// Whether a packet belongs to the track that is decoded.
    pub fn accepts_track(&self, packet_track_id: u32) -> (accepted: bool)
        ensures
            accepted == (packet_track_id == self@.track_id),
    {
        packet_track_id == self.track_id
    }

    /// Looks at the messages that wait, frees the blocks among them, and
    /// stops at the first that asks for a seek or for the end. Returns what
    /// that message asks, and `WorkerControl::Idle` where none asks
    /// anything. Nothing of the worker changes but the record of the
    /// messages taken.
    pub fn next_control(&mut self) -> (control: WorkerControl)
        ensures
            final(self)@.has_looked(old(self)@),
            control == asked(final(self)@.taken_since(old(self)@)),
    {
        let ghost before = self@;
        let mut budget: usize = ring_slots(&self.message_consumer);
        let mut found: Option<WorkerControl> = None;
        let mut waiting = true;
        proof {
            assert(self@.taken_since(before) =~= Seq::empty());
        }
        while waiting && budget > 0
            invariant
                before.received.is_prefix_of(self@.received),
                self@ == (DecodeWorkerView { received: self@.received, ..before }),
                only_last_asks(self@.taken_since(before)),
                found is None ==> forall|i: int|
                    0 <= i < self@.taken_since(before).len() ==> request_control(
                        #[trigger] self@.taken_since(before)[i],
                    ) is None,
                found matches Some(control) ==> !waiting && self@.taken_since(before).len() > 0
                    && request_control(self@.taken_since(before).last()) == Some(control),
            decreases budget,
        {
            budget -= 1;
            match ring_pop(&mut self.message_consumer) {
                None => {
                    waiting = false;
                },
                Some(message) => {
                    let ghost taken = self@.taken_since(before);
                    let ghost request = message@;
                    proof {
                        self.received@ = self.received@.push(request);
                        assert(self@.taken_since(before) =~= taken.push(request));
                    }
                    found = control_of(message);
                    if found.is_some() {
                        waiting = false;
                    }
                },
            }
        }
        match found {
            Some(control) => control,
            None => WorkerControl::Idle,
        }
    }

    /// Takes up a seek that the reader has carried out: the new stream id
    /// holds from here on, nothing waits any more, and the frames between
    /// the place the reader reached and the place asked for are still to be
    /// thrown away.
    pub fn apply_seek(&mut self, stream_id: u32, required_ts: u64, actual_ts: u64)
        requires
            old(self)@.wf(),
            stream_id > old(self)@.stream_id,
            actual_ts <= required_ts,
            required_ts - actual_ts <= usize::MAX,
        ensures
            final(self)@ == old(self)@.after_seek(
                stream_id as nat,
                required_ts as nat,
                actual_ts as nat,
            ),
            final(self)@.wf(),
    {
        self.stream_id = stream_id;
        self.is_eof = false;
        self.seek_delta = (required_ts - actual_ts) as usize;
        let _ = take_planar(&mut self.input_buffer, self.block_size);
        proof {
            assert(has_frames(self@.input, 0));
        }
    }

    /// Whether the worker has to wait before it reads the next packet: it
    /// has sent the end-of-stream block, or the ring has no room.
    pub fn must_wait(&self) -> (wait: bool)
        ensures
            self@.is_eof ==> wait,
    {
        let ring_full = ring_is_full(&self.message_producer);
        self.waits(ring_full)
    }

    /// The next step of the worker's loop: it looks at the messages that
    /// wait, and where none asks for the end or for a seek, at whether the
    /// worker has to wait. A worker that has sent the end-of-stream block of
    /// its stream id never decodes. Nothing of the worker changes but the
    /// record of the messages taken.
    pub fn next_step(&mut self) -> (step: WorkerStep)
        ensures
            final(self)@.has_looked(old(self)@),
            old(self)@.may_step(asked(final(self)@.taken_since(old(self)@)), step),
            old(self)@.is_eof ==> step != WorkerStep::Decode,
    {
        let control = self.next_control();
        let wait = match control {
            WorkerControl::Idle => self.must_wait(),
            _ => false,
        };
        step_of(control, wait)
    }

    /// Whether the worker waits before it reads the next packet, given
    /// whether its ring to the file stream is full.
    pub fn waits(&self, ring_full: bool) -> (wait: bool)
        ensures
            wait == self@.waits(ring_full),
    {
        self.is_eof || ring_full
    }

    /// Takes a decoded packet. Returns the input of a block where the packet
    /// fills one; that input is to be resampled and sent with `send_block`.
    pub fn accept_packet(&mut self, packet: &Vec<Vec<S>>) -> (full: Option<Vec<Vec<S>>>)
        requires
            old(self)@.wf(),
            old(self)@.takes(planar_view(*packet)),
        ensures
            final(self)@ == old(self)@.after_packet(planar_view(*packet)),
            final(self)@.wf(),
            match full {
                Some(input) => old(self)@.completed_block(planar_view(*packet)) == Some(
                    planar_view(input),
                ),
                None => old(self)@.completed_block(planar_view(*packet)) is None,
            },
            full matches Some(input) ==> has_frames(planar_view(input), old(self)@.block_size),
    {
        let ghost before = self@;
        let ghost given = planar_view(*packet);
        let frames = packet[0].len();
        assert(frames == given[0].len());
        if frames == 0 {
            return None;
        }
        if frames < self.seek_delta {
            self.seek_delta = self.seek_delta - frames;
            return None;
        }
        let offset = self.seek_delta;
        self.seek_delta = 0;
        let buffered = self.input_buffer[0].len();
        assert(buffered == before.input[0].len());
        if frames - offset >= self.block_size - buffered {
            let cut = offset + (self.block_size - buffered);
            append_planar(&mut self.input_buffer, packet, offset, cut);
            let full = take_planar(&mut self.input_buffer, self.block_size);
            append_planar(&mut self.input_buffer, packet, cut, frames);
            proof {
                assert(planar_view(full) =~~= joined(
                    before.input,
                    frames_between(given, offset as int, cut as int),
                ));
                assert(self@.input =~~= frames_between(given, cut as int, frames as int));
                assert(has_frames(self@.input, (frames - cut) as nat));
                assert(has_frames(planar_view(full), before.block_size)) by {
                    assert forall|c: int| 0 <= c < planar_view(full).len() implies (
                    #[trigger] planar_view(full)[c]).len() == before.block_size by {
                        assert(before.input[c].len() == buffered);
                        assert(given[c].len() == frames);
                    }
                }
            }
            Some(full)
        } else {
            append_planar(&mut self.input_buffer, packet, offset, frames);
            proof {
                assert(self@.input =~~= joined(
                    before.input,
                    frames_between(given, offset as int, frames as int),
                ));
                assert forall|c: int| 0 <= c < self@.input.len() implies (
                #[trigger] self@.input[c]).len() == buffered + (frames - offset) by {
                    assert(before.input[c].len() == buffered);
                    assert(given[c].len() == frames);
                }
            }
            None
        }
    }

    /// At the end of the file: fills what waits with `silence` to a whole
    /// block and takes it. Returns that input, which is to be resampled and
    /// sent with `send_eof_block`, and the number of frames in it that came
    /// from the file.
    pub fn flush(&mut self, silence: S) -> (flushed: (Vec<Vec<S>>, usize))
        requires
            old(self)@.wf(),
        ensures
            final(self)@ == old(self)@.flushed(),
            final(self)@.wf(),
            planar_view(flushed.0) == padded(old(self)@.input, silence, old(self)@.block_size),
            has_frames(planar_view(flushed.0), old(self)@.block_size),
            flushed.1 == old(self)@.buffered(),
    {
        let ghost before = self@;
        let residual = self.input_buffer[0].len();
        assert(residual == before.input[0].len());
        assert forall|c: int| 0 <= c < self.input_buffer@.len() implies (
        #[trigger] self.input_buffer@[c])@.len() <= self.block_size by {
            assert(before.input[c].len() == residual);
        }
        pad_planar(&mut self.input_buffer, silence, self.block_size);
        let input = take_planar(&mut self.input_buffer, self.block_size);
        proof {
            assert(has_frames(self@.input, 0));
            assert forall|c: int| 0 <= c < planar_view(input).len() implies (
            #[trigger] planar_view(input)[c]).len() == before.block_size by {
                assert(before.input[c].len() == residual);
            }
        }
        (input, residual)
    }

    /// Offers `block` to the ring. The block comes back where the ring is
    /// full.
    fn offer(&mut self, block: DecodedBlock<S>) -> (rejected: Option<Box<DecodedBlock<S>>>)
        requires
            old(self)@.wf(),
            !old(self)@.is_eof,
            block@.stream_id == old(self)@.stream_id,
        ensures
            match rejected {
                Some(returned) => returned@ == block@ && final(self)@ == old(self)@,
                None => final(self)@ == old(self)@.after_block(block@),
            },
            final(self)@.wf(),
    {
        let ghost view = block@;
        let ghost before = self@;
        let ends_stream = block.is_eof();
        let message = DecodeWorkerToFileStreamMessage::Block(Box::new(block));
        match ring_push(&mut self.message_producer, message) {
            Some(DecodeWorkerToFileStreamMessage::Block(returned)) => Some(returned),
            None => {
                if ends_stream {
                    self.is_eof = true;
                }
                proof {
                    self.produced@ = self.produced@.push(view);
                    let produced = self@.produced;
                    assert forall|i: int, j: int|
                        #![trigger produced[i], produced[j]]
                        0 <= i < j < produced.len() && produced[i].is_eof implies produced[j].stream_id
                        != produced[i].stream_id by {
                        if j < before.produced.len() {
                            assert(produced[i] == before.produced[i]);
                            assert(produced[j] == before.produced[j]);
                        } else {
                            assert(produced[i] == before.produced[i]);
                        }
                    }
                }
                None
            },
        }
    }

    /// Makes a block that is not the last of `samples` and offers it to the
    /// ring. The block has the frames that the resampler announced where the
    /// rates differ (`output_frames_next`), and a block size of frames where
    /// they do not. Nothing is sent once the end-of-stream block of this
    /// stream id has gone; the block comes back then, and also where the
    /// ring is full.
    pub fn send_block(&mut self, samples: Vec<Vec<S>>, output_frames_next: usize) -> (rejected:
        Option<Box<DecodedBlock<S>>>)
        requires
            old(self)@.wf(),
            planar_view(samples).len() == old(self)@.input.len(),
            covers_frames(
                planar_view(samples),
                old(self)@.block_frames(output_frames_next as nat),
            ),
        ensures
            final(self)@.wf(),
            old(self)@.is_eof ==> rejected is Some,
            match rejected {
                Some(returned) => final(self)@ == old(self)@ && returned@ == old(self)@.block(
                    planar_view(samples),
                    old(self)@.block_frames(output_frames_next as nat),
                    false,
                ),
                None => final(self)@ == old(self)@.after_block(
                    old(self)@.block(
                        planar_view(samples),
                        old(self)@.block_frames(output_frames_next as nat),
                        false,
                    ),
                ),
            },
    {
        let num_frames = if self.source_rate != self.target_rate {
            output_frames_next
        } else {
            self.block_size
        };
        self.send(samples, num_frames, false)
    }

    /// Makes the last block of `samples` and offers it to the ring. Of its
    /// frames those count that `residual` frames of the file make at the
    /// device's rate, rounded to the nearest whole number. Once the ring has taken it, the worker
    /// sends nothing more under this stream id.
    pub fn send_eof_block(&mut self, samples: Vec<Vec<S>>, residual: usize) -> (rejected: Option<
        Box<DecodedBlock<S>>,
    >)
        requires
            old(self)@.wf(),
            planar_view(samples).len() == old(self)@.input.len(),
            covers_frames(planar_view(samples), old(self)@.eof_frames(residual as nat)),
        ensures
            final(self)@.wf(),
            old(self)@.is_eof ==> rejected is Some,
            match rejected {
                Some(returned) => final(self)@ == old(self)@ && returned@ == old(self)@.block(
                    planar_view(samples),
                    old(self)@.eof_frames(residual as nat),
                    true,
                ),
                None => final(self)@ == old(self)@.after_block(
                    old(self)@.block(
                        planar_view(samples),
                        old(self)@.eof_frames(residual as nat),
                        true,
                    ),
                ) && final(self)@.is_eof,
            },
    {
        let num_frames = scale_frames(residual, self.target_rate, self.source_rate);
        proof {
            assert(planar_view(samples)[0].len() >= self@.eof_frames(residual as nat));
            assert(planar_view(samples)[0].len() == samples@[0].len());
        }
        self.send(samples, num_frames, true)
    }

    fn send(&mut self, samples: Vec<Vec<S>>, num_frames: usize, is_eof: bool) -> (rejected: Option<
        Box<DecodedBlock<S>>,
    >)
        requires
            old(self)@.wf(),
            covers_frames(planar_view(samples), num_frames as nat),
        ensures
            final(self)@.wf(),
            old(self)@.is_eof ==> rejected is Some,
            match rejected {
                Some(returned) => final(self)@ == old(self)@ && returned@ == old(self)@.block(
                    planar_view(samples),
                    num_frames as nat,
                    is_eof,
                ),
                None => final(self)@ == old(self)@.after_block(
                    old(self)@.block(planar_view(samples), num_frames as nat, is_eof),
                ),
            },
    {
        let block = DecodedBlock {
            samples,
            num_frames,
            playhead: 0,
            is_eof,
            source_rate: self.source_rate,
            target_rate: self.target_rate,
            stream_id: self.stream_id,
        };
        if self.is_eof {
            Some(Box::new(block))
        } else {
            self.offer(block)
        }
    }
}

/// The end-of-stream block is the last of its stream id: among the blocks
/// that the ring has taken from a worker, none that follows an end-of-stream
/// block bears the stream id of that block.
pub proof fn lemma_nothing_follows_end_of_stream<S>(worker: DecodeWorkerView<S>, i: int, j: int)
    requires
        worker.wf(),
        0 <= i < j < worker.produced.len(),
        worker.produced[i].is_eof,
    ensures
        worker.produced[j].stream_id != worker.produced[i].stream_id,
{
}

} // verus!
