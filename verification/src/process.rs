//! The audio callback: it takes the manager's messages, fills the device's
//! buffer from the current stream, and reports the position.
//!
//! The callback writes the samples as they come from the stream and returns
//! how many frames it wrote; multiplying them by the gain is left to the
//! caller, since the sample type is a parameter here.

use crate::file_stream::{
    lemma_empty_read_leaves_nothing, lemma_read_samples_len, read_samples, FileStream,
    FileStreamView, ReadData, ReadDataView, ReadRecord,
};
use crate::samples::{has_frames, joined, no_frames};
use crate::messages::{
    ManagerToProcessMsg, ManagerToProcessMsgView, ProcessToManagerMsg, StartPlaybackState,
};
use crate::ring::{ring_pop, ring_push, ring_slots};
use vstd::prelude::*;

verus! {

/// Whether the audio callback plays.
#[derive(Debug, Clone, Copy, PartialEq, Eq, Structural)]
pub enum ProcessPlaybackState {
    Paused,
    Playing,
}

#[verifier::reject_recursive_types(S)]
struct Stream<S> {
    file_stream: FileStream<S>,
    playback_id: u64,
}

/// The state of the audio callback.
#[verifier::reject_recursive_types(S)]
pub struct Process<S> {
    stream: Option<Stream<S>>,
    to_gui_tx: rtrb::Producer<ProcessToManagerMsg>,
    from_gui_rx: rtrb::Consumer<ManagerToProcessMsg<S>>,
    playback_state: ProcessPlaybackState,
    gain: S,
    silence: S,
    fatal_error: bool,
    offered: Ghost<Seq<ProcessToManagerMsg>>,
    received: Ghost<Seq<ManagerToProcessMsgView<S>>>,
}

/// The mathematical value of a stream that the callback holds.
pub struct PlayingStream<S> {
    pub file_stream: FileStreamView<S>,
    pub playback_id: u64,
}

/// The mathematical value of the audio callback.
pub struct ProcessView<S> {
    /// The stream that is played, with its playback id.
    pub stream: Option<PlayingStream<S>>,
    pub playback_state: ProcessPlaybackState,
    /// The gain that the caller applies to what `process` wrote.
    pub gain: S,
    /// The sample that stands for silence.
    pub silence: S,
    /// Whether the callback has given up for good.
    pub fatal_error: bool,
    /// The messages that were offered to the ring to the manager, oldest
    /// first.
    pub offered: Seq<ProcessToManagerMsg>,
    /// The messages that `process` has taken from the ring of the manager,
    /// oldest first.
    pub received: Seq<ManagerToProcessMsgView<S>>,
}

/// The state that a stream starts in.
pub open spec fn started_state(state: StartPlaybackState) -> ProcessPlaybackState {
    match state {
        StartPlaybackState::Playing => ProcessPlaybackState::Playing,
        StartPlaybackState::Paused => ProcessPlaybackState::Paused,
    }
}

impl<S> ProcessView<S> {
    /// The callback after a message that is not a seek.
    pub open spec fn after_control(self, message: ManagerToProcessMsgView<S>) -> Self {
        match message {
            ManagerToProcessMsgView::StartPlayback(id, stream, state) => ProcessView {
                stream: Some(PlayingStream { file_stream: stream, playback_id: id }),
                playback_state: started_state(state),
                ..self
            },
            ManagerToProcessMsgView::Stop => ProcessView {
                stream: None,
                playback_state: ProcessPlaybackState::Paused,
                ..self
            },
            ManagerToProcessMsgView::Pause => ProcessView {
                playback_state: ProcessPlaybackState::Paused,
                ..self
            },
            ManagerToProcessMsgView::Resume => ProcessView {
                playback_state: ProcessPlaybackState::Playing,
                ..self
            },
            ManagerToProcessMsgView::SetGain(gain) => ProcessView { gain, ..self },
            ManagerToProcessMsgView::SeekTo(_) => self,
        }
    }

    /// The callback after a seek to `frame` that found the stream as
    /// `polled`: the stream has moved where the worker's ring took the
    /// request (`sought`), and the position reached is reported.
    pub open spec fn after_seek(self, polled: FileStreamView<S>, frame: usize, sought: bool) -> Self {
        let id = self.stream.unwrap().playback_id;
        let stream = polled.seek_outcome(frame, sought);
        ProcessView {
            stream: Some(PlayingStream { file_stream: stream, playback_id: id }),
            offered: self.offered.push(
                ProcessToManagerMsg::PlaybackPos(id, stream.playhead as usize),
            ),
            ..self
        }
    }

    /// `self` may be what a seek to `frame` makes of `before`: the stream of
    /// `before` took the blocks that had come, moved where the worker's ring
    /// took the request, and the position reached was reported.
    pub open spec fn is_seek_of(self, before: Self, frame: usize) -> bool {
        exists|polled: FileStreamView<S>, sought: bool|
            polled.polled_from(before.stream.unwrap().file_stream) && self
                == #[trigger] before.after_seek(polled, frame, sought)
    }

    /// `self` may be what carrying out `message` makes of `before`: a seek
    /// moves the stream, where there is one, and reports the position
    /// reached; every other message has the one outcome that `after_control`
    /// gives.
    pub open spec fn is_control_of(self, before: Self, message: ManagerToProcessMsgView<S>) -> bool {
        match message {
            ManagerToProcessMsgView::SeekTo(frame) => if before.stream is Some {
                self.is_seek_of(before, frame)
            } else {
                self == before
            },
            other => self == before.after_control(other),
        }
    }

    /// `self` may be what taking `message` from the ring makes of `before`:
    /// the message is carried out and put on record.
    pub open spec fn has_taken(self, before: Self, message: ManagerToProcessMsgView<S>) -> bool {
        &&& self.received == before.received.push(message)
        &&& (ProcessView { received: before.received, ..self }).is_control_of(before, message)
    }

    /// `self` may be what taking `messages` from the ring, one after the
    /// other, makes of `before`.
    pub open spec fn is_drain_of(
        self,
        before: Self,
        messages: Seq<ManagerToProcessMsgView<S>>,
    ) -> bool
        decreases messages.len(),
    {
        if messages.len() == 0 {
            self == before
        } else {
            exists|earlier: Self|
                #![trigger self.has_taken(earlier, messages.last())]
                earlier.is_drain_of(before, messages.drop_last()) && self.has_taken(
                    earlier,
                    messages.last(),
                )
        }
    }

    /// The messages that the callback has taken since it was `before`.
    pub open spec fn taken_since(self, before: Self) -> Seq<ManagerToProcessMsgView<S>> {
        self.received.skip(before.received.len() as int)
    }

    /// `self` may be what draining the ring of the manager makes of
    /// `before`: the messages that have come on record since were carried
    /// out in their order.
    pub open spec fn has_drained(self, before: Self) -> bool {
        &&& before.received.is_prefix_of(self.received)
        &&& self.is_drain_of(before, self.taken_since(before))
    }

    /// Whether `render` plays: the callback is not paused and has a stream.
    pub open spec fn plays(self) -> bool {
        self.playback_state == ProcessPlaybackState::Playing && self.stream is Some
    }

    /// The callback after a `render` that played and left the stream as
    /// `after`: the position is reported; at the end of the stream the end
    /// is reported too, the stream is gone and the callback is paused.
    pub open spec fn rendered(self, after: FileStreamView<S>, ended: bool) -> Self {
        let id = self.stream.unwrap().playback_id;
        let position = ProcessToManagerMsg::PlaybackPos(id, after.playhead as usize);
        if ended {
            ProcessView {
                stream: None,
                playback_state: ProcessPlaybackState::Paused,
                offered: self.offered.push(position).push(ProcessToManagerMsg::PlaybackEnded(id)),
                ..self
            }
        } else {
            ProcessView {
                stream: Some(PlayingStream { file_stream: after, playback_id: id }),
                offered: self.offered.push(position),
                ..self
            }
        }
    }

    /// `self` may be what `render` makes of `before`, with `written` frames
    /// written to `data`. Where the callback plays, the frames written are
    /// those that the stream handed out meanwhile, left and right sample in
    /// turn; the stream stays in its epoch and its position does not go
    /// back. Reading goes on until `data` is full, a read has reached the
    /// end of the stream, or no block waits; the end is reported exactly
    /// where the last read of this call reached it. Where the callback does
    /// not play, nothing changes.
    pub open spec fn is_render_of(self, before: Self, data: Seq<S>, written: nat) -> bool {
        if before.plays() {
            let stream = before.stream.unwrap().file_stream;
            exists|after: FileStreamView<S>, frames: Seq<Seq<S>>, ended: bool|
                #![trigger handed_out(stream, after, frames), before.rendered(after, ended)]
                {
                    &&& handed_out(stream, after, frames)
                    &&& has_frames(frames, written)
                    &&& after.wf()
                    &&& after.stream_id == stream.stream_id
                    &&& after.playhead >= stream.playhead
                    &&& stream.reads.is_prefix_of(after.reads)
                    &&& only_last_ends(after.reads.skip(stream.reads.len() as int))
                    &&& ended == ends_stream(after.reads.skip(stream.reads.len() as int))
                    &&& written == data.len() / 2 || ended || after.blocks.len() == 0
                    &&& data.subrange(0, 2 * written as int) == interleaved(
                        frames,
                        written,
                        before.silence,
                    )
                    &&& self == before.rendered(after, ended)
                }
        } else {
            self == before && written == 0
        }
    }
}

/// Whether the last of `reads` reached the end of the stream.
pub open spec fn ends_stream(reads: Seq<ReadRecord>) -> bool {
    reads.len() > 0 && reads.last().eof
}

/// None of `reads` but the last reached the end of the stream.
pub open spec fn only_last_ends(reads: Seq<ReadRecord>) -> bool {
    forall|i: int| 0 <= i < reads.len() - 1 ==> !(#[trigger] reads[i]).eof
}

/// `frames` holds, for every channel, the samples that a stream handed out
/// between `before` and `after`.
pub open spec fn handed_out<S>(
    before: FileStreamView<S>,
    after: FileStreamView<S>,
    frames: Seq<Seq<S>>,
) -> bool {
    &&& frames.len() == before.read_buffer.len()
    &&& forall|c: int|
        0 <= c < frames.len() ==> (#[trigger] after.delivered[c]) == before.delivered[c]
            + frames[c]
}

/// The frames of a read as the device takes them: for every frame the left
/// sample, then the right. One channel goes to both sides, two channels to
/// one side each, and any other number of channels gives silence.
pub open spec fn interleaved<S>(channels: Seq<Seq<S>>, frames: nat, silence: S) -> Seq<S> {
    Seq::new(
        2 * frames,
        |i: int|
            if channels.len() == 1 {
                channels[0][i / 2]
            } else if channels.len() == 2 {
                channels[i % 2][i / 2]
            } else {
                silence
            },
    )
}

/// Writes the frames of `read` to `data` from frame `at` on, left and right
/// sample in turn.
pub fn write_interleaved<S: Copy>(read: &ReadData<'_, S>, data: &mut [S], at: usize, silence: S)
    requires
        2 * (at + read@.len) <= old(data)@.len(),
    ensures
        final(data)@ == old(data)@.subrange(0, 2 * at) + interleaved(
            read@.data,
            read@.len,
            silence,
        ) + old(data)@.subrange(2 * (at + read@.len), old(data)@.len() as int),
{
    let frames = read.num_frames();
    let channels = read.num_channels();
    let len = data.len();
    let ghost wanted = interleaved(read@.data, read@.len, silence);
    if channels == 1 {
        let mono = read.read_channel(0);
        let mut i: usize = 0;
        while i < frames
            invariant
                i <= frames,
                frames == read@.len,
                2 * (at + frames) <= len,
                len == old(data)@.len(),
                data@.len() == len,
                mono@ == read@.data[0].subrange(0, frames as int),
                mono@.len() == frames <= read@.data[0].len(),
                read@.data.len() == 1,
                wanted == interleaved(read@.data, read@.len, silence),
                data@ == old(data)@.subrange(0, 2 * at) + wanted.subrange(0, 2 * i)
                    + old(data)@.subrange(2 * (at + i), len as int),
            decreases frames - i,
        {
            let sample = mono[i];
            data[2 * (at + i)] = sample;
            data[2 * (at + i) + 1] = sample;
            assert(wanted[2 * i] == sample && wanted[2 * i + 1] == sample);
            i += 1;
            assert(data@ =~= old(data)@.subrange(0, 2 * at) + wanted.subrange(0, 2 * i)
                + old(data)@.subrange(2 * (at + i), len as int));
        }
        assert(wanted.subrange(0, 2 * frames) =~= wanted);
    } else if channels == 2 {
        let left = read.read_channel(0);
        let right = read.read_channel(1);
        let mut i: usize = 0;
        while i < frames
            invariant
                i <= frames,
                frames == read@.len,
                2 * (at + frames) <= len,
                len == old(data)@.len(),
                data@.len() == len,
                left@ == read@.data[0].subrange(0, frames as int),
                right@ == read@.data[1].subrange(0, frames as int),
                left@.len() == frames <= read@.data[0].len(),
                right@.len() == frames <= read@.data[1].len(),
                read@.data.len() == 2,
                wanted == interleaved(read@.data, read@.len, silence),
                data@ == old(data)@.subrange(0, 2 * at) + wanted.subrange(0, 2 * i)
                    + old(data)@.subrange(2 * (at + i), len as int),
            decreases frames - i,
        {
            let left_sample = left[i];
            let right_sample = right[i];
            data[2 * (at + i)] = left_sample;
            data[2 * (at + i) + 1] = right_sample;
            assert(wanted[2 * i] == left_sample && wanted[2 * i + 1] == right_sample);
            i += 1;
            assert(data@ =~= old(data)@.subrange(0, 2 * at) + wanted.subrange(0, 2 * i)
                + old(data)@.subrange(2 * (at + i), len as int));
        }
        assert(wanted.subrange(0, 2 * frames) =~= wanted);
    } else {
        let mut i: usize = 0;
        while i < 2 * frames
            invariant
                i <= 2 * frames,
                frames == read@.len,
                2 * (at + frames) <= len,
                len == old(data)@.len(),
                data@.len() == len,
                read@.data.len() != 1,
                read@.data.len() != 2,
                wanted == interleaved(read@.data, read@.len, silence),
                data@ == old(data)@.subrange(0, 2 * at) + wanted.subrange(0, i as int)
                    + old(data)@.subrange(2 * at + i, len as int),
            decreases 2 * frames - i,
        {
            data[2 * at + i] = silence;
            i += 1;
            assert(data@ =~= old(data)@.subrange(0, 2 * at) + wanted.subrange(0, i as int)
                + old(data)@.subrange(2 * at + i, len as int));
        }
        assert(wanted.subrange(0, 2 * frames) =~= wanted);
    }
}

/// Fills `data` with `value` from the sample `from` on.
pub fn silence_from<S: Copy>(data: &mut [S], from: usize, value: S)
    ensures
        final(data)@.len() == old(data)@.len(),
        forall|i: int| 0 <= i < from && i < old(data)@.len() ==> final(data)@[i] == old(data)@[i],
        forall|i: int| from <= i < old(data)@.len() ==> final(data)@[i] == value,
{
    let len = data.len();
    let mut i: usize = from;
    while i < len
        invariant
            len == old(data)@.len(),
            data@.len() == len,
            from <= i,
            forall|j: int| 0 <= j < from && j < len ==> data@[j] == old(data)@[j],
            forall|j: int| from <= j < i && j < len ==> data@[j] == value,
        decreases len - i,
    {
        data[i] = value;
        i += 1;
    }
}

impl<S> View for Process<S> {
    type V = ProcessView<S>;

    closed spec fn view(&self) -> ProcessView<S> {
        ProcessView {
            stream: match self.stream {
                Some(stream) => Some(
                    PlayingStream {
                        file_stream: stream.file_stream@,
                        playback_id: stream.playback_id,
                    },
                ),
                None => None,
            },
            playback_state: self.playback_state,
            gain: self.gain,
            silence: self.silence,
            fatal_error: self.fatal_error,
            offered: self.offered@,
            received: self.received@,
        }
    }
}

impl<S: Copy> Process<S> {
    /// A callback without a stream, paused, that posts to `to_gui_tx` and
    /// listens to `from_gui_rx`. `silence` is the sample it writes where it
    /// has nothing to play; the gain is `silence` until the manager sets
    /// one.
    pub fn new(
        to_gui_tx: rtrb::Producer<ProcessToManagerMsg>,
        from_gui_rx: rtrb::Consumer<ManagerToProcessMsg<S>>,
        silence: S,
    ) -> (process: Self)
        ensures
            process@ == (ProcessView {
                stream: None,
                playback_state: ProcessPlaybackState::Paused,
                gain: silence,
                silence,
                fatal_error: false,
                offered: Seq::empty(),
                received: Seq::empty(),
            }),
    {
        Self {
            stream: None,
            to_gui_tx,
            from_gui_rx,
            playback_state: ProcessPlaybackState::Paused,
            gain: silence,
            silence,
            fatal_error: false,
            offered: Ghost(Seq::empty()),
            received: Ghost(Seq::empty()),
        }
    }

    /// The gain that the caller applies to the frames that `process` wrote.
    pub fn gain(&self) -> (gain: S)
        ensures
            gain == self@.gain,
    {
        self.gain
    }

    /// Whether the callback plays.
    pub fn playback_state(&self) -> (state: ProcessPlaybackState)
        ensures
            state == self@.playback_state,
    {
        self.playback_state
    }

    /// The playback id of the stream, where there is one.
    pub fn playback_id(&self) -> (id: Option<u64>)
        ensures
            id == match self@.stream {
                Some(stream) => Some(stream.playback_id),
                None => None,
            },
    {
        match &self.stream {
            Some(stream) => Some(stream.playback_id),
            None => None,
        }
    }

    /// Makes the callback write silence from here on, whatever arrives.
    pub fn set_fatal_error(&mut self)
        ensures
            final(self)@ == (ProcessView { fatal_error: true, ..old(self)@ }),
    {
        self.fatal_error = true;
    }

    /// Offers `message` to the ring to the manager.
    fn post(&mut self, message: ProcessToManagerMsg)
        ensures
            final(self)@ == (ProcessView {
                offered: old(self)@.offered.push(message),
                ..old(self)@
            }),
    {
        let _ = ring_push(&mut self.to_gui_tx, message);
        proof {
            self.offered@ = self.offered@.push(message);
        }
    }

    /// Gives up the stream, if there is one.
    fn drop_stream(&mut self)
        ensures
            final(self)@ == (ProcessView { stream: None, ..old(self)@ }),
    {
        let mut stream: Option<Stream<S>> = None;
        core::mem::swap(&mut self.stream, &mut stream);
        if let Some(Stream { file_stream, .. }) = stream {
            file_stream.close();
        }
    }

    /// Carries out a message of the manager. A stream that is replaced or
    /// stopped is given up; a seek moves the stream, where there is one, and
    /// reports the position reached.
    pub fn apply_control(&mut self, message: ManagerToProcessMsg<S>)
        ensures
            final(self)@.is_control_of(old(self)@, message@),
    {
        let ghost before = self@;
        let ghost asked = message@;
        match message {
            ManagerToProcessMsg::StartPlayback(playback_id, file_stream, start_playback_state) => {
                self.drop_stream();
                self.stream = Some(Stream { file_stream, playback_id });
                self.playback_state = match start_playback_state {
                    StartPlaybackState::Playing => ProcessPlaybackState::Playing,
                    StartPlaybackState::Paused => ProcessPlaybackState::Paused,
                };
                assert(self@ == before.after_control(asked));
            },
            ManagerToProcessMsg::Stop => {
                self.drop_stream();
                self.playback_state = ProcessPlaybackState::Paused;
                assert(self@ == before.after_control(asked));
            },
            ManagerToProcessMsg::Pause => {
                self.playback_state = ProcessPlaybackState::Paused;
                assert(self@ == before.after_control(asked));
            },
            ManagerToProcessMsg::Resume => {
                self.playback_state = ProcessPlaybackState::Playing;
                assert(self@ == before.after_control(asked));
            },
            ManagerToProcessMsg::SeekTo(frame) => {
                let mut taken: Option<Stream<S>> = None;
                core::mem::swap(&mut self.stream, &mut taken);
                match taken {
                    Some(mut stream) => {
                        let ghost stream_before = stream.file_stream@;
                        let sought = stream.file_stream.seek(frame);
                        let position = stream.file_stream.playhead();
                        let playback_id = stream.playback_id;
                        let ghost stream_after = stream.file_stream@;
                        self.stream = Some(stream);
                        self.post(ProcessToManagerMsg::PlaybackPos(playback_id, position));
                        proof {
                            let polled = choose|polled: FileStreamView<S>|
                                polled.polled_from(stream_before) && stream_after
                                    == #[trigger] polled.seek_outcome(frame, sought);
                            assert(polled.polled_from(before.stream.unwrap().file_stream));
                            assert(self@ == before.after_seek(polled, frame, sought));
                            assert(self@.is_seek_of(before, frame));
                        }
                    },
                    None => {
                        assert(self@ == before);
                    },
                }
            },
            ManagerToProcessMsg::SetGain(gain) => {
                self.gain = gain;
                assert(self@ == before.after_control(asked));
            },
        }
    }

    /// Carries out the messages of the manager that wait: each is taken
    /// from the ring, put on record and carried out, in the order in which
    /// they came.
    fn drain_controls(&mut self)
        ensures
            final(self)@.has_drained(old(self)@),
            final(self)@.silence == old(self)@.silence,
            final(self)@.fatal_error == old(self)@.fatal_error,
    {
        let ghost before = self@;
        let mut budget: usize = ring_slots(&self.from_gui_rx);
        let mut waiting = true;
        proof {
            assert(self@.taken_since(before) =~= Seq::empty());
        }
        while waiting && budget > 0
            invariant
                self@.has_drained(before),
                self@.silence == before.silence,
                self@.fatal_error == before.fatal_error,
            decreases budget,
        {
            budget -= 1;
            match ring_pop(&mut self.from_gui_rx) {
                None => {
                    waiting = false;
                },
                Some(message) => {
                    let ghost earlier = self@;
                    let ghost taken = self@.taken_since(before);
                    let ghost request = message@;
                    self.apply_control(message);
                    proof {
                        self.received@ = self.received@.push(request);
                        let messages = self@.taken_since(before);
                        assert(messages =~= taken.push(request));
                        assert(messages.drop_last() =~= taken);
                        assert(messages.last() == request);
                        assert(self@.has_taken(earlier, messages.last()));
                        assert(self@.is_drain_of(before, messages));
                    }
                },
            }
        }
    }

    /// Fills `data` from the stream. Where the callback plays, frames are
    /// read until `data` is full, the stream has nothing ready or its end is
    /// reached; the rest of `data` is silence. The position is reported, and
    /// at the end of the stream the end is reported too, the stream is given
    /// up and the callback pauses. Where the callback does not play, all of
    /// `data` is silence. Returns the number of frames written from the
    /// stream.
    pub fn render(&mut self, data: &mut [S]) -> (written: usize)
        ensures
            final(data)@.len() == old(data)@.len(),
            2 * written <= old(data)@.len(),
            forall|i: int| 2 * written <= i < old(data)@.len() ==> final(data)@[i] == old(self)@.silence,
            final(self)@.is_render_of(old(self)@, final(data)@, written as nat),
    {
        let silence = self.silence;
        let playing = match self.playback_state {
            ProcessPlaybackState::Playing => true,
            ProcessPlaybackState::Paused => false,
        };
        let ghost before = self@;
        let mut taken: Option<Stream<S>> = None;
        if playing {
            core::mem::swap(&mut self.stream, &mut taken);
        }
        match taken {
            None => {
                silence_from(data, 0, silence);
                0
            },
            Some(mut stream) => {
                let ghost stream_before = stream.file_stream@;
                let ghost channels = stream_before.read_buffer.len();
                let ghost mut frames: Seq<Seq<S>> = no_frames(channels);
                let total = data.len() / 2;
                let mut written: usize = 0;
                let mut reached_end_of_file = false;
                let mut filling = true;
                proof {
                    use_type_invariant(&stream.file_stream);
                    assert forall|c: int| 0 <= c < frames.len() implies (
                    #[trigger] stream_before.delivered[c]) == stream_before.delivered[c]
                        + frames[c] by {
                        assert(stream_before.delivered[c] + Seq::<S>::empty()
                            =~= stream_before.delivered[c]);
                    }
                    assert(data@.subrange(0, 0) =~= interleaved(frames, 0, silence));
                    assert(stream_before.reads.skip(stream_before.reads.len() as int)
                        =~= Seq::empty());
                }
                while filling && written < total
                    invariant
                        stream_before.reads.is_prefix_of(stream.file_stream@.reads),
                        reached_end_of_file == ends_stream(
                            stream.file_stream@.reads.skip(stream_before.reads.len() as int),
                        ),
                        only_last_ends(
                            stream.file_stream@.reads.skip(stream_before.reads.len() as int),
                        ),
                        !filling ==> written == total || reached_end_of_file
                            || stream.file_stream@.blocks.len() == 0,
                        written <= total,
                        total == old(data)@.len() / 2,
                        data@.len() == old(data)@.len(),
                        stream.playback_id == before.stream.unwrap().playback_id,
                        stream.file_stream@.wf(),
                        stream.file_stream@.stream_id == stream_before.stream_id,
                        stream.file_stream@.playhead >= stream_before.playhead,
                        stream.file_stream@.read_buffer.len() == channels,
                        channels == stream_before.read_buffer.len(),
                        handed_out(stream_before, stream.file_stream@, frames),
                        has_frames(frames, written as nat),
                        data@.subrange(0, 2 * written) == interleaved(
                            frames,
                            written as nat,
                            silence,
                        ),
                        reached_end_of_file ==> !filling,
                    decreases
                            total - written + if filling {
                                1nat
                            } else {
                                0nat
                            },
                {
                    let ghost asked = stream.file_stream@;
                    if !stream.file_stream.is_ready() {
                        filling = false;
                    } else {
                        let ghost ready = stream.file_stream@;
                        let ghost wanted = (total - written) as nat;
                        match stream.file_stream.read(total - written) {
                            None => {
                                filling = false;
                                proof {
                                    assert(stream.file_stream@.is_read_of(ready, wanted, None));
                                    let polled = choose|polled: FileStreamView<S>|
                                        #![trigger polled.polled_from(ready)]
                                        polled.polled_from(ready) && polled.blocks.len() == 0
                                            && stream.file_stream@ == polled;
                                }
                            },
                            Some(read_data) => {
                                let chunk_frames = read_data.num_frames();
                                let reached = read_data.reached_end_of_file();
                                let ghost read_view = read_data@;
                                let ghost data_before = data@;
                                write_interleaved(&read_data, data, written, silence);
                                proof {
                                    let after = stream.file_stream@;
                                    assert(after.is_read_of(ready, wanted, Some(read_view)));
                                    let polled = choose|polled: FileStreamView<S>|
                                        #![trigger polled.polled_from(ready)]
                                        polled.polled_from(ready) && polled.blocks.len() > 0
                                            && after == polled.after_read(wanted) && read_view
                                            == (ReadDataView {
                                            data: after.read_buffer,
                                            len: polled.outcome(wanted).frames,
                                            reached_end_of_file: polled.outcome(wanted).eof,
                                        });
                                    let want = FileStreamView::<S>::wanted(wanted);
                                    let earlier = asked.reads.skip(
                                        stream_before.reads.len() as int,
                                    );
                                    let record = ReadRecord {
                                        frames: chunk_frames as nat,
                                        eof: reached,
                                    };
                                    assert(after.reads.skip(stream_before.reads.len() as int)
                                        =~= earlier.push(record));
                                    assert forall|i: int| 0 <= i < earlier.len() implies !(
                                    #[trigger] earlier[i]).eof by {
                                        if i == earlier.len() - 1 {
                                            assert(!ends_stream(earlier));
                                        }
                                    }
                                    if chunk_frames == 0 && !reached {
                                        lemma_empty_read_leaves_nothing(polled.blocks, want);
                                    }
                                    let chunk = Seq::new(
                                        channels,
                                        |c: int| read_samples(polled.blocks, want, c),
                                    );
                                    assert forall|c: int| 0 <= c < channels implies (
                                    #[trigger] chunk[c]).len() == chunk_frames
                                        <= read_view.data[c].len() && read_view.data[c].take(
                                        chunk_frames as int,
                                    ) == chunk[c] by {
                                        assert(after.read_buffer[c].len()
                                            == crate::file_stream::READ_BUFFER_SIZE);
                                        assert forall|i: int|
                                            0 <= i < polled.blocks.len() implies (
                                        #[trigger] polled.blocks[i]).wf() && c
                                            < polled.blocks[i].samples.len() by {
                                            assert(polled.holds(polled.blocks[i]));
                                        }
                                        lemma_read_samples_len(polled.blocks, want, c);
                                        assert(read_view.data[c].take(chunk_frames as int)
                                            =~= chunk[c]);
                                    }
                                    let joined_frames = joined(frames, chunk);
                                    lemma_interleaved_take(
                                        read_view.data,
                                        chunk,
                                        chunk_frames as nat,
                                        silence,
                                    );
                                    lemma_interleaved_joined(
                                        frames,
                                        chunk,
                                        written as nat,
                                        chunk_frames as nat,
                                        silence,
                                    );
                                    assert(data@.subrange(0, 2 * (written + chunk_frames))
                                        =~= data_before.subrange(0, 2 * written) + interleaved(
                                        read_view.data,
                                        chunk_frames as nat,
                                        silence,
                                    ));
                                    assert forall|c: int|
                                        0 <= c < joined_frames.len() implies (
                                    #[trigger] after.delivered[c])
                                        == stream_before.delivered[c] + joined_frames[c] by {
                                        assert(asked.delivered[c] == stream_before.delivered[c]
                                            + frames[c]);
                                        assert(after.delivered[c] == asked.delivered[c]
                                            + chunk[c]);
                                        assert((stream_before.delivered[c] + frames[c])
                                            + chunk[c] =~= stream_before.delivered[c] + (
                                        frames[c] + chunk[c]));
                                    }
                                    assert forall|c: int|
                                        0 <= c < joined_frames.len() implies (
                                    #[trigger] joined_frames[c]).len() == written
                                        + chunk_frames by {
                                        assert(frames[c].len() == written);
                                        assert(chunk[c].len() == chunk_frames);
                                    }
                                    frames = joined_frames;
                                }
                                written = written + chunk_frames;
                                if reached {
                                    reached_end_of_file = true;
                                    filling = false;
                                } else if chunk_frames == 0 {
                                    filling = false;
                                }
                            },
                        }
                    }
                }
                let ghost filled = data@;
                silence_from(data, 2 * written, silence);
                let position = stream.file_stream.playhead();
                let playback_id = stream.playback_id;
                let ghost stream_after = stream.file_stream@;
                self.post(ProcessToManagerMsg::PlaybackPos(playback_id, position));
                if reached_end_of_file {
                    self.post(ProcessToManagerMsg::PlaybackEnded(playback_id));
                    let Stream { file_stream, .. } = stream;
                    file_stream.close();
                    self.playback_state = ProcessPlaybackState::Paused;
                } else {
                    self.stream = Some(stream);
                }
                proof {
                    assert(data@.subrange(0, 2 * written) =~= filled.subrange(0, 2 * written));
                    assert(self@ == before.rendered(stream_after, reached_end_of_file));
                    assert(handed_out(stream_before, stream_after, frames));
                }
                written
            },
        }
    }

    /// One call of the device: carries out the messages of the manager that
    /// wait, then fills `data` as `render` does. After `set_fatal_error`
    /// nothing is carried out and all of `data` is silence. Returns the
    /// number of frames written from the stream.
    pub fn process(&mut self, data: &mut [S]) -> (written: usize)
        ensures
            final(data)@.len() == old(data)@.len(),
            2 * written <= old(data)@.len(),
            forall|i: int| 2 * written <= i < old(data)@.len() ==> final(data)@[i] == old(self)@.silence,
            final(self)@.silence == old(self)@.silence,
            final(self)@.fatal_error == old(self)@.fatal_error,
            old(self)@.fatal_error ==> written == 0 && final(self)@ == old(self)@,
            !old(self)@.fatal_error ==> exists|drained: ProcessView<S>|
                #![trigger final(self)@.is_render_of(drained, final(data)@, written as nat)]
                drained.has_drained(old(self)@) && final(self)@.is_render_of(
                    drained,
                    final(data)@,
                    written as nat,
                ),
    {
        if self.fatal_error {
            silence_from(data, 0, self.silence);
            return 0;
        }
        self.drain_controls();
        let ghost drained = self@;
        let written = self.render(data);
        proof {
            assert(self@.is_render_of(drained, data@, written as nat));
        }
        written
    }
}

/// The interleaving of a read depends only on the frames that the read
/// counts.
pub proof fn lemma_interleaved_take<S>(
    data: Seq<Seq<S>>,
    chunk: Seq<Seq<S>>,
    frames: nat,
    silence: S,
)
    requires
        data.len() == chunk.len(),
        forall|c: int|
            0 <= c < chunk.len() ==> (#[trigger] chunk[c]).len() == frames <= data[c].len()
                && data[c].take(frames as int) == chunk[c],
    ensures
        interleaved(data, frames, silence) == interleaved(chunk, frames, silence),
{
    assert forall|i: int| 0 <= i < 2 * frames implies interleaved(data, frames, silence)[i]
        == interleaved(chunk, frames, silence)[i] by {
        if chunk.len() == 1 {
            assert(data[0].take(frames as int)[i / 2] == chunk[0][i / 2]);
        } else if chunk.len() == 2 {
            assert(data[i % 2].take(frames as int)[i / 2] == chunk[i % 2][i / 2]);
        }
    }
    assert(interleaved(data, frames, silence) =~= interleaved(chunk, frames, silence));
}

/// Interleaving frames one after the other is interleaving them joined.
pub proof fn lemma_interleaved_joined<S>(
    first: Seq<Seq<S>>,
    second: Seq<Seq<S>>,
    first_frames: nat,
    second_frames: nat,
    silence: S,
)
    requires
        first.len() == second.len(),
        has_frames(first, first_frames),
        has_frames(second, second_frames),
    ensures
        interleaved(first, first_frames, silence) + interleaved(second, second_frames, silence)
            == interleaved(joined(first, second), first_frames + second_frames, silence),
{
    let whole = interleaved(joined(first, second), first_frames + second_frames, silence);
    let parts = interleaved(first, first_frames, silence) + interleaved(
        second,
        second_frames,
        silence,
    );
    assert forall|i: int| 0 <= i < 2 * (first_frames + second_frames) implies whole[i]
        == parts[i] by {
        if first.len() == 1 {
            assert(first[0].len() == first_frames);
            assert(second[0].len() == second_frames);
        } else if first.len() == 2 {
            assert(first[i % 2].len() == first_frames);
            assert(second[i % 2].len() == second_frames);
            if i >= 2 * first_frames {
                assert((i - 2 * first_frames) % 2 == i % 2);
                assert((i - 2 * first_frames) / 2 == i / 2 - first_frames);
            }
        }
    }
    assert(whole =~= parts);
}

/// A seek that the worker's ring took reports the position sought: the last
/// message offered to the manager is that position under the stream's
/// playback id, and the stream has begun a new epoch there.
pub proof fn lemma_seek_reports_the_position_sought<S>(
    before: ProcessView<S>,
    polled: FileStreamView<S>,
    frame: usize,
)
    requires
        before.stream is Some,
        polled.polled_from(before.stream.unwrap().file_stream),
    ensures
        before.after_seek(polled, frame, true).offered.last() == ProcessToManagerMsg::PlaybackPos(
            before.stream.unwrap().playback_id,
            frame,
        ),
        before.after_seek(polled, frame, true).stream.unwrap().file_stream.playhead == frame,
        before.after_seek(polled, frame, true).stream.unwrap().file_stream.stream_id
            == before.stream.unwrap().file_stream.stream_id + 1,
        before.after_seek(polled, frame, true).stream.unwrap().file_stream.blocks.len() == 0,
{
}

} // verus!
