use directory_player::process::{silence_from, write_interleaved};
use directory_player::ring::{MANAGER_TO_PROCESS_CAPACITY, PROCESS_TO_MANAGER_CAPACITY};
use directory_player::{
    DecodeWorker, FileStream, FileStreamMetadata, ManagerToProcessMsg, OpenedTrack, Process,
    ProcessPlaybackState, ProcessToManagerMsg, ReadData, StartPlaybackState, WorkerControl,
};
use rtrb::{Consumer, Producer, RingBuffer};

fn ramp(channels: usize, from: usize, frames: usize) -> Vec<Vec<f32>> {
    (0..channels)
        .map(|c| (from..from + frames).map(|i| (c * 100_000 + i + 1) as f32).collect())
        .collect()
}

fn open(channels: usize) -> (FileStream<f32>, DecodeWorker<f32>) {
    let track = OpenedTrack {
        track_id: 0,
        n_frames: None,
        sample_rate: 44101,
        capacity: 1024,
        first_packet: ramp(channels, 0, 0),
        metadata: FileStreamMetadata { time_base: None, preferred_metadata: None },
    };
    FileStream::open(track, 44100, 0.0)
}

fn send(worker: &mut DecodeWorker<f32>, from: usize, frames: usize) {
    let mut samples = ramp(worker.num_channels(), from, frames);
    for channel in samples.iter_mut() {
        channel.resize(1024, -1.0);
    }
    assert!(worker.send_block(samples, frames).is_none());
}

struct Rig {
    process: Process<f32>,
    to_process: Producer<ManagerToProcessMsg<f32>>,
    from_process: Consumer<ProcessToManagerMsg>,
}

fn rig() -> Rig {
    let (to_manager, from_process) = RingBuffer::new(PROCESS_TO_MANAGER_CAPACITY);
    let (to_process, from_manager) = RingBuffer::new(MANAGER_TO_PROCESS_CAPACITY);
    Rig { process: Process::new(to_manager, from_manager, 0.0), to_process, from_process }
}

fn tell(rig: &mut Rig, message: ManagerToProcessMsg<f32>) {
    assert!(rig.to_process.push(message).is_ok());
}

fn reports(rig: &mut Rig) -> Vec<ProcessToManagerMsg> {
    let mut all = Vec::new();
    while let Ok(message) = rig.from_process.pop() {
        all.push(message);
    }
    all
}

#[test]
fn ring_capacities() {
    assert_eq!(MANAGER_TO_PROCESS_CAPACITY, 64);
    assert_eq!(PROCESS_TO_MANAGER_CAPACITY, 256);
    assert_eq!(directory_player::ring::MESSAGE_BUFFER_SIZE, 16384);
}

#[test]
fn a_new_process_is_paused_and_silent() {
    let mut rig = rig();
    assert_eq!(rig.process.playback_state(), ProcessPlaybackState::Paused);
    assert_eq!(rig.process.playback_id(), None);
    assert_eq!(rig.process.gain(), 0.0);
    let mut data = vec![5.0f32; 64];
    assert_eq!(rig.process.process(&mut data), 0);
    assert!(data.iter().all(|s| *s == 0.0));
    assert!(reports(&mut rig).is_empty());
}

#[test]
fn stereo_is_copied_and_the_rest_is_silence() {
    let mut rig = rig();
    let (stream, mut worker) = open(2);
    send(&mut worker, 0, 10);
    tell(&mut rig, ManagerToProcessMsg::StartPlayback(4, stream, StartPlaybackState::Playing));
    let mut data = vec![5.0f32; 32];
    assert_eq!(rig.process.process(&mut data), 10);
    for i in 0..10 {
        assert_eq!(data[2 * i], (i + 1) as f32);
        assert_eq!(data[2 * i + 1], (100_000 + i + 1) as f32);
    }
    assert!(data[20..].iter().all(|s| *s == 0.0));
    assert_eq!(rig.process.playback_id(), Some(4));
    assert_eq!(reports(&mut rig), vec![ProcessToManagerMsg::PlaybackPos(4, 10)]);
}

#[test]
fn mono_goes_to_both_sides() {
    let mut rig = rig();
    let (stream, mut worker) = open(1);
    send(&mut worker, 0, 100);
    tell(&mut rig, ManagerToProcessMsg::StartPlayback(1, stream, StartPlaybackState::Playing));
    let mut data = vec![5.0f32; 16];
    assert_eq!(rig.process.process(&mut data), 8);
    for i in 0..8 {
        assert_eq!(data[2 * i], (i + 1) as f32);
        assert_eq!(data[2 * i + 1], (i + 1) as f32);
    }
    assert_eq!(reports(&mut rig), vec![ProcessToManagerMsg::PlaybackPos(1, 8)]);
    assert_eq!(rig.process.process(&mut data), 8);
    assert_eq!(data[0], 9.0);
    assert_eq!(reports(&mut rig), vec![ProcessToManagerMsg::PlaybackPos(1, 16)]);
}

#[test]
fn more_than_two_channels_give_silence() {
    let mut rig = rig();
    let (stream, mut worker) = open(3);
    send(&mut worker, 0, 4);
    tell(&mut rig, ManagerToProcessMsg::StartPlayback(1, stream, StartPlaybackState::Playing));
    let mut data = vec![5.0f32; 16];
    assert_eq!(rig.process.process(&mut data), 4);
    assert!(data.iter().all(|s| *s == 0.0));
}

#[test]
fn several_blocks_fill_one_buffer() {
    let mut rig = rig();
    let (stream, mut worker) = open(1);
    send(&mut worker, 0, 3);
    send(&mut worker, 3, 3);
    send(&mut worker, 6, 3);
    tell(&mut rig, ManagerToProcessMsg::StartPlayback(1, stream, StartPlaybackState::Playing));
    let mut data = vec![5.0f32; 16];
    assert_eq!(rig.process.process(&mut data), 8);
    assert_eq!(data, vec![1., 1., 2., 2., 3., 3., 4., 4., 5., 5., 6., 6., 7., 7., 8., 8.]);
}

#[test]
fn a_paused_stream_is_silent_and_reports_nothing() {
    let mut rig = rig();
    let (stream, mut worker) = open(2);
    send(&mut worker, 0, 10);
    tell(&mut rig, ManagerToProcessMsg::StartPlayback(4, stream, StartPlaybackState::Paused));
    let mut data = vec![5.0f32; 8];
    assert_eq!(rig.process.process(&mut data), 0);
    assert!(data.iter().all(|s| *s == 0.0));
    assert_eq!(rig.process.playback_state(), ProcessPlaybackState::Paused);
    assert!(reports(&mut rig).is_empty());
    tell(&mut rig, ManagerToProcessMsg::Resume);
    assert_eq!(rig.process.process(&mut data), 4);
    assert_eq!(data[0], 1.0);
    tell(&mut rig, ManagerToProcessMsg::Pause);
    assert_eq!(rig.process.process(&mut data), 0);
    assert!(data.iter().all(|s| *s == 0.0));
}

#[test]
fn the_end_of_the_stream_is_reported_once() {
    let mut rig = rig();
    let (stream, mut worker) = open(1);
    send(&mut worker, 0, 4);
    let mut last = ramp(1, 4, 2);
    last[0].resize(1024, 0.0);
    assert!(worker.send_eof_block(last, 2).is_none());
    tell(&mut rig, ManagerToProcessMsg::StartPlayback(9, stream, StartPlaybackState::Playing));
    let mut data = vec![5.0f32; 16];
    assert_eq!(rig.process.process(&mut data), 6);
    assert_eq!(data[..12], [1., 1., 2., 2., 3., 3., 4., 4., 5., 5., 6., 6.]);
    assert!(data[12..].iter().all(|s| *s == 0.0));
    assert_eq!(
        reports(&mut rig),
        vec![ProcessToManagerMsg::PlaybackPos(9, 6), ProcessToManagerMsg::PlaybackEnded(9)]
    );
    assert_eq!(rig.process.playback_state(), ProcessPlaybackState::Paused);
    assert_eq!(rig.process.playback_id(), None);
    assert_eq!(worker.next_control(), WorkerControl::Done);
    let mut data = vec![5.0f32; 16];
    assert_eq!(rig.process.process(&mut data), 0);
    assert!(data.iter().all(|s| *s == 0.0));
    assert!(reports(&mut rig).is_empty());
}

#[test]
fn stop_gives_up_the_stream() {
    let mut rig = rig();
    let (stream, mut worker) = open(1);
    send(&mut worker, 0, 4);
    tell(&mut rig, ManagerToProcessMsg::StartPlayback(9, stream, StartPlaybackState::Playing));
    tell(&mut rig, ManagerToProcessMsg::Stop);
    let mut data = vec![5.0f32; 4];
    assert_eq!(rig.process.process(&mut data), 0);
    assert!(data.iter().all(|s| *s == 0.0));
    assert_eq!(rig.process.playback_id(), None);
    assert_eq!(rig.process.playback_state(), ProcessPlaybackState::Paused);
    assert_eq!(worker.next_control(), WorkerControl::Done);
}

#[test]
fn a_new_stream_replaces_the_old_one() {
    let mut rig = rig();
    let (first, mut first_worker) = open(1);
    let (second, mut second_worker) = open(1);
    send(&mut first_worker, 0, 4);
    send(&mut second_worker, 100, 4);
    tell(&mut rig, ManagerToProcessMsg::StartPlayback(1, first, StartPlaybackState::Playing));
    tell(&mut rig, ManagerToProcessMsg::StartPlayback(2, second, StartPlaybackState::Playing));
    let mut data = vec![5.0f32; 4];
    assert_eq!(rig.process.process(&mut data), 2);
    assert_eq!(data, vec![101., 101., 102., 102.]);
    assert_eq!(reports(&mut rig), vec![ProcessToManagerMsg::PlaybackPos(2, 2)]);
    assert_eq!(first_worker.next_control(), WorkerControl::Done);
    assert_eq!(second_worker.next_control(), WorkerControl::Idle);
}

#[test]
fn a_seek_is_passed_on_and_the_position_reported() {
    let mut rig = rig();
    let (stream, mut worker) = open(1);
    send(&mut worker, 0, 4);
    tell(&mut rig, ManagerToProcessMsg::StartPlayback(3, stream, StartPlaybackState::Playing));
    tell(&mut rig, ManagerToProcessMsg::SeekTo(5000));
    let mut data = vec![5.0f32; 4];
    assert_eq!(rig.process.process(&mut data), 0);
    assert!(data.iter().all(|s| *s == 0.0));
    assert_eq!(
        reports(&mut rig),
        vec![ProcessToManagerMsg::PlaybackPos(3, 5000), ProcessToManagerMsg::PlaybackPos(3, 5000)]
    );
    assert_eq!(worker.next_control(), WorkerControl::Seek { seek_to: 5000, stream_id: 1 });
}

#[test]
fn a_seek_without_a_stream_does_nothing() {
    let mut rig = rig();
    tell(&mut rig, ManagerToProcessMsg::SeekTo(5000));
    let mut data = vec![5.0f32; 4];
    assert_eq!(rig.process.process(&mut data), 0);
    assert!(reports(&mut rig).is_empty());
}

#[test]
fn the_gain_is_kept_for_the_caller() {
    let mut rig = rig();
    tell(&mut rig, ManagerToProcessMsg::SetGain(0.25));
    let mut data = vec![5.0f32; 4];
    rig.process.process(&mut data);
    assert_eq!(rig.process.gain(), 0.25);
}

#[test]
fn an_odd_buffer_ends_in_silence() {
    let mut rig = rig();
    let (stream, mut worker) = open(1);
    send(&mut worker, 0, 4);
    tell(&mut rig, ManagerToProcessMsg::StartPlayback(3, stream, StartPlaybackState::Playing));
    let mut data = vec![5.0f32; 5];
    assert_eq!(rig.process.process(&mut data), 2);
    assert_eq!(data, vec![1., 1., 2., 2., 0.]);
}

#[test]
fn a_fatal_error_silences_the_process_for_good() {
    let mut rig = rig();
    let (stream, mut worker) = open(1);
    send(&mut worker, 0, 4);
    tell(&mut rig, ManagerToProcessMsg::StartPlayback(3, stream, StartPlaybackState::Playing));
    rig.process.set_fatal_error();
    let mut data = vec![5.0f32; 4];
    assert_eq!(rig.process.process(&mut data), 0);
    assert!(data.iter().all(|s| *s == 0.0));
    assert_eq!(rig.process.playback_id(), None);
    assert!(reports(&mut rig).is_empty());
}

#[test]
fn apply_control_and_render_can_be_called_apart() {
    let mut rig = rig();
    let (stream, mut worker) = open(2);
    send(&mut worker, 0, 2);
    rig.process
        .apply_control(ManagerToProcessMsg::StartPlayback(6, stream, StartPlaybackState::Playing));
    assert_eq!(rig.process.playback_state(), ProcessPlaybackState::Playing);
    let mut data = vec![5.0f32; 8];
    assert_eq!(rig.process.render(&mut data), 2);
    assert_eq!(data, vec![1., 100_001., 2., 100_002., 0., 0., 0., 0.]);
}

#[test]
fn write_interleaved_writes_at_the_frame_given() {
    let channels = ramp(2, 0, 4);
    let read = ReadData::new(&channels, 3, false);
    let mut data = vec![9.0f32; 12];
    write_interleaved(&read, &mut data, 2, 0.0);
    assert_eq!(data, vec![9., 9., 9., 9., 1., 100_001., 2., 100_002., 3., 100_003., 9., 9.]);
    let mono = ramp(1, 0, 4);
    let read = ReadData::new(&mono, 2, false);
    write_interleaved(&read, &mut data, 0, 0.0);
    assert_eq!(data[..6], [1., 1., 2., 2., 1., 100_001.]);
}

#[test]
fn silence_from_keeps_what_lies_before() {
    let mut data = vec![1.0f32, 2.0, 3.0, 4.0];
    silence_from(&mut data, 1, 0.5);
    assert_eq!(data, vec![1.0, 0.5, 0.5, 0.5]);
    silence_from(&mut data, 9, 0.0);
    assert_eq!(data, vec![1.0, 0.5, 0.5, 0.5]);
}
