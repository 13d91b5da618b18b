use directory_player::manager::{bridge_commands, playback_file, stream_metadata};
use directory_player::{
    FileStream, FileStreamMetadata, FileStreamOpenError, ManagerCommand, ManagerEffect,
    ManagerToProcessMsg, MetadataTag, MetadataVisual, OpenedTrack, PlaybackFile, PlaybackManager,
    PlaybackState, PlayerEvent, ProcessToManagerMsg, RepeatMode, ShuffleMode, StartPlaybackState,
    StreamMetadata, StreamMetadataVisual, StreamTiming, StreamTimingInternal, TagKey, TagValue,
    TimeBase, TrackMetadata, VisualKey,
};

fn paths(list: &[&str]) -> Vec<String> {
    list.iter().map(|path| path.to_string()).collect()
}

fn stream(n_frames: Option<u64>, rate: Option<u32>, metadata: Option<TrackMetadata>) -> FileStream<f32> {
    let track = OpenedTrack {
        track_id: 0,
        n_frames,
        sample_rate: 44100,
        capacity: 1024,
        first_packet: vec![Vec::new(), Vec::new()],
        metadata: FileStreamMetadata {
            time_base: rate.and_then(|rate| TimeBase::new(1, rate)),
            preferred_metadata: metadata,
        },
    };
    FileStream::open(track, 44100, 0.0).0
}

fn describe(effect: &ManagerEffect<f32>) -> String {
    match effect {
        ManagerEffect::ToProcess(ManagerToProcessMsg::StartPlayback(id, stream, state)) => {
            format!("process: start {} {:?} {:?}", id, stream.n_frames(), state)
        }
        ManagerEffect::ToProcess(ManagerToProcessMsg::Pause) => "process: pause".to_string(),
        ManagerEffect::ToProcess(ManagerToProcessMsg::Resume) => "process: resume".to_string(),
        ManagerEffect::ToProcess(ManagerToProcessMsg::Stop) => "process: stop".to_string(),
        ManagerEffect::ToProcess(ManagerToProcessMsg::SetGain(gain)) => {
            format!("process: gain {}", gain)
        }
        ManagerEffect::ToProcess(ManagerToProcessMsg::SeekTo(frame)) => {
            format!("process: seek {}", frame)
        }
        ManagerEffect::Emit(PlayerEvent::PlaybackFileChange(file)) => {
            format!("file: {:?}", file.as_ref().map(|file| (file.path.as_str(), file.name.as_str())))
        }
        ManagerEffect::Emit(PlayerEvent::PlaybackStateChange(state)) => format!("state: {:?}", state),
        ManagerEffect::Emit(PlayerEvent::StreamTimingChange(timing)) => {
            format!("timing: {:?}", timing.map(|t| (t.duration, t.pos, t.duration_seconds)))
        }
        ManagerEffect::Emit(PlayerEvent::StreamMetadataChange(metadata)) => {
            format!("metadata: {:?}", metadata.as_ref().map(|m| m.track_title.clone()))
        }
        ManagerEffect::OpenFile { playback_id, path, target_sample_rate } => {
            format!("open: {} {} {}", playback_id, path, target_sample_rate)
        }
    }
}

fn run(manager: &mut PlaybackManager, command: ManagerCommand<f32>) -> Vec<String> {
    manager.handle(command).iter().map(describe).collect()
}

fn texts(list: &[&str]) -> Vec<String> {
    list.iter().map(|text| text.to_string()).collect()
}

fn started(manager: &mut PlaybackManager, list: &[&str], index: usize) {
    run(manager, ManagerCommand::StartPlayback(paths(list), index));
}

fn opened(manager: &mut PlaybackManager, id: u64, path: &str, n_frames: u64) {
    run(
        manager,
        ManagerCommand::OpenFileStream(id, path.to_string(), stream(Some(n_frames), Some(44100), None)),
    );
}

#[test]
fn a_new_manager_is_stopped() {
    let manager = PlaybackManager::new(48000);
    assert_eq!(manager.playback_state(), PlaybackState::Stopped);
    assert_eq!(manager.current_playback_id(), None);
    assert_eq!(manager.shuffle_mode(), ShuffleMode::NotEnabled);
    assert_eq!(manager.repeat_mode(), RepeatMode::Off);
    assert_eq!(manager.stream_timing(), None);
    assert_eq!(manager.current_path(), None);
}

#[test]
fn single_file_end_to_end() {
    let mut manager = PlaybackManager::new(44100);
    assert_eq!(
        run(&mut manager, ManagerCommand::StartPlayback(paths(&["/music/a.wav"]), 0)),
        texts(&[
            "process: stop",
            "state: Playing",
            "metadata: None",
            "file: Some((\"/music/a.wav\", \"a.wav\"))",
            "open: 0 /music/a.wav 44100",
        ])
    );
    assert_eq!(manager.current_playback_id(), Some(0));
    assert_eq!(
        run(
            &mut manager,
            ManagerCommand::OpenFileStream(
                0,
                "/music/a.wav".to_string(),
                stream(Some(44100), Some(44100), None)
            )
        ),
        texts(&[
            "timing: Some((44100, 0, 1))",
            "metadata: Some(None)",
            "process: start 0 Some(44100) Playing",
        ])
    );
    assert_eq!(
        run(&mut manager, ManagerCommand::Progress(0, 22050)),
        texts(&["timing: Some((44100, 22050, 1))"])
    );
    assert_eq!(
        manager.stream_timing(),
        Some(StreamTiming { duration: 44100, pos: 22050, duration_seconds: 1 })
    );
    assert_eq!(
        run(&mut manager, ManagerCommand::PlaybackEnded(0)),
        texts(&[
            "process: stop",
            "file: None",
            "timing: None",
            "state: Stopped",
            "metadata: None",
        ])
    );
    assert_eq!(manager.playback_state(), PlaybackState::Stopped);
    assert_eq!(manager.current_playback_id(), None);
    assert_eq!(manager.current_path(), None);
}

#[test]
fn queue_advance() {
    let mut manager = PlaybackManager::new(44100);
    started(&mut manager, &["a.flac", "b.flac"], 0);
    opened(&mut manager, 0, "a.flac", 1000);
    assert_eq!(
        run(&mut manager, ManagerCommand::PlaybackEnded(0)),
        texts(&[
            "process: stop",
            "timing: None",
            "metadata: None",
            "file: Some((\"b.flac\", \"b.flac\"))",
            "open: 1 b.flac 44100",
        ])
    );
    assert_eq!(manager.current_playback_id(), Some(1));
    assert_eq!(manager.playback_state(), PlaybackState::Playing);
    assert_eq!(manager.current_path(), Some("b.flac".to_string()));
}

#[test]
fn start_playback_outside_the_paths_drops_the_playlist() {
    let mut manager = PlaybackManager::new(44100);
    started(&mut manager, &["a", "b"], 1);
    assert!(run(&mut manager, ManagerCommand::StartPlayback(paths(&["c"]), 1)).is_empty());
    assert_eq!(manager.current_path(), None);
    assert_eq!(manager.current_playback_id(), Some(0));
    assert!(run(&mut manager, ManagerCommand::StartPlayback(Vec::new(), 0)).is_empty());
}

#[test]
fn stale_reports_change_nothing() {
    let mut manager = PlaybackManager::new(44100);
    started(&mut manager, &["a", "b"], 0);
    opened(&mut manager, 0, "a", 1000);
    run(&mut manager, ManagerCommand::SkipForward);
    opened(&mut manager, 1, "b", 2000);
    assert!(run(&mut manager, ManagerCommand::Progress(0, 500)).is_empty());
    assert!(run(&mut manager, ManagerCommand::PlaybackEnded(0)).is_empty());
    assert!(run(&mut manager, ManagerCommand::Progress(2, 500)).is_empty());
    assert_eq!(manager.current_playback_id(), Some(1));
    assert_eq!(manager.current_path(), Some("b".to_string()));
    assert_eq!(
        manager.stream_timing(),
        Some(StreamTiming { duration: 2000, pos: 0, duration_seconds: 0 })
    );
    assert_eq!(manager.playback_state(), PlaybackState::Playing);
}

#[test]
fn a_stale_stream_is_given_up() {
    let mut manager = PlaybackManager::new(44100);
    started(&mut manager, &["a", "b"], 0);
    run(&mut manager, ManagerCommand::SkipForward);
    assert!(run(
        &mut manager,
        ManagerCommand::OpenFileStream(0, "a".to_string(), stream(Some(5), Some(1), None))
    )
    .is_empty());
    assert_eq!(manager.stream_timing(), None);
    assert!(run(
        &mut manager,
        ManagerCommand::OpenFileStreamError(0, "a".to_string(), FileStreamOpenError::NoTrackFound)
    )
    .is_empty());
    assert_eq!(manager.current_playback_id(), Some(1));
}

#[test]
fn an_open_error_skips_to_the_next_track() {
    let mut manager = PlaybackManager::new(44100);
    started(&mut manager, &["a", "b"], 0);
    let effects = run(
        &mut manager,
        ManagerCommand::OpenFileStreamError(0, "a".to_string(), FileStreamOpenError::NoTrackFound),
    );
    assert_eq!(effects.last().unwrap(), "open: 1 b 44100");
    let effects = run(
        &mut manager,
        ManagerCommand::OpenFileStreamError(
            1,
            "b".to_string(),
            FileStreamOpenError::from(std::io::Error::from(std::io::ErrorKind::NotFound)),
        ),
    );
    assert_eq!(
        effects,
        texts(&["process: stop", "file: None", "state: Stopped", "metadata: None"])
    );
    assert_eq!(manager.current_path(), None);
}

#[test]
fn skip_back_policy() {
    let mut manager = PlaybackManager::new(44100);
    started(&mut manager, &["a", "b"], 1);
    opened(&mut manager, 0, "b", 441_000);
    run(&mut manager, ManagerCommand::Progress(0, 3 * 44100));
    assert_eq!(run(&mut manager, ManagerCommand::SkipBack), texts(&["process: seek 0"]));
    assert_eq!(manager.current_playback_id(), Some(0));
    run(&mut manager, ManagerCommand::Progress(0, 3 * 44100 - 1));
    assert_eq!(
        run(&mut manager, ManagerCommand::SkipBack),
        texts(&[
            "process: stop",
            "timing: None",
            "metadata: None",
            "file: Some((\"a\", \"a\"))",
            "open: 1 a 44100",
        ])
    );
    assert_eq!(manager.current_path(), Some("a".to_string()));
}

#[test]
fn skip_back_on_the_first_track_goes_to_its_start() {
    let mut manager = PlaybackManager::new(44100);
    started(&mut manager, &["a", "b"], 0);
    opened(&mut manager, 0, "a", 441_000);
    assert!(run(&mut manager, ManagerCommand::SkipBack).is_empty());
    run(&mut manager, ManagerCommand::Progress(0, 10));
    assert_eq!(run(&mut manager, ManagerCommand::SkipBack), texts(&["process: seek 0"]));
}

#[test]
fn skip_back_without_timing_does_nothing() {
    let mut manager = PlaybackManager::new(44100);
    started(&mut manager, &["a", "b"], 1);
    assert!(run(&mut manager, ManagerCommand::SkipBack).is_empty());
    run(
        &mut manager,
        ManagerCommand::OpenFileStream(0, "b".to_string(), stream(Some(100), None, None)),
    );
    assert_eq!(manager.stream_timing(), None);
    assert!(run(&mut manager, ManagerCommand::SkipBack).is_empty());
    assert_eq!(manager.current_path(), Some("b".to_string()));
}

#[test]
fn seek_inside_the_track_goes_to_the_process() {
    let mut manager = PlaybackManager::new(44100);
    started(&mut manager, &["a", "b"], 0);
    assert!(run(&mut manager, ManagerCommand::SeekTo(5)).is_empty());
    opened(&mut manager, 0, "a", 1000);
    assert_eq!(run(&mut manager, ManagerCommand::SeekTo(999)), texts(&["process: seek 999"]));
    let effects = run(&mut manager, ManagerCommand::SeekTo(1000));
    assert_eq!(effects.last().unwrap(), "open: 1 b 44100");
}

#[test]
fn pause_and_resume() {
    let mut manager = PlaybackManager::new(44100);
    started(&mut manager, &["a"], 0);
    assert_eq!(
        run(&mut manager, ManagerCommand::Pause),
        texts(&["process: pause", "state: Paused"])
    );
    assert_eq!(run(&mut manager, ManagerCommand::Pause), texts(&["process: pause"]));
    assert_eq!(
        run(
            &mut manager,
            ManagerCommand::OpenFileStream(0, "a".to_string(), stream(None, None, None))
        ),
        texts(&["metadata: Some(None)", "process: start 0 None Paused"])
    );
    assert_eq!(
        run(&mut manager, ManagerCommand::Resume),
        texts(&["process: resume", "state: Playing"])
    );
    assert_eq!(manager.playback_state(), PlaybackState::Playing);
}

#[test]
fn stop_clears_the_track_but_keeps_the_playlist() {
    let mut manager = PlaybackManager::new(44100);
    started(&mut manager, &["a", "b"], 0);
    opened(&mut manager, 0, "a", 1000);
    assert_eq!(
        run(&mut manager, ManagerCommand::Stop),
        texts(&[
            "process: stop",
            "file: None",
            "timing: None",
            "state: Stopped",
            "metadata: None",
        ])
    );
    assert_eq!(manager.current_playback_id(), None);
    assert_eq!(manager.current_path(), Some("a".to_string()));
    assert!(run(&mut manager, ManagerCommand::Progress(0, 5)).is_empty());
}

#[test]
fn the_gain_goes_to_the_process() {
    let mut manager = PlaybackManager::new(44100);
    assert_eq!(run(&mut manager, ManagerCommand::SetVolume(0.5)), texts(&["process: gain 0.5"]));
}

#[test]
fn repeat_one_plays_the_same_track_again() {
    let mut manager = PlaybackManager::new(44100);
    started(&mut manager, &["a", "b"], 0);
    assert!(run(&mut manager, ManagerCommand::SetRepeat(RepeatMode::RepeatOne)).is_empty());
    assert_eq!(manager.repeat_mode(), RepeatMode::RepeatOne);
    let effects = run(&mut manager, ManagerCommand::PlaybackEnded(0));
    assert_eq!(effects.last().unwrap(), "open: 1 a 44100");
    let effects = run(&mut manager, ManagerCommand::SkipForward);
    assert_eq!(effects.last().unwrap(), "open: 2 a 44100");
}

#[test]
fn repeat_one_without_a_playlist_does_nothing() {
    let mut manager = PlaybackManager::new(44100);
    run(&mut manager, ManagerCommand::SetRepeat(RepeatMode::RepeatOne));
    assert!(run(&mut manager, ManagerCommand::SkipForward).is_empty());
}

#[test]
fn repeat_all_wraps_round() {
    let mut manager = PlaybackManager::new(44100);
    started(&mut manager, &["a", "b"], 1);
    run(&mut manager, ManagerCommand::SetRepeat(RepeatMode::RepeatAll));
    let effects = run(&mut manager, ManagerCommand::PlaybackEnded(0));
    assert_eq!(effects.last().unwrap(), "open: 1 a 44100");
    assert_eq!(manager.current_path(), Some("a".to_string()));
}

#[test]
fn skip_forward_without_a_playlist_stops() {
    let mut manager = PlaybackManager::new(44100);
    assert_eq!(
        run(&mut manager, ManagerCommand::SkipForward),
        texts(&["process: stop", "file: None", "metadata: None"])
    );
}

#[test]
fn shuffle_keeps_what_is_playing() {
    let mut manager = PlaybackManager::new(44100);
    started(&mut manager, &["x", "y", "z", "w"], 1);
    assert!(run(&mut manager, ManagerCommand::SetShuffle(ShuffleMode::Enabled)).is_empty());
    assert_eq!(manager.shuffle_mode(), ShuffleMode::Enabled);
    assert_eq!(manager.current_path(), Some("y".to_string()));
    let mut visited = Vec::new();
    for _ in 0..3 {
        run(&mut manager, ManagerCommand::SkipForward);
        visited.push(manager.current_path().unwrap());
    }
    visited.sort();
    assert_eq!(visited, paths(&["w", "x", "z"]));
    let playing = manager.current_path();
    assert!(run(&mut manager, ManagerCommand::SetShuffle(ShuffleMode::NotEnabled)).is_empty());
    assert_eq!(manager.current_path(), playing);
    assert_eq!(manager.shuffle_mode(), ShuffleMode::NotEnabled);
}

#[test]
fn a_playlist_started_under_shuffle_starts_where_asked() {
    let mut manager = PlaybackManager::new(44100);
    run(&mut manager, ManagerCommand::SetShuffle(ShuffleMode::Enabled));
    let effects = run(&mut manager, ManagerCommand::StartPlayback(paths(&["x", "y", "z"]), 2));
    assert_eq!(effects.last().unwrap(), "open: 0 z 44100");
    assert_eq!(manager.current_path(), Some("z".to_string()));
    let mut visited = vec!["z".to_string()];
    for _ in 0..2 {
        run(&mut manager, ManagerCommand::SkipForward);
        visited.push(manager.current_path().unwrap());
    }
    visited.sort();
    assert_eq!(visited, paths(&["x", "y", "z"]));
}

#[test]
fn shuffle_changes_the_order_sooner_or_later() {
    let list: Vec<String> = (0..50).map(|i| format!("{:02}", i)).collect();
    let mut changed = false;
    for _ in 0..20 {
        let mut manager = PlaybackManager::new(44100);
        run(&mut manager, ManagerCommand::SetShuffle(ShuffleMode::Enabled));
        run(&mut manager, ManagerCommand::StartPlayback(list.clone(), 0));
        let mut order = vec![manager.current_path().unwrap()];
        for _ in 1..50 {
            run(&mut manager, ManagerCommand::SkipForward);
            order.push(manager.current_path().unwrap());
        }
        changed = changed || order != list;
        order.sort();
        assert_eq!(order, list);
    }
    assert!(changed);
}

#[test]
fn the_metadata_shown_holds_title_artist_and_cover() {
    let metadata = TrackMetadata {
        tags: vec![
            MetadataTag { std_key: None, value: TagValue::Text("x".to_string()) },
            MetadataTag { std_key: Some(TagKey::Artist), value: TagValue::Text("Band".to_string()) },
            MetadataTag { std_key: Some(TagKey::TrackTitle), value: TagValue::Other },
            MetadataTag {
                std_key: Some(TagKey::TrackTitle),
                value: TagValue::Text("Song".to_string()),
            },
            MetadataTag { std_key: Some(TagKey::Artist), value: TagValue::Text("Other".to_string()) },
        ],
        visuals: vec![
            MetadataVisual {
                usage: Some(VisualKey::Other),
                media_type: "image/png".to_string(),
                data: vec![1],
            },
            MetadataVisual {
                usage: Some(VisualKey::FrontCover),
                media_type: "image/jpeg".to_string(),
                data: vec![0xfb, 0xff, 0xfe, 0x01],
            },
        ],
    };
    let shown = stream_metadata(Some(&metadata), &"/music/album/a.flac".to_string());
    assert_eq!(shown.track_title, None);
    assert_eq!(shown.artist, Some("Band".to_string()));
    assert_eq!(
        shown.album_cover,
        Some(StreamMetadataVisual {
            data_base64: "-__-AQ==".to_string(),
            media_type: "image/jpeg".to_string(),
        })
    );
    let other = stream_metadata(None, &"/music/album/b.flac".to_string());
    assert_eq!(
        other,
        StreamMetadata {
            track_title: None,
            artist: None,
            album_cover: None,
            fallback_color: shown.fallback_color.clone(),
        }
    );
}

#[test]
fn the_fallback_color_depends_on_the_directory() {
    let a = stream_metadata(None, &"/music/one/a.flac".to_string()).fallback_color;
    let b = stream_metadata(None, &"/music/one/b.flac".to_string()).fallback_color;
    let c = stream_metadata(None, &"/music/two/a.flac".to_string()).fallback_color;
    assert_eq!(a, b);
    assert_ne!(a, c);
    assert_ne!(a, "/music/one");
    assert!(a.starts_with("rgba("));
    assert!(a.ends_with(", 1)"));
    let bare = stream_metadata(None, &"a.flac".to_string()).fallback_color;
    assert_eq!(bare, stream_metadata(None, &"b.flac".to_string()).fallback_color);
}

#[test]
fn the_file_shown_has_the_last_component_as_its_name() {
    assert_eq!(
        playback_file(&"/music/album/01 - a.flac".to_string()),
        PlaybackFile { path: "/music/album/01 - a.flac".to_string(), name: "01 - a.flac".to_string() }
    );
    assert_eq!(
        playback_file(&"a.wav".to_string()),
        PlaybackFile { path: "a.wav".to_string(), name: "a.wav".to_string() }
    );
    assert_eq!(
        playback_file(&"/music/album/".to_string()),
        PlaybackFile { path: "/music/album/".to_string(), name: "album".to_string() }
    );
    assert_eq!(
        playback_file(&"/music/..".to_string()),
        PlaybackFile { path: "/music/..".to_string(), name: "/music/..".to_string() }
    );
}

#[test]
fn the_timing_shown_counts_whole_seconds() {
    let time_base = TimeBase::new(1, 48000).unwrap();
    let timing = StreamTimingInternal::new(time_base, 480_000 + 47_999, 3 * 48000 - 1);
    assert_eq!(
        timing.as_stream_timing(),
        StreamTiming { duration: 527_999, pos: 143_999, duration_seconds: 10 }
    );
    assert!(timing.is_early());
    assert!(!StreamTimingInternal::new(time_base, 480_000, 3 * 48000).is_early());
}

#[test]
fn the_bridge_keeps_every_end_and_the_last_position() {
    let messages = vec![
        ProcessToManagerMsg::PlaybackPos(1, 10),
        ProcessToManagerMsg::PlaybackEnded(1),
        ProcessToManagerMsg::PlaybackPos(2, 0),
        ProcessToManagerMsg::PlaybackPos(2, 5),
        ProcessToManagerMsg::PlaybackEnded(2),
    ];
    let commands: Vec<ManagerCommand<f32>> = bridge_commands(&messages);
    assert_eq!(commands.len(), 3);
    assert!(matches!(commands[0], ManagerCommand::PlaybackEnded(1)));
    assert!(matches!(commands[1], ManagerCommand::PlaybackEnded(2)));
    assert!(matches!(commands[2], ManagerCommand::Progress(2, 5)));
    let none: Vec<ManagerCommand<f32>> = bridge_commands(&Vec::new());
    assert!(none.is_empty());
    let only_ends: Vec<ManagerCommand<f32>> =
        bridge_commands(&vec![ProcessToManagerMsg::PlaybackEnded(7)]);
    assert_eq!(only_ends.len(), 1);
}

#[test]
fn playback_ids_grow() {
    let mut manager = PlaybackManager::new(44100);
    started(&mut manager, &["a", "b", "c"], 0);
    let mut last = manager.current_playback_id().unwrap();
    for _ in 0..2 {
        run(&mut manager, ManagerCommand::SkipForward);
        let id = manager.current_playback_id().unwrap();
        assert!(id > last);
        last = id;
    }
}
