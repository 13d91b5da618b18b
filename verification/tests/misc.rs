use directory_player::output::{
    DefaultOutputConfig, OUTPUT_CHANNELS, PREFERRED_BUFFER_SIZE, PREFERRED_SAMPLE_RATE,
};
use directory_player::samples::{
    append_frames, append_planar, constant_buffer, covers, frames_of, pad_frames, pad_planar,
    take_planar,
};
use directory_player::{
    FileStreamOpenError, MetadataTag, MetadataVisual, OpenErrorKind, Output, SupportedBufferSize,
    SupportedOutputConfig, TagKey, TagValue, TimeBase, TrackMetadata, VisualKey,
};

fn range(min: u32, max: u32, buffer_size: SupportedBufferSize) -> SupportedOutputConfig {
    SupportedOutputConfig { min_sample_rate: min, max_sample_rate: max, buffer_size }
}

#[test]
fn the_preferred_rate_is_chosen_where_it_is_supported() {
    let supported = vec![
        range(8000, 22050, SupportedBufferSize::Unknown),
        range(44100, 96000, SupportedBufferSize::Range { min: 64, max: 512 }),
        range(22050, 48000, SupportedBufferSize::Range { min: 64, max: 4096 }),
    ];
    let default_config =
        DefaultOutputConfig { sample_rate: 48000, buffer_size: SupportedBufferSize::Unknown };
    assert_eq!(
        Output::new(&supported, default_config),
        Output { sample_rate: 44100, buffer_size: 512 }
    );
    assert_eq!(PREFERRED_SAMPLE_RATE, 44100);
    assert_eq!(PREFERRED_BUFFER_SIZE, 1024);
    assert_eq!(OUTPUT_CHANNELS, 2);
}

#[test]
fn the_default_is_chosen_where_the_preferred_rate_is_not_supported() {
    let supported = vec![
        range(8000, 22050, SupportedBufferSize::Unknown),
        range(48000, 96000, SupportedBufferSize::Range { min: 64, max: 512 }),
    ];
    let default_config = DefaultOutputConfig {
        sample_rate: 48000,
        buffer_size: SupportedBufferSize::Range { min: 16, max: 8192 },
    };
    assert_eq!(
        Output::new(&supported, default_config),
        Output { sample_rate: 48000, buffer_size: 1024 }
    );
    let unknown =
        DefaultOutputConfig { sample_rate: 96000, buffer_size: SupportedBufferSize::Unknown };
    assert_eq!(Output::new(&Vec::new(), unknown), Output { sample_rate: 96000, buffer_size: 1024 });
}

#[test]
fn the_buffer_is_as_large_as_preferred_where_the_device_allows() {
    let supported = vec![range(44100, 44100, SupportedBufferSize::Range { min: 64, max: 1024 })];
    let default_config =
        DefaultOutputConfig { sample_rate: 48000, buffer_size: SupportedBufferSize::Unknown };
    assert_eq!(
        Output::new(&supported, default_config),
        Output { sample_rate: 44100, buffer_size: 1024 }
    );
    let supported = vec![range(1, u32::MAX, SupportedBufferSize::Unknown)];
    assert_eq!(
        Output::new(&supported, default_config),
        Output { sample_rate: 44100, buffer_size: 1024 }
    );
}

#[test]
fn a_time_base_needs_both_its_parts() {
    assert!(TimeBase::new(0, 1).is_none());
    assert!(TimeBase::new(1, 0).is_none());
    assert!(TimeBase::new(0, 0).is_none());
    let time_base = TimeBase::new(1, 44100).unwrap();
    assert_eq!(time_base.numer(), 1);
    assert_eq!(time_base.denom(), 44100);
}

#[test]
fn whole_seconds_are_rounded_down() {
    let time_base = TimeBase::new(1, 44100).unwrap();
    assert_eq!(time_base.calc_seconds(0), 0);
    assert_eq!(time_base.calc_seconds(44099), 0);
    assert_eq!(time_base.calc_seconds(44100), 1);
    assert_eq!(time_base.calc_seconds(3 * 44100 - 1), 2);
    assert_eq!(time_base.calc_seconds(3 * 44100), 3);
    let thirds = TimeBase::new(2, 3).unwrap();
    assert_eq!(thirds.calc_seconds(4), 2);
    assert_eq!(thirds.calc_seconds(5), 3);
}

#[test]
fn whole_seconds_of_large_timestamps() {
    let time_base = TimeBase::new(1, 3).unwrap();
    assert_eq!(time_base.calc_seconds(1 << 52), (1u64 << 52) / 3);
    assert_eq!(time_base.calc_seconds((1 << 52) - 1), ((1u64 << 52) - 1) / 3);
    assert_eq!(time_base.calc_seconds(u64::MAX), u64::MAX / 3);
    let wide = TimeBase::new(4, 1).unwrap();
    assert_eq!(wide.calc_seconds(1 << 62), 0);
    assert_eq!(wide.calc_seconds((1 << 62) + 1), 4);
    let odd = TimeBase::new(u32::MAX, u32::MAX - 1).unwrap();
    assert_eq!(odd.calc_seconds((1 << 20) - 1), (((1u64 << 20) - 1) * (u32::MAX as u64)) / (u32::MAX as u64 - 1));
}

#[test]
fn the_first_tag_with_a_key_decides() {
    let metadata = TrackMetadata {
        tags: vec![
            MetadataTag { std_key: Some(TagKey::Other), value: TagValue::Text("x".to_string()) },
            MetadataTag { std_key: Some(TagKey::TrackTitle), value: TagValue::Text("A".to_string()) },
            MetadataTag { std_key: Some(TagKey::TrackTitle), value: TagValue::Text("B".to_string()) },
            MetadataTag { std_key: Some(TagKey::Artist), value: TagValue::Other },
            MetadataTag { std_key: Some(TagKey::Artist), value: TagValue::Text("C".to_string()) },
        ],
        visuals: Vec::new(),
    };
    assert_eq!(metadata.track_title(), Some("A".to_string()));
    assert_eq!(metadata.artist(), None);
    assert_eq!(metadata.text_of(TagKey::Other), Some("x".to_string()));
    assert!(metadata.front_cover().is_none());
    let empty = TrackMetadata { tags: Vec::new(), visuals: Vec::new() };
    assert_eq!(empty.track_title(), None);
    assert_eq!(empty.artist(), None);
}

#[test]
fn the_first_front_cover_is_found() {
    let picture = |usage, byte: u8| MetadataVisual {
        usage,
        media_type: "image/png".to_string(),
        data: vec![byte],
    };
    let metadata = TrackMetadata {
        tags: Vec::new(),
        visuals: vec![
            picture(None, 1),
            picture(Some(VisualKey::Other), 2),
            picture(Some(VisualKey::FrontCover), 3),
            picture(Some(VisualKey::FrontCover), 4),
        ],
    };
    assert_eq!(metadata.front_cover().unwrap().data, vec![3]);
}

#[test]
fn open_errors_have_a_kind() {
    assert_eq!(FileStreamOpenError::NoTrackFound.kind(), OpenErrorKind::NoTrack);
    let io = std::io::Error::from(std::io::ErrorKind::NotFound);
    assert_eq!(FileStreamOpenError::from(io).kind(), OpenErrorKind::Io);
    let codec = symphonia::core::errors::Error::Unsupported("codec");
    assert_eq!(FileStreamOpenError::from(codec).kind(), OpenErrorKind::Codec);
    let io = std::io::Error::from(std::io::ErrorKind::PermissionDenied);
    assert!(matches!(
        FileStreamOpenError::from(io),
        FileStreamOpenError::IoError(e) if e.kind() == std::io::ErrorKind::PermissionDenied
    ));
}

#[test]
fn planar_buffers() {
    let mut target = vec![vec![1, 2], vec![3, 4]];
    append_planar(&mut target, &vec![vec![10, 11, 12], vec![20, 21, 22]], 1, 3);
    assert_eq!(target, vec![vec![1, 2, 11, 12], vec![3, 4, 21, 22]]);
    pad_planar(&mut target, 0, 6);
    assert_eq!(target, vec![vec![1, 2, 11, 12, 0, 0], vec![3, 4, 21, 22, 0, 0]]);
    let taken = take_planar(&mut target, 8);
    assert_eq!(taken, vec![vec![1, 2, 11, 12, 0, 0], vec![3, 4, 21, 22, 0, 0]]);
    assert_eq!(target, vec![Vec::<i32>::new(), Vec::new()]);
    assert_eq!(constant_buffer(2, 3, 7u8), vec![vec![7, 7, 7], vec![7, 7, 7]]);
    assert_eq!(constant_buffer(0, 3, 7u8), Vec::<Vec<u8>>::new());
}

#[test]
fn frames_of_a_planar_buffer() {
    assert_eq!(frames_of(&vec![vec![1, 2], vec![3, 4]]), Some(2));
    assert_eq!(frames_of(&vec![vec![1, 2], vec![3]]), None);
    assert_eq!(frames_of(&Vec::<Vec<u8>>::new()), None);
    assert_eq!(frames_of(&vec![Vec::<u8>::new()]), Some(0));
    assert!(covers(&vec![vec![1, 2], vec![3]], 1));
    assert!(!covers(&vec![vec![1, 2], vec![3]], 2));
    assert!(covers(&Vec::<Vec<u8>>::new(), 100));
}

#[test]
fn frames_are_appended_and_padded() {
    let mut target = vec![1, 2];
    append_frames(&mut target, &vec![5, 6, 7, 8], 1, 3);
    assert_eq!(target, vec![1, 2, 6, 7]);
    append_frames(&mut target, &vec![5, 6, 7, 8], 2, 2);
    assert_eq!(target, vec![1, 2, 6, 7]);
    pad_frames(&mut target, 9, 6);
    assert_eq!(target, vec![1, 2, 6, 7, 9, 9]);
    pad_frames(&mut target, 9, 6);
    assert_eq!(target, vec![1, 2, 6, 7, 9, 9]);
}
