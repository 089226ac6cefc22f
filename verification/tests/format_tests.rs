use lyre_audio::engine::AudioConfig;
use lyre_audio::format::{
    pick_best_format, usable_ranges, BufferSize, ReportedRange, SampleFormat, SampleRate,
    SupportedBufferSize, SupportedStreamConfigRange,
};

fn make_range(fmt: SampleFormat) -> SupportedStreamConfigRange {
    SupportedStreamConfigRange::new(
        2,
        SampleRate(44100),
        SampleRate(44100),
        SupportedBufferSize::Unknown,
        fmt,
    )
}

fn make_range_with_config(
    fmt: SampleFormat,
    min_rate: u32,
    max_rate: u32,
    buffer_size: SupportedBufferSize,
) -> SupportedStreamConfigRange {
    SupportedStreamConfigRange::new(2, SampleRate(min_rate), SampleRate(max_rate), buffer_size, fmt)
}

#[test]
fn test_pick_best_format_prefers_f32() {
    let configs = vec![
        make_range(SampleFormat::I16),
        make_range(SampleFormat::F32),
        make_range(SampleFormat::U16),
    ];
    let result = pick_best_format(&configs, None, None, None, None);
    assert!(result.is_some());
    assert_eq!(result.unwrap().sample_format(), SampleFormat::F32);
}

#[test]
fn test_pick_best_format_prefers_i32_over_u32() {
    let configs = vec![make_range(SampleFormat::U32), make_range(SampleFormat::I32)];
    let result = pick_best_format(&configs, None, None, None, None);
    assert!(result.is_some());
    assert_eq!(result.unwrap().sample_format(), SampleFormat::I32);
}

#[test]
fn test_pick_best_format_returns_none_for_empty() {
    let configs: Vec<SupportedStreamConfigRange> = vec![];
    let result = pick_best_format(&configs, None, None, None, None);
    assert!(result.is_none());
}

#[test]
fn test_pick_best_format_picks_first_in_priority() {
    let configs = vec![
        make_range(SampleFormat::U8),
        make_range(SampleFormat::I8),
        make_range(SampleFormat::I16),
    ];
    let result = pick_best_format(&configs, None, None, None, None);
    assert!(result.is_some());
    assert_eq!(result.unwrap().sample_format(), SampleFormat::I16);
}

#[test]
fn test_pick_best_format_prioritizes_sample_rate() {
    let configs = vec![
        make_range_with_config(SampleFormat::F32, 22050, 22050, SupportedBufferSize::Unknown),
        make_range_with_config(SampleFormat::I16, 44100, 44100, SupportedBufferSize::Unknown),
    ];
    let result = pick_best_format(&configs, Some(44100), None, None, None);
    assert!(result.is_some());
    let config = result.unwrap();
    assert_eq!(config.sample_format(), SampleFormat::I16);
    assert_eq!(config.sample_rate().0, 44100);
}

#[test]
fn test_pick_best_format_prioritizes_buffer_size() {
    let configs = vec![
        make_range_with_config(
            SampleFormat::F32,
            44100,
            44100,
            SupportedBufferSize::Range { min: 128, max: 256 },
        ),
        make_range_with_config(
            SampleFormat::I16,
            44100,
            44100,
            SupportedBufferSize::Range { min: 512, max: 1024 },
        ),
    ];
    let result = pick_best_format(&configs, Some(44100), Some(512), None, None);
    assert!(result.is_some());
    assert_eq!(result.unwrap().sample_format(), SampleFormat::I16);
}

#[test]
fn test_pick_best_format_exact_format_match() {
    let configs = vec![make_range(SampleFormat::I16), make_range(SampleFormat::F32)];
    let result = pick_best_format(&configs, None, None, Some(SampleFormat::I16), None);
    assert!(result.is_some());
    assert_eq!(result.unwrap().sample_format(), SampleFormat::I16);
}

#[test]
fn test_pick_best_format_all_preferences_match() {
    let configs = vec![
        make_range_with_config(
            SampleFormat::I16,
            22050,
            22050,
            SupportedBufferSize::Range { min: 128, max: 256 },
        ),
        make_range_with_config(
            SampleFormat::F32,
            44100,
            48000,
            SupportedBufferSize::Range { min: 512, max: 1024 },
        ),
    ];
    let result =
        pick_best_format(&configs, Some(44100), Some(512), Some(SampleFormat::F32), None);
    assert!(result.is_some());
    let config = result.unwrap();
    assert_eq!(config.sample_format(), SampleFormat::F32);
    assert_eq!(config.sample_rate().0, 44100);
}

#[test]
fn test_audio_config_creation() {
    let config = AudioConfig { sample_rate: 44100, buffer_size: 512, channels: 2 };
    assert_eq!(config.sample_rate, 44100);
    assert_eq!(config.buffer_size, 512);
    assert_eq!(config.channels, 2);
}

#[test]
fn no_preference_ranks_float_above_every_integer_format() {
    let order = [
        SampleFormat::F32,
        SampleFormat::I32,
        SampleFormat::U32,
        SampleFormat::I16,
        SampleFormat::U16,
        SampleFormat::I8,
        SampleFormat::U8,
    ];
    for hi in 0..order.len() {
        for lo in (hi + 1)..order.len() {
            let forward = vec![make_range(order[hi]), make_range(order[lo])];
            let backward = vec![make_range(order[lo]), make_range(order[hi])];
            let a = pick_best_format(&forward, None, None, None, None).unwrap();
            let b = pick_best_format(&backward, None, None, None, None).unwrap();
            assert_eq!(a.sample_format(), order[hi]);
            assert_eq!(b.sample_format(), order[hi]);
        }
    }
}

#[test]
fn with_a_preference_i32_ranks_above_f32() {
    let configs = vec![make_range(SampleFormat::F32), make_range(SampleFormat::I32)];
    let result = pick_best_format(&configs, Some(44100), None, None, None).unwrap();
    assert_eq!(result.sample_format(), SampleFormat::I32);
    let result = pick_best_format(&configs, None, None, None, Some(2)).unwrap();
    assert_eq!(result.sample_format(), SampleFormat::I32);
}

#[test]
fn exact_format_match_beats_intrinsic_rank() {
    let configs = vec![make_range(SampleFormat::I32), make_range(SampleFormat::U8)];
    let result = pick_best_format(&configs, None, None, Some(SampleFormat::U8), None).unwrap();
    assert_eq!(result.sample_format(), SampleFormat::U8);
}

#[test]
fn sample_rate_outranks_buffer_size_and_format() {
    let configs = vec![
        make_range_with_config(
            SampleFormat::I32,
            22050,
            22050,
            SupportedBufferSize::Range { min: 256, max: 256 },
        ),
        make_range_with_config(
            SampleFormat::U8,
            48000,
            48000,
            SupportedBufferSize::Range { min: 64, max: 64 },
        ),
    ];
    let result =
        pick_best_format(&configs, Some(48000), Some(256), Some(SampleFormat::I32), Some(2));
    let config = result.unwrap();
    assert_eq!(config.sample_format(), SampleFormat::U8);
    assert_eq!(config.sample_rate(), SampleRate(48000));
    assert_eq!(config.buffer_size(), SupportedBufferSize::Range { min: 64, max: 64 });
}

#[test]
fn channel_count_breaks_a_format_tie() {
    let mono = SupportedStreamConfigRange::new(
        1,
        SampleRate(48000),
        SampleRate(48000),
        SupportedBufferSize::Unknown,
        SampleFormat::I16,
    );
    let stereo = make_range_with_config(SampleFormat::I16, 48000, 48000, SupportedBufferSize::Unknown);
    let configs = vec![mono, stereo];
    let result = pick_best_format(&configs, None, None, None, Some(2)).unwrap();
    assert_eq!(result.channels(), 2);
    let result = pick_best_format(&configs, None, None, None, Some(1)).unwrap();
    assert_eq!(result.channels(), 1);
}

#[test]
fn equal_candidates_resolve_to_the_earliest() {
    let first = make_range_with_config(SampleFormat::I16, 8000, 44100, SupportedBufferSize::Unknown);
    let second = make_range_with_config(SampleFormat::I16, 8000, 96000, SupportedBufferSize::Unknown);
    let configs = vec![first, second];
    let result = pick_best_format(&configs, None, None, None, None).unwrap();
    assert_eq!(result.sample_rate().0, 44100);
    let configs = vec![second, first];
    let result = pick_best_format(&configs, None, None, None, None).unwrap();
    assert_eq!(result.sample_rate().0, 96000);
}

#[test]
fn unsupported_preferred_rate_falls_back_to_maximum() {
    let configs =
        vec![make_range_with_config(SampleFormat::F32, 8000, 32000, SupportedBufferSize::Unknown)];
    let result = pick_best_format(&configs, Some(48000), None, None, None).unwrap();
    assert_eq!(result.sample_rate().0, 32000);
    let result = pick_best_format(&configs, Some(16000), None, None, None).unwrap();
    assert_eq!(result.sample_rate().0, 16000);
    let result = pick_best_format(&configs, None, None, None, None).unwrap();
    assert_eq!(result.sample_rate().0, 32000);
}

#[test]
fn format_picker_scenario() {
    let configs = vec![
        make_range(SampleFormat::I16),
        make_range(SampleFormat::F32),
        make_range(SampleFormat::U16),
    ];
    let result = pick_best_format(&configs, None, None, None, None).unwrap();
    assert_eq!(result.sample_format(), SampleFormat::F32);
    assert_eq!(result.sample_rate().0, 44100);
    let configs = vec![
        make_range_with_config(SampleFormat::F32, 22050, 22050, SupportedBufferSize::Unknown),
        make_range_with_config(SampleFormat::I16, 44100, 44100, SupportedBufferSize::Unknown),
    ];
    let result = pick_best_format(&configs, Some(44100), None, None, None).unwrap();
    assert_eq!(result.sample_format(), SampleFormat::I16);
    assert_eq!(result.sample_rate().0, 44100);
}

#[test]
fn range_accessors_and_instantiation() {
    let r = SupportedStreamConfigRange::new(
        2,
        SampleRate(8000),
        SampleRate(48000),
        SupportedBufferSize::Range { min: 64, max: 1024 },
        SampleFormat::I32,
    );
    assert_eq!(r.channels(), 2);
    assert_eq!(r.min_sample_rate(), SampleRate(8000));
    assert_eq!(r.max_sample_rate(), SampleRate(48000));
    assert_eq!(r.buffer_size(), SupportedBufferSize::Range { min: 64, max: 1024 });
    assert_eq!(r.sample_format(), SampleFormat::I32);
    let top = r.with_max_sample_rate();
    assert_eq!(top.sample_rate(), SampleRate(48000));
    let mid = r.with_sample_rate(SampleRate(44100));
    assert_eq!(mid.sample_rate(), SampleRate(44100));
    assert_eq!(r.try_with_sample_rate(SampleRate(44100)), Some(mid));
    assert_eq!(r.try_with_sample_rate(SampleRate(7999)), None);
    assert_eq!(r.try_with_sample_rate(SampleRate(48001)), None);
    assert_eq!(r.try_with_sample_rate(SampleRate(48000)), Some(top));
    let cfg = mid.config();
    assert_eq!(cfg.channels, 2);
    assert_eq!(cfg.sample_rate, SampleRate(44100));
    assert_eq!(cfg.buffer_size, BufferSize::Default);
}

fn reported(format: Option<SampleFormat>, rate: u32) -> ReportedRange {
    ReportedRange {
        channels: 2,
        min_sample_rate: SampleRate(rate),
        max_sample_rate: SampleRate(rate),
        buffer_size: SupportedBufferSize::Unknown,
        sample_format: format,
    }
}

#[test]
fn ranges_of_formats_not_handled_are_never_candidates() {
    let all = vec![
        reported(None, 96000),
        reported(Some(SampleFormat::I16), 44100),
        reported(None, 48000),
        reported(Some(SampleFormat::U8), 22050),
    ];
    let candidates = usable_ranges(&all);
    assert_eq!(
        candidates,
        vec![
            make_range_with_config(SampleFormat::I16, 44100, 44100, SupportedBufferSize::Unknown),
            make_range_with_config(SampleFormat::U8, 22050, 22050, SupportedBufferSize::Unknown),
        ]
    );
    let best = pick_best_format(&candidates, Some(96000), None, None, None).unwrap();
    assert_eq!(best.sample_format(), SampleFormat::I16);
    assert_eq!(reported(None, 1).usable(), None);
    assert_eq!(
        reported(Some(SampleFormat::F32), 8000).usable(),
        Some(make_range_with_config(SampleFormat::F32, 8000, 8000, SupportedBufferSize::Unknown))
    );
    let none = vec![reported(None, 96000), reported(None, 48000)];
    assert!(usable_ranges(&none).is_empty());
    assert!(pick_best_format(&usable_ranges(&none), None, None, None, None).is_none());
    assert!(usable_ranges(&Vec::new()).is_empty());
}
