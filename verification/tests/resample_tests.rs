use lyre_audio::buffer::{complete_chain, Sync2DArray};
use lyre_audio::engine::{AudioEngine, DeviceInfo, HostInfo};
use lyre_audio::format::{
    SampleFormat, SampleRate, SupportedBufferSize, SupportedStreamConfig,
    SupportedStreamConfigRange,
};
use lyre_audio::ring::RingChannel;
use rubato::{
    Resampler, SincFixedIn, SincInterpolationParameters, SincInterpolationType, WindowFunction,
};

fn device(name: &str, rate: u32) -> DeviceInfo {
    DeviceInfo {
        name: name.to_string(),
        configs: vec![SupportedStreamConfigRange::new(
            1,
            SampleRate(rate),
            SampleRate(rate),
            SupportedBufferSize::Unknown,
            SampleFormat::I32,
        )],
        default_config: Some(SupportedStreamConfig {
            channels: 1,
            sample_rate: SampleRate(rate),
            buffer_size: SupportedBufferSize::Unknown,
            sample_format: SampleFormat::I32,
        }),
    }
}

#[test]
fn resampling_44100_to_48000_keeps_the_duration() {
    let host = HostInfo {
        name: "Test".to_string(),
        exclusive: false,
        input_devices: vec![device("In", 44100)],
        output_devices: vec![device("Out", 48000)],
        default_input: Some(device("In", 44100)),
        default_output: Some(device("Out", 48000)),
    };
    let mut engine = AudioEngine::new(vec![host], 0);
    assert_eq!(engine.set_buffer_size(256), Ok(()));
    assert_eq!(engine.select_input("In"), Ok(()));
    assert_eq!(engine.select_output("Out"), Ok(()));
    let plan = engine.run(true).unwrap();
    assert_eq!(plan.source_rate, 44100);
    assert_eq!(plan.target_rate, 48000);
    assert_eq!(plan.channels, 1);
    assert_eq!(plan.block_size, 256);

    let block: usize = plan.block_size as usize;
    let channels: usize = plan.channels as usize;
    let params = SincInterpolationParameters {
        sinc_len: 256,
        f_cutoff: 0.95,
        interpolation: SincInterpolationType::Linear,
        oversampling_factor: 256,
        window: WindowFunction::BlackmanHarris2,
    };
    let mut resampler = SincFixedIn::<f32>::new(
        plan.target_rate as f64 / plan.source_rate as f64,
        2.0,
        params,
        block,
        channels,
    )
    .unwrap();
    let mut resampled: Vec<Vec<f32>> = resampler.output_buffer_allocate(true);

    let mut input = Sync2DArray::<f32, 2, 2048>::new(0.0, 2048);
    let mut output = Sync2DArray::<f32, 2, 2048>::new(0.0, 2048);
    let mut bits = Sync2DArray::<u32, 2, 2048>::new(0, 2048);
    let mut ring = RingChannel::new(plan.ring_capacity as usize * 2);

    let blocks: usize = 4 * 44100 / block;
    let mut seed: u32 = 0x1234_5678;
    let mut pink: f32 = 0.0;
    let mut delivered: usize = 0;
    let mut dropped: usize = 0;
    for _ in 0..blocks {
        let mut wire: Vec<f32> = Vec::with_capacity(block);
        for _ in 0..block {
            seed = seed.wrapping_mul(1_664_525).wrapping_add(1_013_904_223);
            let white: f32 = (seed >> 8) as f32 / (1u32 << 24) as f32 - 0.5;
            pink = 0.98 * pink + 0.02 * white;
            wire.push(pink);
        }
        let frames: usize = input.write_interleaved(&wire, channels);
        complete_chain(0, &input, &mut output, channels, frames);
        let sources = [&output.as_ref(0)[..frames]];
        let (_, produced) =
            resampler.process_into_buffer(&sources, &mut resampled, None).unwrap();
        for (i, sample) in resampled[0].iter().enumerate().take(produced) {
            bits.write(0, i, sample.to_bits());
            bits.write(1, i, sample.to_bits());
        }
        dropped += ring.push_frames(&bits, produced);
        let mut played: Vec<u32> = vec![0; 2 * produced];
        ring.pop_block(&mut played);
        delivered += played.len() / 2;
    }
    let fed: usize = blocks * block;
    let expected: f64 = fed as f64 * 48000.0 / 44100.0;
    assert_eq!(dropped, 0);
    assert!((delivered as f64 - expected).abs() <= block as f64);
}
