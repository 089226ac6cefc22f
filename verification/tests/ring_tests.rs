use lyre_audio::buffer::{complete_chain, prepare_plugin_pass, Sync2DArray};
use lyre_audio::ring::{push_outcome, slot_value, PushResult, RingChannel, SILENCE};

#[test]
fn ring_is_first_in_first_out() {
    let mut ring = RingChannel::new(4);
    assert_eq!(ring.try_push(10), PushResult::Pushed);
    assert_eq!(ring.try_push(20), PushResult::Pushed);
    assert_eq!(ring.try_pop(), Some(10));
    assert_eq!(ring.try_push(30), PushResult::Pushed);
    assert_eq!(ring.try_pop(), Some(20));
    assert_eq!(ring.try_pop(), Some(30));
    assert_eq!(ring.try_pop(), None);
}

#[test]
fn ring_refuses_when_full_and_loses_nothing_else() {
    let mut ring = RingChannel::new(2);
    assert_eq!(ring.try_push(1), PushResult::Pushed);
    assert_eq!(ring.try_push(2), PushResult::Pushed);
    assert_eq!(ring.try_push(3), PushResult::Full);
    assert_eq!(ring.try_pop(), Some(1));
    assert_eq!(ring.try_push(4), PushResult::Pushed);
    assert_eq!(ring.try_pop(), Some(2));
    assert_eq!(ring.try_pop(), Some(4));
    assert_eq!(ring.try_pop(), None);
}

#[test]
fn ring_wraps_around_many_times() {
    let mut ring = RingChannel::new(3);
    let mut next_in: u32 = 0;
    let mut next_out: u32 = 0;
    for round in 0..50u32 {
        let pushes: u32 = 1 + round % 3;
        for _ in 0..pushes {
            if ring.try_push(next_in) == PushResult::Pushed {
                next_in += 1;
            }
        }
        let pops: u32 = 1 + (round + 1) % 3;
        for _ in 0..pops {
            if let Some(v) = ring.try_pop() {
                assert_eq!(v, next_out);
                next_out += 1;
            }
        }
    }
    while let Some(v) = ring.try_pop() {
        assert_eq!(v, next_out);
        next_out += 1;
    }
    assert_eq!(next_in, next_out);
}

#[test]
fn push_frames_interleaves_channels_per_frame() {
    let mut block = Sync2DArray::<u32, 2, 8>::new(0, 8);
    for i in 0..4usize {
        block.write(0, i, 100 + i as u32);
        block.write(1, i, 200 + i as u32);
    }
    let mut ring = RingChannel::new(16);
    let dropped: usize = ring.push_frames(&block, 3);
    assert_eq!(dropped, 0);
    let mut out: Vec<u32> = vec![7; 8];
    ring.pop_block(&mut out);
    assert_eq!(out, vec![100, 200, 101, 201, 102, 202, SILENCE, SILENCE]);
    assert_eq!(ring.try_pop(), None);
}

#[test]
fn push_frames_counts_drops_when_full() {
    let mut block = Sync2DArray::<u32, 2, 4>::new(0, 4);
    for i in 0..4usize {
        block.write(0, i, 10 + i as u32);
        block.write(1, i, 20 + i as u32);
    }
    let mut ring = RingChannel::new(5);
    let dropped: usize = ring.push_frames(&block, 4);
    assert_eq!(dropped, 3);
    let mut out: Vec<u32> = vec![0; 5];
    ring.pop_block(&mut out);
    assert_eq!(out, vec![10, 20, 11, 21, 12]);
}

#[test]
fn push_frames_covers_no_more_than_the_block() {
    let mut block = Sync2DArray::<u32, 2, 2>::new(9, 2);
    block.write(1, 1, 5);
    let mut ring = RingChannel::new(16);
    let dropped: usize = ring.push_frames(&block, 100);
    assert_eq!(dropped, 0);
    let mut out: Vec<u32> = vec![0; 5];
    ring.pop_block(&mut out);
    assert_eq!(out, vec![9, 9, 9, 5, SILENCE]);
}

#[test]
fn pop_block_leaves_the_rest_queued() {
    let mut ring = RingChannel::new(8);
    for v in 1..=6u32 {
        assert_eq!(ring.try_push(v), PushResult::Pushed);
    }
    let mut out: Vec<u32> = vec![0; 4];
    ring.pop_block(&mut out);
    assert_eq!(out, vec![1, 2, 3, 4]);
    assert_eq!(ring.try_pop(), Some(5));
    assert_eq!(ring.try_pop(), Some(6));
    assert_eq!(ring.try_pop(), None);
    let mut empty: Vec<u32> = vec![];
    ring.pop_block(&mut empty);
    assert!(empty.is_empty());
}

#[test]
fn empty_chain_passes_a_sine_through_unchanged() {
    const FRAMES: usize = 256;
    let blocks: usize = 8;
    let mut input = Sync2DArray::<u32, 2, 2048>::new(0, 2048);
    let mut output = Sync2DArray::<u32, 2, 2048>::new(0, 2048);
    let mut ring = RingChannel::new(2 * FRAMES * 2);
    let mut dropped_total: usize = 0;
    for b in 0..blocks {
        let mut wire: Vec<u32> = Vec::new();
        for i in 0..FRAMES {
            let t = (b * FRAMES + i) as f32 / 48000.0;
            let s: f32 = 0.5 * (2.0 * std::f32::consts::PI * 1000.0 * t).sin();
            wire.push(s.to_bits());
            wire.push(s.to_bits());
        }
        let frames: usize = input.write_interleaved(&wire, 2);
        assert_eq!(frames, FRAMES);
        complete_chain(0, &input, &mut output, 2, frames);
        dropped_total += ring.push_frames(&output, frames);
        let mut played: Vec<u32> = vec![1; 2 * FRAMES];
        ring.pop_block(&mut played);
        assert_eq!(played, wire);
        for (k, bits) in played.iter().enumerate() {
            let t = (b * FRAMES + k / 2) as f32 / 48000.0;
            let expect: f32 = 0.5 * (2.0 * std::f32::consts::PI * 1000.0 * t).sin();
            assert!((f32::from_bits(*bits) - expect).abs() <= 0.001);
        }
    }
    assert_eq!(dropped_total, 0);
}

#[test]
fn chain_feeds_each_plugin_the_previous_output() {
    let mut input = Sync2DArray::<u32, 2, 4>::new(0, 4);
    let mut output = Sync2DArray::<u32, 2, 4>::new(0, 4);
    let wire: Vec<u32> = vec![1, 2, 3, 4, 5, 6];
    let frames: usize = input.write_interleaved(&wire, 2);
    assert_eq!(frames, 3);
    prepare_plugin_pass(0, &mut input, &mut output, 0, 2, frames);
    assert_eq!(input.get(0, 0), 1);
    assert_eq!(input.get(1, 2), 6);
    assert_eq!(output.get(0, 0), 0);
    for i in 0..frames {
        output.write(0, i, input.get(0, i) * 10);
        output.write(1, i, input.get(1, i) * 10);
    }
    output.write(0, 3, 77);
    prepare_plugin_pass(1, &mut input, &mut output, 0, 2, frames);
    assert_eq!(input.as_ref(0).to_vec(), vec![10, 30, 50, 0]);
    assert_eq!(input.as_ref(1).to_vec(), vec![20, 40, 60, 0]);
    assert_eq!(output.as_ref(0).to_vec(), vec![0, 0, 0, 77]);
    assert_eq!(output.as_ref(1).to_vec(), vec![0, 0, 0, 0]);
    complete_chain(2, &input, &mut output, 2, frames);
    assert_eq!(output.as_ref(0).to_vec(), vec![0, 0, 0, 77]);
}

#[test]
fn split_halves_carry_samples_in_order() {
    let ring = RingChannel::new(4);
    let (mut producer, mut consumer) = ring.split();
    assert_eq!(consumer.try_pop(), None);
    assert_eq!(producer.try_push(1), PushResult::Pushed);
    assert_eq!(producer.try_push(2), PushResult::Pushed);
    assert_eq!(consumer.try_pop(), Some(1));
    assert_eq!(producer.try_push(3), PushResult::Pushed);
    assert_eq!(producer.try_push(4), PushResult::Pushed);
    assert_eq!(producer.try_push(5), PushResult::Pushed);
    assert_eq!(producer.try_push(6), PushResult::Full);
    let mut out: Vec<u32> = vec![9; 6];
    let silent: usize = consumer.pop_block(&mut out);
    assert_eq!(silent, 2);
    assert_eq!(out, vec![2, 3, 4, 5, SILENCE, SILENCE]);
}

#[test]
fn split_keeps_what_was_queued() {
    let mut ring = RingChannel::new(3);
    assert_eq!(ring.try_push(7), PushResult::Pushed);
    let (mut producer, mut consumer) = ring.split();
    assert_eq!(producer.try_push(8), PushResult::Pushed);
    assert_eq!(consumer.try_pop(), Some(7));
    assert_eq!(consumer.try_pop(), Some(8));
    assert_eq!(consumer.try_pop(), None);
}

#[test]
fn producer_push_frames_reports_drops() {
    let mut block = Sync2DArray::<u32, 2, 4>::new(0, 4);
    for i in 0..4usize {
        block.write(0, i, 10 + i as u32);
        block.write(1, i, 20 + i as u32);
    }
    let (mut producer, mut consumer) = RingChannel::new(5).split();
    let dropped: usize = producer.push_frames(&block, 9);
    assert_eq!(dropped, 3);
    let mut out: Vec<u32> = vec![0; 5];
    assert_eq!(consumer.pop_block(&mut out), 0);
    assert_eq!(out, vec![10, 20, 11, 21, 12]);
    assert_eq!(producer.push_frames(&block, 1), 0);
    assert_eq!(consumer.try_pop(), Some(10));
    assert_eq!(consumer.try_pop(), Some(20));
}

#[test]
fn slot_value_and_push_outcome() {
    assert_eq!(slot_value(Some(5)), 5);
    assert_eq!(slot_value(None), SILENCE);
    assert_eq!(push_outcome(Ok(())), PushResult::Pushed);
    assert_eq!(push_outcome(Err(3)), PushResult::Full);
}

#[test]
fn producer_learns_of_room_only_when_it_finds_the_ring_full() {
    let (mut producer, mut consumer) = RingChannel::new(2).split();
    assert_eq!(producer.try_push(1), PushResult::Pushed);
    assert_eq!(producer.try_push(2), PushResult::Pushed);
    assert_eq!(producer.try_push(3), PushResult::Full);
    assert_eq!(consumer.try_pop(), Some(1));
    assert_eq!(producer.try_push(4), PushResult::Pushed);
    assert_eq!(producer.try_push(5), PushResult::Full);
    assert_eq!(consumer.try_pop(), Some(2));
    assert_eq!(consumer.try_pop(), Some(4));
    assert_eq!(consumer.try_pop(), None);
    assert_eq!(producer.try_push(6), PushResult::Pushed);
    assert_eq!(producer.try_push(7), PushResult::Pushed);
    let mut out: Vec<u32> = vec![9; 3];
    assert_eq!(consumer.pop_block(&mut out), 1);
    assert_eq!(out, vec![6, 7, SILENCE]);
}
