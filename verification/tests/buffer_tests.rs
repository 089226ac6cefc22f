use lyre_audio::buffer::Sync2DArray;

#[test]
fn new_block_is_filled_with_the_default() {
    let b = Sync2DArray::<i16, 3, 4>::new(-7, 4);
    assert_eq!(b.read().to_vec(), vec![-7i16; 12]);
    for c in 0..3usize {
        assert_eq!(b.as_ref(c).to_vec(), vec![-7i16; 4]);
    }
}

#[test]
fn write_changes_one_sample_only() {
    let mut b = Sync2DArray::<u8, 2, 3>::new(0, 3);
    b.write(1, 2, 9);
    b.write(0, 1, 4);
    assert_eq!(b.get(1, 2), 9);
    assert_eq!(b.get(0, 1), 4);
    assert_eq!(b.read().to_vec(), vec![0, 4, 0, 0, 0, 9]);
    assert_eq!(b.as_ref(0).to_vec(), vec![0, 4, 0]);
    assert_eq!(b.as_ref(1).to_vec(), vec![0, 0, 9]);
}

#[test]
fn read_covers_block_len_times_channels_slots() {
    let mut b = Sync2DArray::<u32, 2, 4>::new(1, 2);
    b.write(0, 3, 5);
    b.write(1, 0, 6);
    assert_eq!(b.read().to_vec(), vec![1, 1, 1, 5]);
    let empty = Sync2DArray::<u32, 2, 4>::new(1, 0);
    assert!(empty.read().is_empty());
}

#[test]
fn write_interleaved_scatters_frames() {
    let mut b = Sync2DArray::<i32, 2, 4>::new(0, 4);
    let frames: usize = b.write_interleaved(&[1, -1, 2, -2, 3, -3], 2);
    assert_eq!(frames, 3);
    assert_eq!(b.as_ref(0).to_vec(), vec![1, 2, 3, 0]);
    assert_eq!(b.as_ref(1).to_vec(), vec![-1, -2, -3, 0]);
    let frames: usize = b.write_interleaved(&[8, 9], 1);
    assert_eq!(frames, 2);
    assert_eq!(b.as_ref(0).to_vec(), vec![8, 9, 3, 0]);
    assert_eq!(b.as_ref(1).to_vec(), vec![-1, -2, -3, 0]);
    let frames: usize = b.write_interleaved(&[], 2);
    assert_eq!(frames, 0);
}

#[test]
fn copy_and_fill_touch_only_the_leading_region() {
    let mut src = Sync2DArray::<u16, 2, 3>::new(0, 3);
    for c in 0..2usize {
        for i in 0..3usize {
            src.write(c, i, (10 * c + i) as u16);
        }
    }
    let mut dst = Sync2DArray::<u16, 2, 3>::new(99, 3);
    dst.copy_block_from(&src, 1, 2);
    assert_eq!(dst.as_ref(0).to_vec(), vec![0, 1, 99]);
    assert_eq!(dst.as_ref(1).to_vec(), vec![99, 99, 99]);
    dst.copy_block_from(&src, 2, 3);
    assert_eq!(dst.read().to_vec(), vec![0, 1, 2, 10, 11, 12]);
    dst.fill_block(7, 2, 1);
    assert_eq!(dst.read().to_vec(), vec![7, 1, 2, 7, 11, 12]);
    dst.fill_block(5, 0, 3);
    assert_eq!(dst.read().to_vec(), vec![7, 1, 2, 7, 11, 12]);
}
