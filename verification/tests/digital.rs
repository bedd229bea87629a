use bela::digital::{frame_offset, samples, share_index, DigitalFrames, PinMode};

#[test]
fn digital_value_bits_live_in_the_high_half_word() {
    let mut frames = DigitalFrames::new(vec![0; 4], 16);
    frames.digital_write_once(1, 3, true);
    assert_eq!(frames.words()[1], 1 << (3 + 16));
    assert!(frames.digital_read(1, 3));
    assert!(!frames.digital_read(0, 3));
    assert!(!frames.digital_read(1, 2));
}

#[test]
fn digital_write_persists_and_clears() {
    let mut frames = DigitalFrames::new(vec![0; 4], 16);
    frames.digital_write(1, 0, true);
    assert_eq!(frames.words().to_vec(), vec![0, 1 << 16, 1 << 16, 1 << 16]);
    frames.digital_write(2, 0, false);
    assert_eq!(frames.words().to_vec(), vec![0, 1 << 16, 0, 0]);
}

#[test]
fn pin_mode_sets_direction_bits_in_the_low_half_word() {
    let mut frames = DigitalFrames::new(vec![0; 3], 16);
    frames.pin_mode(0, 5, PinMode::Input);
    assert_eq!(frames.words().to_vec(), vec![1 << 5; 3]);
    frames.pin_mode_once(1, 5, PinMode::Output);
    assert_eq!(frames.words().to_vec(), vec![1 << 5, 0, 1 << 5]);
}

#[test]
fn a_write_past_the_end_of_the_block_changes_nothing() {
    let mut frames = DigitalFrames::new(vec![7; 2], 16);
    frames.digital_write(5, 1, true);
    assert_eq!(frames.words().to_vec(), vec![7, 7]);
}

#[test]
fn shares_are_clamped_to_the_buffer() {
    assert_eq!(samples(8, 2, 2, 4), (4, 4));
    assert_eq!(samples(8, 2, 6, 12), (12, 4));
    assert_eq!(samples(8, 2, 10, 12), (16, 0));
}

#[test]
fn a_frame_is_found_within_its_threads_share() {
    let range = 4..8;
    assert_eq!(frame_offset(&range, 4), 0);
    assert_eq!(frame_offset(&range, 7), 3);
    // Frame 6, channel 1 of 2: block sample 13, share sample 13 - 8 = 5.
    assert_eq!(share_index(&range, 6, 2, 1), 5);
    assert_eq!(samples(16, 2, 4, 8), (8, 8));
}
