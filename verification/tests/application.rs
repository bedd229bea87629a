use bela::application::{partition, ThreadInfo};

#[test]
fn partitions_tile_the_block_exactly() {
    for frames in 0..40_usize {
        for count in 1..8_usize {
            let mut previous_end = 0;
            for thread in 0..count {
                let range = partition(frames, thread, count);
                assert_eq!(range.start, previous_end, "{frames} frames, {count} threads");
                assert!(range.start <= range.end, "{frames} frames, {count} threads");
                previous_end = range.end;
            }
            assert_eq!(previous_end, frames, "{frames} frames, {count} threads");
        }
    }
}

#[test]
fn uneven_partitions_differ_by_at_most_one_frame() {
    let lengths: Vec<usize> = (0..4).map(|t| partition(7, t, 4).len()).collect();
    assert_eq!(lengths, vec![1, 2, 2, 2]);
    assert_eq!(lengths.iter().sum::<usize>(), 7);
}

#[test]
fn more_threads_than_frames_gives_empty_ranges() {
    let ranges: Vec<std::ops::Range<usize>> = (0..4).map(|t| partition(2, t, 4)).collect();
    assert_eq!(ranges, vec![0..0, 0..1, 1..1, 1..2]);
}

#[test]
fn a_thread_outside_the_count_gets_nothing() {
    assert_eq!(partition(8, 4, 4), 8..8);
    assert_eq!(partition(8, 9, 4), 8..8);
}

#[test]
fn a_zero_thread_count_is_one_thread() {
    assert_eq!(partition(8, 0, 0), 0..8);
}

#[test]
fn a_thread_info_reports_its_share() {
    let info = ThreadInfo::new(1, 4);
    assert_eq!(info.index(), 1);
    assert_eq!(info.count(), 4);
    assert!(!info.is_only());
    assert_eq!(info.frame_range(7), 1..3);
    assert!(ThreadInfo::new(0, 1).is_only());
    assert_eq!(ThreadInfo::new(0, 1).frame_range(16), 0..16);
}

#[test]
fn a_thread_outside_the_count_gets_the_end_of_any_block() {
    assert_eq!(partition(usize::MAX, 4, 4), usize::MAX..usize::MAX);
    assert_eq!(partition(usize::MAX, 0, 1), 0..usize::MAX);
    assert_eq!(ThreadInfo::new(9, 4).frame_range(usize::MAX), usize::MAX..usize::MAX);
}
