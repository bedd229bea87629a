use bela::hardware::{Board, DetectMode};
use bela::version::Version;

#[test]
fn versions_compare_by_major_then_minor_then_bugfix() {
    assert!(Version::new(1, 18, 0) > Version::new(1, 17, 9));
    assert!(Version::new(2, 0, 0) > Version::new(1, 99, 99));
    assert!(Version::new(1, 18, 1) > Version::new(1, 18, 0));
    assert_eq!(Version::new(1, 18, 0), Version::new(1, 18, 0));
}

#[test]
fn a_version_prints_as_a_version() {
    assert_eq!(Version::new(1, 18, 0).to_string(), "1.18.0");
}

#[test]
fn the_header_version_is_the_one_the_bindings_were_vendored_from() {
    assert_eq!(
        Version::headers(),
        Version::new(1, 18, 0),
        "the vendored headers moved; update what quotes the version"
    );
}

#[test]
fn a_negative_version_number_prints_as_it_came() {
    assert_eq!(Version::new(-1, 0, 12).to_string(), "-1.0.12");
}

#[test]
fn every_named_board_reads_back_as_the_constant_it_is() {
    for raw in -1..=15 {
        let board = Board::from_raw(raw);
        assert!(board.is_recognised(), "BelaHw {raw}");
        assert_eq!(board.to_raw(), raw);
    }
    assert_eq!(Board::from_raw(2), Board::GemStereo);
    assert_eq!(Board::GemStereo.to_raw(), 2);
}

#[test]
fn a_board_the_headers_do_not_name_keeps_its_number() {
    for raw in [16, 99, i32::MAX, i32::MIN] {
        let board = Board::from_raw(raw);
        assert!(matches!(board, Board::Unrecognised { raw: kept, .. } if kept == raw));
        assert_eq!(board.to_raw(), raw, "the number must survive the round trip");
        assert!(!board.is_recognised());
    }
}

#[test]
fn no_hardware_is_a_detection_result_rather_than_an_unknown_board() {
    assert_eq!(Board::from_raw(-1), Board::NoHardware);
    assert!(Board::NoHardware.is_recognised());
}

#[test]
fn a_board_prints_the_name_libbela_gives_it() {
    assert_eq!(Board::GemStereo.to_string(), "GemStereo");
    assert_eq!(Board::NoHardware.to_string(), "NoHw");
    assert_eq!(Board::from_raw(17).to_string(), "unrecognised(17)");
    assert_eq!(Board::from_raw(-5).to_string(), "unrecognised(-5)");
}

#[test]
fn every_detect_mode_is_the_constant_it_names() {
    let ordered: Vec<u32> = DetectMode::all().iter().map(|m| m.to_raw()).collect();
    assert_eq!(ordered, vec![0, 1, 2, 3, 4], "all is not in declaration order");
    let names: Vec<String> = DetectMode::all().iter().map(|m| m.to_string()).collect();
    assert_eq!(names, vec!["scan", "cache", "cache-only", "user", "user-only"]);
}
