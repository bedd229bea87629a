use bela::vendor::{
    abridge, board_answer, compare_identity, Comparison, DriftTally, recorded_value, scp_error, version_in, Identity,
    DEFAULT_HOST, MAX_DIFF_LINES,
};

const HEADER: &str = "\
#pragma once
#define BELA_MAJOR_VERSION 1
#define BELA_MINOR_VERSION 18
#define BELA_BUGFIX_VERSION 0

int Bela_initAudio(BelaInitSettings* settings, void* userData);
";

#[test]
fn a_version_is_read_from_the_three_macros() {
    assert_eq!(version_in(HEADER), Some("1.18.0".to_owned()));
}

#[test]
fn a_partial_version_is_no_version() {
    for missing in ["MAJOR", "MINOR", "BUGFIX"] {
        let header: String = HEADER
            .lines()
            .filter(|line| !line.contains(&format!("BELA_{missing}_VERSION")))
            .collect::<Vec<_>>()
            .join("\n");
        assert_eq!(version_in(&header), None, "without BELA_{missing}_VERSION");
    }
    assert_eq!(version_in(""), None);
}

#[test]
fn a_version_value_is_trimmed_and_a_crlf_header_still_reads() {
    let header = "#define BELA_MAJOR_VERSION  2 \r\n#define BELA_MINOR_VERSION 0\r\n#define BELA_BUGFIX_VERSION 7\r\n";
    assert_eq!(version_in(header), Some("2.0.7".to_owned()));
}

#[test]
fn scp_errors_are_reported_without_the_login_banner() {
    let stderr = "\
Linux bela 6.6.32 aarch64
Last login: Wed Aug  5 12:00:00 2026
-bash: warning: setlocale: LC_ALL: cannot change locale (en_US.UTF-8)
scp: /root/Bela/include/Bela.h: No such file or directory
";
    assert_eq!(
        scp_error(stderr),
        "scp: /root/Bela/include/Bela.h: No such file or directory"
    );
}

#[test]
fn a_failure_without_an_scp_line_is_reported_whole() {
    let stderr = "ssh: Could not resolve hostname bela.local\n";
    assert_eq!(scp_error(stderr), "ssh: Could not resolve hostname bela.local");
}

#[test]
fn several_scp_lines_are_kept_in_order() {
    let stderr = "banner\nscp: one\nnoise\nscp: two\n";
    assert_eq!(scp_error(stderr), "scp: one\nscp: two");
}

#[test]
fn a_short_diff_is_left_alone() {
    for count in [0, 1, MAX_DIFF_LINES - 1, MAX_DIFF_LINES] {
        let diff = "-a line\n".repeat(count);
        assert_eq!(abridge(&diff), diff, "{count} line(s)");
    }
}

#[test]
fn a_long_diff_is_cut_down_and_says_how_much_is_missing() {
    let lines: Vec<String> = (0..MAX_DIFF_LINES + 5).map(|line| format!("-line {line}")).collect();
    let abridged = abridge(&format!("{}\n", lines.join("\n")));
    let lines: Vec<&str> = abridged.lines().collect();

    assert_eq!(lines.len(), MAX_DIFF_LINES + 1);
    assert_eq!(lines[0], "-line 0");
    assert_eq!(lines[MAX_DIFF_LINES - 1], format!("-line {}", MAX_DIFF_LINES - 1));
    assert!(
        lines[MAX_DIFF_LINES].starts_with("(5 more diff line(s);"),
        "{:?}",
        lines[MAX_DIFF_LINES]
    );
}

#[test]
fn an_unrecorded_identity_is_not_a_value() {
    assert_eq!(recorded_value("build-id: unknown\n", "build-id"), None);
    assert_eq!(recorded_value("sha256: \n", "sha256"), None);
    assert_eq!(recorded_value("board root@bela.local: NE10 0.9.10\n", "sha256"), None);
    assert_eq!(recorded_value("sha256: abc123\n", "sha256"), Some("abc123".to_owned()));
}

#[test]
fn the_first_line_with_the_key_decides() {
    let source = "origin: somewhere\nbuild-id: 0123abcd \nbuild-id: later\n";
    assert_eq!(recorded_value(source, "build-id"), Some("0123abcd".to_owned()));
    assert_eq!(recorded_value(source, "origin"), Some("somewhere".to_owned()));
    assert_eq!(recorded_value(source, "missing"), None);
}

#[test]
fn the_default_board_is_the_one_the_scripts_use() {
    assert_eq!(DEFAULT_HOST, "root@bela.local");
}

#[test]
fn a_board_answer_is_trimmed_and_an_empty_one_is_none() {
    assert_eq!(board_answer("  abc123\n"), Some("abc123".to_owned()));
    assert_eq!(board_answer(" \n\t"), None);
    assert_eq!(board_answer(""), None);
}

#[test]
fn only_two_values_that_were_read_and_differ_are_drift() {
    let value = |s: &str| Some(s.to_owned());
    assert_eq!(compare_identity(&value("a"), &value("a")), Identity::Same);
    assert_eq!(compare_identity(&value("a"), &value("b")), Identity::Drifted);
    assert_eq!(compare_identity(&None, &value("b")), Identity::NotRecorded);
    assert_eq!(compare_identity(&value("a"), &None), Identity::NoAnswer);
}

#[test]
fn the_tally_decides_the_exit_status_and_the_advice() {
    let mut tally = DriftTally::new();
    assert_eq!(tally.file(true, true), Comparison::Same);
    assert_eq!(tally.exit_code(), 0, "every file matched");
    assert!(!tally.advise_reprobe() && !tally.advise_pruning());

    assert_eq!(tally.file(true, false), Comparison::Drift);
    assert_eq!(tally.file(false, false), Comparison::Missing);
    tally.library(2);
    assert_eq!(
        tally,
        DriftTally { drifted: 4, missing: 1, libraries_rebuilt: 2 },
        "a missing file and each differing identity value are drifts too"
    );
    assert_eq!(tally.exit_code(), 1);
    assert!(tally.advise_reprobe(), "a library was rebuilt");
    assert!(tally.advise_pruning(), "a file is gone from the board");
}
