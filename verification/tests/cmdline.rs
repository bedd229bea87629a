use bela::cmdline::{parse_result, Arguments};
use bela::error::Error;

#[test]
fn arguments_are_copied_in_order() {
    let arguments = Arguments::new(vec![
        b"my-app".to_vec(),
        b"--period".to_vec(),
        b"64".to_vec(),
        b"-v".to_vec(),
    ])
    .expect("no NUL bytes");
    assert_eq!(arguments.argc(), 4);
    assert_eq!(
        arguments.args().clone(),
        vec![b"my-app".to_vec(), b"--period".to_vec(), b"64".to_vec(), b"-v".to_vec()]
    );
}

#[test]
fn arguments_that_are_not_utf8_survive() {
    let arguments = Arguments::new(vec![
        b"my-app".to_vec(),
        b"--json-file".to_vec(),
        b"settings-\xff.json".to_vec(),
    ])
    .expect("no NUL bytes");
    assert_eq!(arguments.args()[2], b"settings-\xff.json".to_vec(), "the bytes have to reach C unchanged");
}

#[test]
fn an_argument_containing_a_nul_is_refused() {
    assert_eq!(
        Arguments::new(vec![b"my-app".to_vec(), b"--period\0 64".to_vec()]).err(),
        Some(Error::CommandLineNul),
        "a C string cannot carry it, and truncating would change what was asked for"
    );
}

#[test]
fn an_empty_list_is_empty() {
    let arguments = Arguments::new(Vec::new()).expect("no NUL bytes");
    assert_eq!(arguments.argc(), 0);
    assert!(arguments.args().is_empty());
}

#[test]
fn the_parser_stops_at_a_negative_answer() {
    assert_eq!(parse_result(-1), Ok(()));
    assert_eq!(parse_result(63), Err(Error::CommandLine(63)));
}
