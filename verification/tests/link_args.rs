use bela::link_args::{decode_link_args, encode_link_args, parse_count};

fn env(pairs: &[(&str, &str)]) -> Vec<(String, String)> {
    pairs.iter().map(|(name, value)| ((*name).to_owned(), (*value).to_owned())).collect()
}

#[test]
fn nothing_published_decodes_to_no_arguments() {
    assert_eq!(decode_link_args(&env(&[]), "DEP_BELA"), Vec::<String>::new());
}

#[test]
fn a_published_count_of_zero_also_decodes_to_none() {
    assert_eq!(
        decode_link_args(&env(&[("DEP_BELA_LINK_ARGS_COUNT", "0")]), "DEP_BELA"),
        Vec::<String>::new()
    );
}

#[test]
fn arguments_are_read_back_in_order() {
    assert_eq!(
        decode_link_args(
            &env(&[
                ("DEP_BELA_LINK_ARGS_COUNT", "2"),
                ("DEP_BELA_LINK_ARGS_0", "--sysroot=/opt/bela"),
                ("DEP_BELA_LINK_ARGS_1", "-Bfoo"),
            ]),
            "DEP_BELA",
        ),
        vec!["--sysroot=/opt/bela".to_owned(), "-Bfoo".to_owned()]
    );
}

#[test]
fn the_prefix_selects_which_dependency_is_read() {
    let pairs = env(&[
        ("DEP_BELA_LINK_ARGS_COUNT", "1"),
        ("DEP_BELA_LINK_ARGS_0", "-Wl,-rpath-link=/opt/bela/lib"),
        ("DEP_BELA_RELAY_LINK_ARGS_COUNT", "1"),
        ("DEP_BELA_RELAY_LINK_ARGS_0", "--sysroot=/opt/bela"),
    ]);
    assert_eq!(
        decode_link_args(&pairs, "DEP_BELA"),
        vec!["-Wl,-rpath-link=/opt/bela/lib".to_owned()]
    );
    assert_eq!(
        decode_link_args(&pairs, "DEP_BELA_RELAY"),
        vec!["--sysroot=/opt/bela".to_owned()]
    );
}

#[test]
fn a_missing_indexed_value_decodes_to_no_arguments_rather_than_a_partial_set() {
    assert_eq!(
        decode_link_args(
            &env(&[
                ("DEP_BELA_LINK_ARGS_COUNT", "2"),
                ("DEP_BELA_LINK_ARGS_0", "--sysroot=/opt/bela"),
            ]),
            "DEP_BELA",
        ),
        Vec::<String>::new()
    );
}

#[test]
fn encoding_what_was_decoded_reproduces_the_input() {
    let args = vec!["--sysroot=/opt/bela".to_owned(), "-Bfoo".to_owned()];
    assert_eq!(
        encode_link_args(&args),
        vec![
            ("LINK_ARGS_COUNT".to_owned(), "2".to_owned()),
            ("LINK_ARGS_0".to_owned(), "--sysroot=/opt/bela".to_owned()),
            ("LINK_ARGS_1".to_owned(), "-Bfoo".to_owned()),
        ]
    );
}

#[test]
fn what_is_encoded_under_a_prefix_decodes_back() {
    let args = vec!["-a".to_owned(), "-b".to_owned(), "-c".to_owned()];
    let published: Vec<(String, String)> = encode_link_args(&args)
        .into_iter()
        .map(|(key, value)| (format!("DEP_X_{key}"), value))
        .collect();
    assert_eq!(decode_link_args(&published, "DEP_X"), args);
}

#[test]
fn a_count_is_read_the_way_usize_reads_one() {
    assert_eq!(parse_count("12"), Some(12));
    assert_eq!(parse_count("+7"), Some(7));
    assert_eq!(parse_count(""), None);
    assert_eq!(parse_count("+"), None);
    assert_eq!(parse_count("1x"), None);
    assert_eq!(parse_count("-1"), None);
    assert_eq!(parse_count("99999999999999999999999"), None);
}
