use bela::print::{message_bytes, Message, MESSAGE_CAPACITY};

fn format(text: &str, newline: bool) -> String {
    String::from_utf8(message_bytes(text, newline))
        .expect("messages are truncated on char boundaries, so they stay valid UTF-8")
}

#[test]
fn formats_arguments() {
    assert_eq!(format(&format!("x = {}", 42), false), "x = 42");
}

#[test]
fn appends_a_newline_when_asked() {
    assert_eq!(format("done", true), "done\n");
}

#[test]
fn a_message_of_exactly_the_capacity_is_left_alone() {
    let text = "a".repeat(MESSAGE_CAPACITY);
    assert_eq!(format(&text, false), text);
}

#[test]
fn a_message_over_the_capacity_is_marked_as_truncated() {
    let formatted = format(&"a".repeat(MESSAGE_CAPACITY + 10), false);
    assert_eq!(formatted.len(), MESSAGE_CAPACITY);
    assert!(formatted.ends_with("..."), "truncation should be visible: {formatted}");
}

#[test]
fn a_truncated_line_still_ends_with_a_newline() {
    let formatted = format(&"a".repeat(MESSAGE_CAPACITY + 10), true);
    assert_eq!(formatted.len(), MESSAGE_CAPACITY);
    assert!(formatted.ends_with("...\n"), "{formatted}");
}

#[test]
fn a_newline_that_does_not_fit_truncates_the_text() {
    let formatted = format(&"a".repeat(MESSAGE_CAPACITY), true);
    assert_eq!(formatted.len(), MESSAGE_CAPACITY);
    assert!(formatted.ends_with("...\n"), "the newline has to displace text: {formatted}");
}

#[test]
fn multi_byte_characters_are_not_split() {
    let text = "あ".repeat(MESSAGE_CAPACITY / 3 + 1);
    let formatted = format(&text, false);
    assert!(formatted.ends_with("..."), "expected a truncated message: {formatted}");
    let characters = formatted.trim_end_matches("...").chars().count();
    assert_eq!(characters * 3, formatted.len() - 3);
}

#[test]
fn a_message_ends_at_an_interior_nul() {
    assert_eq!(format("before\0after", false), "before");
}

#[test]
fn percent_signs_are_not_format_specifiers() {
    assert_eq!(format("100%s of it", false), "100%s of it");
}

#[test]
fn formatting_stops_once_the_buffer_is_full() {
    let mut message = Message::new();
    for _ in 0..(MESSAGE_CAPACITY + 5) {
        message.append(" ");
        if message.is_truncated() {
            break;
        }
    }
    assert!(message.is_truncated());
    let bytes = message.finish(false);
    assert_eq!(bytes.len(), MESSAGE_CAPACITY);
    assert!(bytes.ends_with(b"..."));
}
