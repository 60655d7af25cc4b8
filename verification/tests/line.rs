use spinners::line::{plain_line, stop_line, timed_line};

#[test]
fn plain_line_is_frame_blank_message() {
    assert_eq!(plain_line("⠋", "Loading"), "⠋ Loading".as_bytes());
    assert_eq!(plain_line("|", "a b"), b"| a b");
}

#[test]
fn plain_line_of_nothing_is_one_blank() {
    assert_eq!(plain_line("", ""), b" ");
}

#[test]
fn timed_line_holds_return_frame_field_unit_tab_message() {
    assert_eq!(
        timed_line("⠋", "Loading", 1, 234_000_000),
        "\r⠋     1.234 s\tLoading".as_bytes()
    );
}

#[test]
fn timed_line_of_nothing() {
    assert_eq!(timed_line("", "", 0, 0), b"\r     0.000 s\t");
}

#[test]
fn stop_line_with_message_and_symbol() {
    assert_eq!(stop_line(Some("Done"), Some("✔")), "✔ Done\n".as_bytes());
}

#[test]
fn stop_line_with_message_only() {
    assert_eq!(stop_line(Some("Done"), None), b"Done\n");
}

#[test]
fn stop_line_without_message_is_a_line_break() {
    assert_eq!(stop_line(None, None), b"\n");
}

#[test]
fn stop_line_drops_a_symbol_without_message() {
    assert_eq!(stop_line(None, Some("✔")), b"\n");
}

#[test]
fn stop_line_keeps_an_empty_message() {
    assert_eq!(stop_line(Some(""), Some("✔")), "✔ \n".as_bytes());
    assert_eq!(stop_line(Some(""), None), b"\n");
}
