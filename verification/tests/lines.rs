use nix_forecast::lines::{lines, CARRIAGE_RETURN, LINE_FEED};

#[test]
fn text_without_a_line_feed_is_one_line() {
    assert_eq!(lines("one line"), vec!["one line"]);
    assert_eq!(lines(" "), vec![" "]);
}

#[test]
fn empty_text_has_no_lines() {
    assert_eq!(lines(""), Vec::<String>::new());
}

#[test]
fn line_feed_ends_a_line() {
    assert_eq!(lines("a\nb\nc"), vec!["a", "b", "c"]);
    assert_eq!(lines("a\nb\nc\n"), vec!["a", "b", "c"]);
    assert_eq!(lines("\n"), vec![""]);
    assert_eq!(lines("\n\n"), vec!["", ""]);
    assert_eq!(lines("\na"), vec!["", "a"]);
}

#[test]
fn carriage_return_in_front_of_a_line_feed_ends_the_line_with_it() {
    assert_eq!(lines("a\r\nb\r\n"), vec!["a", "b"]);
    assert_eq!(lines("\r\n"), vec![""]);
    assert_eq!(lines("a\r\r\n"), vec!["a\r"]);
}

#[test]
fn carriage_return_elsewhere_is_part_of_the_line() {
    assert_eq!(lines("a\rb\nc\r"), vec!["a\rb", "c\r"]);
    assert_eq!(lines("\r"), vec!["\r"]);
    assert_eq!(lines("\ra\n"), vec!["\ra"]);
}

#[test]
fn lines_keep_characters_of_several_bytes() {
    assert_eq!(lines("grüße\n日本語\r\n🦀"), vec!["grüße", "日本語", "🦀"]);
    assert_eq!(lines("é\n"), vec!["é"]);
    assert_eq!(lines("\u{85}\n\u{2028}"), vec!["\u{85}", "\u{2028}"]);
}

#[test]
fn lines_are_those_of_the_standard_library() {
    for text in [
        "",
        "\n",
        "\r",
        "\r\n",
        "\n\r",
        "a",
        "a\n",
        "a\r\n",
        "a\n\rb",
        "foo\nbar\n\r\nbaz\r",
        "/nix/store/a-x\n/nix/store/b-y.drv\n",
        "ä\r\nö\nü",
        "\r\r\n\r\n\n",
    ] {
        let expected: Vec<String> = text.lines().map(|line| line.to_string()).collect();
        assert_eq!(lines(text), expected, "{text:?}");
    }
}

#[test]
fn bytes_of_the_line_endings() {
    assert_eq!(LINE_FEED, b'\n');
    assert_eq!(CARRIAGE_RETURN, b'\r');
}
