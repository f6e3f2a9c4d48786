use schemagen::license::MIT_LICENSE;
use schemagen::lines::split_lines;

#[test]
fn empty_text_has_no_line() {
    assert_eq!(split_lines(""), Vec::<String>::new());
}

#[test]
fn line_feed_ends_a_line() {
    assert_eq!(split_lines("a\nb\n"), vec!["a", "b"]);
    assert_eq!(split_lines("\n"), vec![""]);
    assert_eq!(split_lines("\n\n"), vec!["", ""]);
}

#[test]
fn last_line_needs_no_line_feed() {
    assert_eq!(split_lines("a\nb"), vec!["a", "b"]);
    assert_eq!(split_lines("a"), vec!["a"]);
}

#[test]
fn empty_lines_are_kept() {
    assert_eq!(split_lines("a\n\nb\n"), vec!["a", "", "b"]);
    assert_eq!(split_lines("\na"), vec!["", "a"]);
}

#[test]
fn carriage_return_before_line_feed_is_dropped() {
    assert_eq!(split_lines("lorem\nipsum\r\ndolor"), vec!["lorem", "ipsum", "dolor"]);
    assert_eq!(split_lines("\r\n"), vec![""]);
    assert_eq!(split_lines("a\r\n\r\nb\r\n"), vec!["a", "", "b"]);
}

#[test]
fn other_carriage_returns_are_kept() {
    assert_eq!(split_lines("a\rb\n"), vec!["a\rb"]);
    assert_eq!(split_lines("a\r"), vec!["a\r"]);
    assert_eq!(split_lines("\r"), vec!["\r"]);
    assert_eq!(split_lines("a\r\r\nb"), vec!["a\r", "b"]);
    assert_eq!(split_lines("\r\r"), vec!["\r\r"]);
    assert_eq!(split_lines("\ra\n\r"), vec!["\ra", "\r"]);
}

#[test]
fn lines_are_what_std_reads() {
    for text in ["", "a", "a\n", "a\r\n", "a\n\nb", "a\r\rb\r\n\r", "\n\r\n\r", MIT_LICENSE] {
        let expected: Vec<String> =
            std::io::BufRead::lines(text.as_bytes()).map(|line| line.unwrap()).collect();
        assert_eq!(split_lines(text), expected, "{text:?}");
    }
}

#[test]
fn license_has_seventeen_lines() {
    let lines = split_lines(MIT_LICENSE);
    assert_eq!(lines.len(), 17);
    assert_eq!(
        lines[0],
        "Permission is hereby granted, free of charge, to any person obtaining a copy"
    );
    assert_eq!(lines[6], "");
    assert_eq!(lines[9], "");
    assert_eq!(lines[16], "IN THE SOFTWARE.");
}
