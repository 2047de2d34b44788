use std::io::Cursor;

use wcr::counter::{count, CountError, FileInfo};
use wcr::report::{diagnostic_line, format_field, get_args, Args, ArgsError, Tally};

fn args(lines: bool, words: bool, bytes: bool, chars: bool) -> Args {
    Args { files: vec!["-".to_string()], lines, words, bytes, chars }
}

fn count_str(text: &str, name: &str) -> FileInfo {
    count(Cursor::new(text.as_bytes().to_vec()), name.to_string()).unwrap()
}

#[test]
fn test_count() {
    let name = "test".to_string();
    let text = "I don't want the world. I just want your half.\r\n";
    let info = count(Cursor::new(text), name);

    assert!(info.is_ok());
    let expected = FileInfo::new("test".to_string(), 1, 10, 48, 48);
    assert_eq!(info.unwrap(), expected);
}

#[test]
fn test_format_field() {
    assert_eq!(format_field(false, 1), "");
    assert_eq!(format_field(true, 3), "       3");
    assert_eq!(format_field(true, 10), "      10");
}

#[test]
fn empty_stream_counts_zero() {
    assert_eq!(count_str("", "empty"), FileInfo::new("empty".to_string(), 0, 0, 0, 0));
}

#[test]
fn ascii_text_has_as_many_bytes_as_chars() {
    let info = count_str("one two\n\tthree  four \nfive", "a");
    assert_eq!(info, FileInfo::new("a".to_string(), 3, 5, 26, 26));
}

#[test]
fn multibyte_text_has_more_bytes_than_chars() {
    // "é" takes two bytes, "日本" three each, "😀" four.
    let info = count_str("é 日本\n😀\n", "u");
    assert_eq!(info, FileInfo::new("u".to_string(), 2, 3, 15, 7));
}

#[test]
fn counts_stay_consistent() {
    for text in ["", "\n", "\n\n\n", "  ", "a", "a b\nc", " x \r\n y\u{a0}z\u{3000}w\n"] {
        let info = count_str(text, "t");
        assert!(info.num_words <= info.num_chars);
        assert!(info.num_chars <= info.num_bytes);
        assert!(info.num_lines <= info.num_bytes);
    }
}

#[test]
fn unterminated_last_line_counts() {
    assert_eq!(count_str("abc", "t"), FileInfo::new("t".to_string(), 1, 1, 3, 3));
    assert_eq!(count_str("a\nb", "t"), FileInfo::new("t".to_string(), 2, 2, 3, 3));
}

#[test]
fn unicode_whitespace_separates_words() {
    let info = count_str("a\u{a0}b\u{2003}c\u{3000}d", "t");
    assert_eq!(info.num_words, 4);
}

#[test]
fn sources_add_up_to_their_concatenation() {
    let parts = ["one two\n", "\n", "three\nfour five six\n", "seven"];
    let mut tally = Tally::new();
    for p in parts {
        assert!(tally.add(&count_str(p, "p")));
    }
    let whole = count_str(&parts.concat(), "w");
    let total = tally.total(parts.len()).unwrap();
    assert_eq!(total, FileInfo::new("total".to_string(), whole.num_lines, whole.num_words, whole.num_bytes, whole.num_chars));
}

#[test]
fn invalid_utf8_is_a_read_error() {
    let r = count(Cursor::new(vec![b'a', b'\n', 0xff, 0xfe, b'\n']), "bad".to_string());
    assert!(matches!(r, Err(CountError::Read(_))));
}

#[test]
fn no_fields_shown_gives_empty_fields() {
    let info = FileInfo::new("-".to_string(), 3, 4, 20, 20);
    assert_eq!(info.to_line(&args(false, false, false, false)), "");
}

#[test]
fn line_shows_selected_fields_and_name() {
    let info = FileInfo::new("notes.txt".to_string(), 3, 10, 1234, 1200);
    assert_eq!(info.to_line(&args(true, true, true, false)), "       3      10    1234 notes.txt");
    assert_eq!(info.to_line(&args(false, false, false, true)), "    1200 notes.txt");
    assert_eq!(info.to_line(&args(true, false, false, false)), "       3 notes.txt");
}

#[test]
fn stdin_record_has_no_name() {
    let info = FileInfo::new("-".to_string(), 1, 2, 12, 12);
    assert_eq!(info.to_line(&args(true, true, true, false)), "       1       2      12");
}

#[test]
fn wide_value_is_not_cut() {
    assert_eq!(format_field(true, 123456789), "123456789");
    assert_eq!(format_field(true, 0), "       0");
}

#[test]
fn no_flags_defaults_to_lines_words_bytes() {
    let a = get_args(args(false, false, false, false)).unwrap();
    assert!(a.lines && a.words && a.bytes && !a.chars);
    assert_eq!(a.files, vec!["-".to_string()]);
}

#[test]
fn given_flags_are_kept() {
    let a = get_args(args(false, true, false, true)).unwrap();
    assert!(!a.lines && a.words && !a.bytes && a.chars);
}

#[test]
fn bytes_with_chars_is_refused() {
    assert_eq!(get_args(args(true, false, true, true)).unwrap_err(), ArgsError::BytesAndChars);
}

#[test]
fn failed_source_then_counted_source() {
    let flags = get_args(args(false, false, false, false)).unwrap();
    let mut tally = Tally::new();
    let mut diagnostics = Vec::new();
    let mut out = Vec::new();
    diagnostics.push(diagnostic_line("missing.txt", "No such file or directory (os error 2)"));
    let info = count_str("hello world\n", "present.txt");
    out.push(info.to_line(&flags));
    assert!(tally.add(&info));
    let total = tally.total(2).unwrap();
    out.push(total.to_line(&flags));
    assert_eq!(diagnostics, vec!["missing.txt: No such file or directory (os error 2)".to_string()]);
    assert_eq!(out, vec![
        "       1       2      12 present.txt".to_string(),
        "       1       2      12 total".to_string(),
    ]);
}

#[test]
fn single_source_has_no_total() {
    let mut tally = Tally::new();
    assert!(tally.add(&count_str("x\n", "a")));
    assert!(tally.total(1).is_none());
    assert!(tally.total(0).is_none());
}

#[test]
fn tally_refuses_overflow() {
    let mut tally = Tally::new();
    let big = FileInfo::new("big".to_string(), 1, 1, usize::MAX, 1);
    assert!(tally.add(&big));
    let before = Tally { num_lines: tally.num_lines, num_words: tally.num_words, num_bytes: tally.num_bytes, num_chars: tally.num_chars };
    assert!(!tally.add(&FileInfo::new("one".to_string(), 1, 1, 1, 1)));
    assert_eq!(tally, before);
}

#[test]
fn add_line_adds_one_line() {
    let mut info = FileInfo::new("f".to_string(), 2, 3, 20, 18);
    assert!(info.add_line("  héllo, wörld\n"));
    assert_eq!(info, FileInfo::new("f".to_string(), 3, 5, 37, 33));
}

#[test]
fn add_line_refuses_overflow() {
    let mut info = FileInfo::new("f".to_string(), 1, 1, usize::MAX - 2, 5);
    assert!(!info.add_line("abc\n"));
    assert_eq!(info, FileInfo::new("f".to_string(), 1, 1, usize::MAX - 2, 5));
    assert!(info.add_line("ab"));
    assert_eq!(info, FileInfo::new("f".to_string(), 2, 2, usize::MAX, 7));
}
