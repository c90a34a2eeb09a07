use plex_m3u::lines::next_line;
use plex_m3u::number::{char_of, decimal_string, digit_of, parse_u32, push_decimal};
use plex_m3u::rewrite::{replace_chars, rewrite};
use plex_m3u::text::{
    chars_of, extend_chars, find_char, range_is, same_text, string_from, strip_prefix_at,
};
use std::io::BufRead;

fn chars(s: &str) -> Vec<char> {
    s.chars().collect()
}

fn lines_of(text: &str) -> Vec<String> {
    let v = chars_of(text);
    let mut lines = Vec::new();
    let mut start = 0;
    while start < v.len() {
        let bounds = next_line(&v, start);
        lines.push(string_from(&v, start, bounds.end));
        start = bounds.next;
    }
    lines
}

fn parse(s: &str) -> Option<u32> {
    let v = chars(s);
    parse_u32(&v, 0, v.len())
}

fn replace(s: &str, from: &str, to: &str) -> String {
    replace_chars(&chars(s), &chars(from), &chars(to))
        .into_iter()
        .collect()
}

#[test]
fn chars_of_and_string_from() {
    assert_eq!(chars_of(""), Vec::<char>::new());
    assert_eq!(chars_of("añ♫"), vec!['a', 'ñ', '♫']);
    let v = chars("hello, wörld");
    assert_eq!(string_from(&v, 0, v.len()), "hello, wörld");
    assert_eq!(string_from(&v, 7, 12), "wörld");
    assert_eq!(string_from(&v, 3, 3), "");
}

#[test]
fn extend_chars_appends() {
    let mut v = chars("ab");
    extend_chars(&mut v, &chars("cd"));
    assert_eq!(v, chars("abcd"));
    extend_chars(&mut v, &chars(""));
    assert_eq!(v, chars("abcd"));
}

#[test]
fn range_is_compares_exactly() {
    let v = chars("xTITLE:y");
    assert!(range_is(&v, 1, 6, "TITLE"));
    assert!(!range_is(&v, 1, 5, "TITLE"));
    assert!(!range_is(&v, 1, 7, "TITLE"));
    assert!(!range_is(&v, 0, 5, "TITLE"));
    assert!(range_is(&v, 2, 2, ""));
    assert!(!range_is(&v, 2, 3, ""));
}

#[test]
fn same_text_compares_exactly() {
    assert!(same_text("1", "1"));
    assert!(same_text("", ""));
    assert!(!same_text("1", "11"));
    assert!(!same_text("11", "1"));
    assert!(!same_text("1", "l"));
}

#[test]
fn strip_prefix_at_finds_where_the_rest_starts() {
    let v = chars("..#PLEXM3U_KEY:v");
    assert_eq!(strip_prefix_at(&v, 2, v.len(), "#PLEXM3U_"), Some(11));
    assert_eq!(strip_prefix_at(&v, 2, 11, "#PLEXM3U_"), Some(11));
    assert_eq!(strip_prefix_at(&v, 2, 10, "#PLEXM3U_"), None);
    assert_eq!(strip_prefix_at(&v, 0, v.len(), "#PLEXM3U_"), None);
    assert_eq!(strip_prefix_at(&v, 5, 5, ""), Some(5));
}

#[test]
fn find_char_finds_the_first() {
    let v = chars("a:b:c");
    assert_eq!(find_char(&v, 0, 5, ':'), 1);
    assert_eq!(find_char(&v, 2, 5, ':'), 3);
    assert_eq!(find_char(&v, 4, 5, ':'), 5);
    assert_eq!(find_char(&v, 0, 1, ':'), 1);
    assert_eq!(find_char(&v, 2, 2, ':'), 2);
}

#[test]
fn decimal_is_what_std_prints() {
    for n in [
        0u32, 1, 9, 10, 11, 42, 99, 100, 101, 1000, 65535, 65536, 135542, 999999999, 1000000000,
        4294967294, 4294967295,
    ] {
        assert_eq!(decimal_string(n), n.to_string());
    }
    for n in [0u64, 7, 4294967296, 18446744073709551615] {
        let mut out = String::from("n=");
        push_decimal(&mut out, n);
        assert_eq!(out, format!("n={}", n));
    }
}

#[test]
fn digits() {
    assert_eq!(digit_of('0'), Some(0));
    assert_eq!(digit_of('9'), Some(9));
    assert_eq!(digit_of('/'), None);
    assert_eq!(digit_of(':'), None);
    assert_eq!(digit_of('٣'), None);
    assert_eq!(char_of(0), '0');
    assert_eq!(char_of(5), '5');
    assert_eq!(char_of(9), '9');
}

#[test]
fn parse_u32_reads_what_std_reads() {
    for s in [
        "",
        "+",
        "-",
        "0",
        "+0",
        "-0",
        "00",
        "7",
        "+7",
        "++7",
        "+-7",
        "-7",
        "42",
        "042",
        "0000000000000000000000042",
        "4294967295",
        "4294967296",
        "4294967300",
        "42949672950",
        "99999999999999999999999999",
        "+4294967295",
        "00004294967295",
        "00004294967296",
        " 42",
        "42 ",
        "4 2",
        "4_2",
        "4.2",
        "0x10",
        "1e3",
        "٤٢",
        "４２",
        "42\n",
        "12a",
        "a12",
        "4294967295a",
        "4294967296a",
    ] {
        assert_eq!(parse(s), s.parse::<u32>().ok(), "{:?}", s);
    }
    assert_eq!(parse("42"), Some(42));
    assert_eq!(parse("4294967296"), None);
}

#[test]
fn parse_u32_reads_a_range() {
    let v = chars("KEY:123:rest");
    assert_eq!(parse_u32(&v, 4, 7), Some(123));
    assert_eq!(parse_u32(&v, 4, 8), None);
    assert_eq!(parse_u32(&v, 5, 6), Some(2));
    assert_eq!(parse_u32(&v, 5, 5), None);
}

#[test]
fn replace_is_what_std_replaces() {
    for (s, from, to) in [
        ("/old/music/song.mp3", "/old/", "/new/"),
        ("/old/music/old/song.mp3", "/old", ""),
        ("/old//old//old/", "/old/", "/n/"),
        ("aaaa", "aa", "b"),
        ("aaaaa", "aa", "b"),
        ("aaa", "a", "aa"),
        ("abc", "abc", ""),
        ("abc", "abcd", "x"),
        ("abc", "", "-"),
        ("", "", "-"),
        ("", "a", "b"),
        ("", "", ""),
        ("abc", "", ""),
        ("abcabc", "c", "cc"),
        ("ababab", "aba", "x"),
        ("a.b.c", ".", "[.]"),
        ("a*b", "*", "+"),
        ("ñandú ñ", "ñ", "n"),
        ("x", "x", "x"),
        ("xyz", "z", "zz"),
        ("xyz", "yz", ""),
        ("mississippi", "ssi", "SSI"),
        ("mississippi", "issi", "-"),
    ] {
        assert_eq!(replace(s, from, to), s.replace(from, to), "{:?}", (s, from, to));
    }
    assert_eq!(replace("abc", "", "-"), "-a-b-c-");
}

#[test]
fn rewrite_idempotence_boundary() {
    let from = Some("/old/".to_string());
    let to = Some("/new/".to_string());
    assert_eq!(
        rewrite("/old/music/song.mp3", &from, &to),
        "/new/music/song.mp3"
    );
    assert_eq!(
        rewrite("/old/music/song.mp3", &None, &None),
        "/old/music/song.mp3"
    );
    assert_eq!(
        rewrite("/old/music/song.mp3", &None, &to),
        "/old/music/song.mp3"
    );
    assert_eq!(rewrite("/old/music/song.mp3", &from, &None), "music/song.mp3");
    assert_eq!(
        rewrite("/new/music/song.mp3", &from, &to),
        "/new/music/song.mp3"
    );
    assert_eq!(rewrite("/old/a/old/b", &from, &to), "/new/a/new/b");
}

#[test]
fn lines_are_what_a_buffered_reader_gives() {
    for text in [
        "",
        "\n",
        "\r\n",
        "\r",
        "a",
        "a\n",
        "a\r\n",
        "a\r",
        "a\n\nb",
        "a\n\n",
        "a\r\r\nb\r",
        "\ra\n",
        "a\rb\nc",
        "#EXTM3U\nx\ny\n",
        "#EXTM3U\r\nx\r\ny",
        "\n\n\n",
        "\r\n\r\n",
        "é\nü\r\n♫",
    ] {
        let expected: Vec<String> = std::io::Cursor::new(text.as_bytes())
            .lines()
            .map(|line| line.unwrap())
            .collect();
        assert_eq!(lines_of(text), expected, "{:?}", text);
    }
}

#[test]
fn next_line_gives_the_bounds() {
    let v = chars("ab\r\ncd\n\nef");
    let first = next_line(&v, 0);
    assert_eq!((first.end, first.next), (2, 4));
    let second = next_line(&v, 4);
    assert_eq!((second.end, second.next), (6, 7));
    let third = next_line(&v, 7);
    assert_eq!((third.end, third.next), (7, 8));
    let last = next_line(&v, 8);
    assert_eq!((last.end, last.next), (10, 10));
}
