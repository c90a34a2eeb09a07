use plex_m3u::lines::next_line;
use plex_m3u::m3u;
use plex_m3u::m3u::{Item, Metadata, TrackData, M3U};
use plex_m3u::number::{decimal_string, parse_u32};
use plex_m3u::rewrite::replace_chars;
use plex_m3u::text::{chars_of, string_from};
use std::io::BufRead;

/// A small generator of numbers, the same on every run.
struct Numbers(u64);

impl Numbers {
    fn next(&mut self) -> u64 {
        self.0 = self
            .0
            .wrapping_mul(6364136223846793005)
            .wrapping_add(1442695040888963407);
        self.0 >> 33
    }

    fn below(&mut self, n: usize) -> usize {
        (self.next() % n as u64) as usize
    }

    fn text(&mut self, alphabet: &[char], longest: usize) -> String {
        let length = self.below(longest + 1);
        (0..length)
            .map(|_| alphabet[self.below(alphabet.len())])
            .collect()
    }
}

#[test]
fn sweep_of_replace_against_std() {
    let mut numbers = Numbers(1);
    let alphabet = ['a', 'b', '/', 'é'];
    for _ in 0..20000 {
        let s = numbers.text(&alphabet, 12);
        let from = numbers.text(&alphabet, 3);
        let to = numbers.text(&alphabet, 3);
        let ours: String = replace_chars(&chars_of(&s), &chars_of(&from), &chars_of(&to))
            .into_iter()
            .collect();
        assert_eq!(ours, s.replace(&from, &to), "{:?}", (s, from, to));
    }
}

#[test]
fn sweep_of_numbers_against_std() {
    let mut numbers = Numbers(2);
    let alphabet = ['0', '1', '4', '9', '+', '-', ' ', 'x'];
    for _ in 0..20000 {
        let s = numbers.text(&alphabet, 12);
        let v = chars_of(&s);
        assert_eq!(parse_u32(&v, 0, v.len()), s.parse::<u32>().ok(), "{:?}", s);
        let n = numbers.next() as u32;
        let written = decimal_string(n);
        assert_eq!(written, n.to_string());
        let w = chars_of(&written);
        assert_eq!(parse_u32(&w, 0, w.len()), Some(n));
    }
}

#[test]
fn sweep_of_lines_against_a_buffered_reader() {
    let mut numbers = Numbers(3);
    let alphabet = ['a', '#', '\n', '\r', 'ü'];
    for _ in 0..20000 {
        let text = numbers.text(&alphabet, 16);
        let v = chars_of(&text);
        let mut ours = Vec::new();
        let mut start = 0;
        while start < v.len() {
            let bounds = next_line(&v, start);
            ours.push(string_from(&v, start, bounds.end));
            start = bounds.next;
        }
        let expected: Vec<String> = std::io::Cursor::new(text.as_bytes())
            .lines()
            .map(|line| line.unwrap())
            .collect();
        assert_eq!(ours, expected, "{:?}", text);
    }
}

fn value(numbers: &mut Numbers) -> String {
    let alphabet = ['a', 'B', ':', '#', ' ', '\r', '/', '_', 'ñ', '7'];
    let mut text = numbers.text(&alphabet, 8);
    while text.ends_with('\r') {
        text.pop();
    }
    text
}

fn name(numbers: &mut Numbers) -> String {
    let alphabet = ['E', 'X', 'T', '_', 'a', '#', ' ', '\r', 'ñ'];
    format!("EXT{}", numbers.text(&alphabet, 6))
}

fn path(numbers: &mut Numbers) -> String {
    loop {
        let text = value(numbers);
        if !text.starts_with('#') {
            return text;
        }
    }
}

#[test]
fn sweep_of_round_trips() {
    let mut numbers = Numbers(4);
    for _ in 0..5000 {
        let mut metadata = Vec::new();
        for _ in 0..numbers.below(4) {
            metadata.push(match numbers.below(4) {
                0 => Metadata::RatingKey(numbers.next() as u32),
                1 => Metadata::Title(value(&mut numbers)),
                2 => Metadata::RewriteFrom(value(&mut numbers)),
                _ => Metadata::RewriteTo(value(&mut numbers)),
            });
        }
        let mut tracks = Vec::new();
        for _ in 0..numbers.below(4) {
            let mut tags = Vec::new();
            for _ in 0..numbers.below(4) {
                tags.push(match numbers.below(3) {
                    0 => TrackData::Key(value(&mut numbers)),
                    1 => TrackData::FilePath(value(&mut numbers)),
                    _ => TrackData::ExtM3u(name(&mut numbers), value(&mut numbers)),
                });
            }
            tracks.push(Item::new(path(&mut numbers), tags));
        }
        let document = M3U::new(tracks, metadata);
        let text = m3u::write(&document);
        assert_eq!(m3u::read(&text), Ok(document), "{:?}", text);
    }
}
