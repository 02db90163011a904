use rust_radio::playlist::{parse_m3u, parse_pls};
use rust_radio::text::{chars_of, contains, split_lines, starts_with, trim_chars};

/// A small deterministic generator of awkward texts.
struct Gen(u64);

impl Gen {
    fn next(&mut self) -> u64 {
        self.0 ^= self.0 << 13;
        self.0 ^= self.0 >> 7;
        self.0 ^= self.0 << 17;
        self.0
    }

    fn text(&mut self, alphabet: &[&str], max_len: u64) -> String {
        let n = self.next() % (max_len + 1);
        let mut s = String::new();
        for _ in 0..n {
            s.push_str(alphabet[(self.next() % alphabet.len() as u64) as usize]);
        }
        s
    }
}

const PIECES: &[&str] = &[
    "a", "B", "\n", "\r", "\r\n", " ", "\t", "\u{A0}", "\u{3000}", "\u{FEFF}", "#", "=", ",",
    "[", "File", "file", "TITLE", "Title", "1", "2", "http://x", "#EXTINF:", "\u{131}", "\u{FB01}",
    "\u{e9}", "\u{1F600}",
];

/// Stations of an M3U text, read with `str` methods directly.
fn m3u_with_str(content: &str) -> Vec<(String, String)> {
    let mut out = Vec::new();
    let mut next_name = String::new();
    for line in content.lines() {
        let t = line.trim();
        if t.starts_with("#EXTINF:") {
            if let Some(c) = t.find(',') {
                next_name = t[c + 1..].trim().to_string();
            }
        } else if !t.is_empty() && !t.starts_with('#') {
            let name = if next_name.is_empty() { t.to_string() } else { next_name.clone() };
            out.push((name, t.to_string()));
            next_name.clear();
        }
    }
    out
}

/// Stations of a PLS text, read with `str` methods directly.
fn pls_with_str(content: &str) -> Vec<(String, String)> {
    let mut files: Vec<(String, String)> = Vec::new();
    let mut titles: std::collections::HashMap<String, String> = std::collections::HashMap::new();
    let content = content.trim_start_matches('\u{FEFF}').replace("\r\n", "\n");
    for line in content.lines() {
        let t = line.trim();
        if t.is_empty() || t.starts_with('[') || t.starts_with('#') {
            continue;
        }
        let upper = t.to_uppercase();
        if let Some(eq) = t.find('=') {
            if upper.starts_with("FILE") {
                let num = t[4..eq].trim().to_string();
                let url = t[eq + 1..].trim().to_string();
                if !url.is_empty() {
                    files.push((num, url));
                }
            } else if upper.starts_with("TITLE") {
                let num = t[5..eq].trim().to_string();
                let name = t[eq + 1..].trim().to_string();
                if !name.is_empty() {
                    titles.insert(num, name);
                }
            }
        }
    }
    files
        .into_iter()
        .map(|(num, url)| (titles.get(&num).cloned().unwrap_or_else(|| url.clone()), url))
        .collect()
}

#[test]
fn lines_match_str_lines() {
    for s in ["", "a", "a\n", "a\r\n", "a\r", "a\r\r\n", "\n\n", "\r\n\r", "x\n\ry", "\r"] {
        let got: Vec<String> = split_lines(&chars_of(s)).iter().map(|l| l.iter().collect()).collect();
        let want: Vec<String> = s.lines().map(|l| l.to_string()).collect();
        assert_eq!(got, want, "{:?}", s);
    }
    let mut g = Gen(0x9E3779B97F4A7C15);
    for _ in 0..2000 {
        let s = g.text(PIECES, 12);
        let got: Vec<String> = split_lines(&chars_of(&s)).iter().map(|l| l.iter().collect()).collect();
        let want: Vec<String> = s.lines().map(|l| l.to_string()).collect();
        assert_eq!(got, want, "{:?}", s);
    }
}

#[test]
fn trim_matches_str_trim() {
    let mut g = Gen(12345);
    for _ in 0..2000 {
        let s = g.text(PIECES, 8);
        let got: String = trim_chars(&chars_of(&s)).iter().collect();
        assert_eq!(got, s.trim(), "{:?}", s);
    }
}

#[test]
fn prefix_and_substring_search() {
    let s = chars_of("#EXTINF:-1,Name");
    assert!(starts_with(&s, "#EXTINF:"));
    assert!(!starts_with(&s, "#EXTM3U"));
    assert!(starts_with(&s, ""));
    assert!(contains(&s, "Name"));
    assert!(contains(&s, ""));
    assert!(!contains(&s, "name"));
    assert!(!contains(&chars_of("ab"), "abc"));
}

#[test]
fn m3u_agrees_with_str_reading() {
    let mut g = Gen(777);
    for _ in 0..3000 {
        let s = g.text(PIECES, 16);
        let got: Vec<(String, String)> =
            parse_m3u(&s).into_iter().map(|st| (st.name, st.url_resolved)).collect();
        assert_eq!(got, m3u_with_str(&s), "{:?}", s);
    }
}

#[test]
fn pls_agrees_with_str_reading() {
    let mut g = Gen(4242);
    for _ in 0..3000 {
        let s = g.text(PIECES, 16);
        let got: Vec<(String, String)> =
            parse_pls(&s).into_iter().map(|st| (st.name, st.url_resolved)).collect();
        assert_eq!(got, pls_with_str(&s), "{:?}", s);
    }
}
