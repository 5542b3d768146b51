use mcprotocol_rs::error::Error;
use mcprotocol_rs::json::Json;
use mcprotocol_rs::text::{
    chars_of, find, find_line_with, i64_to_string, parse_i64, string_of, trimmed, u64_to_string,
};
use mcprotocol_rs::transport::http::client::HttpClientConfig;
use mcprotocol_rs::transport::http::server::parse_client_id;

const ALPHABET: [char; 16] = [
    '\n', '\r', ' ', '\t', 'd', 'a', 't', ':', '0', '1', '9', '+', '-', '\u{a0}', '\u{3000}', 'é',
];

fn samples(count: usize, max_len: u64) -> Vec<String> {
    let mut state: u64 = 0x2545f4914f6cdd1d;
    let mut next = move || {
        state ^= state << 13;
        state ^= state >> 7;
        state ^= state << 17;
        state
    };
    let mut out = Vec::new();
    for _ in 0..count {
        let len = next() % (max_len + 1);
        let mut s = String::new();
        for _ in 0..len {
            s.push(ALPHABET[(next() % 16) as usize]);
        }
        out.push(s);
    }
    out
}

#[test]
fn characters_survive_the_conversions() {
    for s in samples(200, 12) {
        let v = chars_of(&s);
        assert_eq!(v, s.chars().collect::<Vec<char>>());
        assert_eq!(string_of(&v), s);
    }
}

#[test]
fn trimming_agrees_with_the_standard_library() {
    for s in samples(2000, 8) {
        let got: String = trimmed(&chars_of(&s)).into_iter().collect();
        assert_eq!(got, s.trim(), "{:?}", s);
    }
    for code in 0..=0x3100u32 {
        if let Some(c) = char::from_u32(code) {
            let s = format!("{}x{}", c, c);
            let got: String = trimmed(&chars_of(&s)).into_iter().collect();
            assert_eq!(got, s.trim(), "{:?}", c);
        }
    }
}

#[test]
fn line_search_agrees_with_the_standard_library() {
    for s in samples(3000, 10) {
        for prefix in ["", "d", "da", "a", "\r", " "] {
            let got = find_line_with(&chars_of(&s), &chars_of(prefix))
                .map(|l| l.into_iter().collect::<String>());
            let want = s.lines().find(|l| l.starts_with(prefix)).map(|l| l.to_string());
            assert_eq!(got, want, "{:?} {:?}", s, prefix);
        }
    }
}

#[test]
fn substring_search_agrees_with_the_standard_library() {
    for s in samples(3000, 10) {
        for needle in ["\n\n", "da", "", "a:", "é"] {
            let got = find(&chars_of(&s), &chars_of(needle));
            let want = s.find(needle).map(|byte| s[..byte].chars().count());
            assert_eq!(got, want, "{:?} {:?}", s, needle);
        }
    }
}

#[test]
fn unsigned_parsing_agrees_with_the_standard_library() {
    for s in samples(3000, 6) {
        assert_eq!(parse_client_id(&s), s.parse::<u64>().ok(), "{:?}", s);
    }
    for s in ["18446744073709551615", "18446744073709551616", "+18446744073709551615", "0000"] {
        assert_eq!(parse_client_id(s), s.parse::<u64>().ok(), "{:?}", s);
    }
}

#[test]
fn numerals_agree_with_the_standard_library() {
    let mut n: i64 = 1;
    for _ in 0..64 {
        for m in [n, -n, n - 1, n.wrapping_add(1), !n] {
            assert_eq!(i64_to_string(m), m.to_string());
            assert_eq!(parse_i64(&chars_of(&m.to_string())), Some(m));
            assert_eq!(u64_to_string(m as u64), (m as u64).to_string());
        }
        n = n.wrapping_mul(2);
    }
}

#[test]
fn integers_are_read_as_serde_json_reads_them() {
    for text in [
        "0", "-0", "1", "-1", "1.0", "1e0", "10", "9223372036854775807", "9223372036854775808",
        "-9223372036854775808", "-9223372036854775809", "18446744073709551615",
        "18446744073709551616", "0.5", "-1E2",
    ] {
        let ours = Json::parse(text).unwrap().as_i64();
        let theirs = serde_json::from_str::<serde_json::Value>(text).unwrap().as_i64();
        assert_eq!(ours, theirs, "{}", text);
    }
}

#[test]
fn header_characters_are_judged_one_by_one() {
    for code in 0..=0x250u32 {
        let c = char::from_u32(code).unwrap();
        let config = HttpClientConfig {
            base_url: String::new(),
            auth_token: Some(c.to_string()),
        };
        let allowed = c == '\t' || (code >= 32 && code != 127);
        match config.authorization() {
            Ok(Some(value)) => {
                assert!(allowed, "{:?}", c);
                assert_eq!(value, format!("Bearer {}", c));
            }
            Err(Error::Transport(_)) => assert!(!allowed, "{:?}", c),
            other => panic!("{:?}", other),
        }
    }
}
