use dsh_multiver::envcheck::major_version;
use dsh_multiver::text::{
    chars_of, contains_exec, decimal_exec, is_space_char, lines_exec, replace_char_exec, trimmed,
};
use dsh_multiver::versions::version_key_exec;
use dsh_multiver::window::window_label;

fn samples() -> Vec<String> {
    let base = [
        "", " ", "a", " a ", "\t\n a b \r\n", "x\ny", "x\r\ny\r\n", "x\n\ny\n", "\r", "a\rb\n",
        "\u{3000}全角\u{3000}", "\u{85}v\u{a0}", "v22.19.0", "1.2.3-beta.4", "0099", "..",
        "a'b\\c'", "Progress: resolved 1", "line\n", "\n", "\n\n", "版本 0.1.5\r\n",
        "99999999999999999999.1", "1.2.99999999999999999999", "[\"0.1.0\",\n\"0.2.0\"]",
    ];
    base.iter().map(|s| s.to_string()).collect()
}

#[test]
fn whitespace_matches_std() {
    for u in 0u32..0x110000 {
        if let Some(c) = char::from_u32(u) {
            assert_eq!(is_space_char(c), c.is_whitespace(), "char {:#x}", u);
        }
    }
}

#[test]
fn trim_matches_std() {
    for s in samples() {
        assert_eq!(trimmed(&s), s.trim());
    }
}

#[test]
fn lines_match_std() {
    for s in samples() {
        let ours: Vec<String> = lines_exec(&chars_of(&s)).iter().map(|l| l.iter().collect()).collect();
        let theirs: Vec<String> = s.lines().map(|l| l.to_string()).collect();
        assert_eq!(ours, theirs, "input {:?}", s);
    }
}

#[test]
fn replace_and_contains_match_std() {
    for s in samples() {
        assert_eq!(replace_char_exec(&s, '\'', "''"), s.replace('\'', "''"));
        assert_eq!(replace_char_exec(&s, '/', "\\"), s.replace('/', "\\"));
        for pat in ["", "a", "\n", "resolved", "0.", "版本"] {
            assert_eq!(contains_exec(&chars_of(&s), pat), s.contains(pat), "{:?} in {:?}", pat, s);
        }
    }
}

#[test]
fn decimal_matches_std() {
    for n in [0u64, 1, 9, 10, 11, 99, 100, 12345, 4294967296, u64::MAX - 1, u64::MAX] {
        assert_eq!(decimal_exec(n), n.to_string());
    }
}

fn key_by_std(s: &str) -> Vec<i64> {
    s.split(|c: char| !c.is_ascii_digit())
        .filter(|x| !x.is_empty())
        .filter_map(|x| x.parse::<i64>().ok())
        .collect()
}

fn major_by_std(s: &str) -> Option<u32> {
    let cleaned: String = s.chars().filter(|c| c.is_ascii_digit() || *c == '.').collect();
    cleaned.split('.').next()?.parse::<u32>().ok()
}

fn label_by_std(version: &str) -> String {
    let sanitized: String = version
        .chars()
        .map(|c| if c.is_ascii_alphanumeric() || matches!(c, '-' | '/' | ':' | '_') { c } else { '_' })
        .collect();
    format!("dsh-{}", sanitized)
}

#[test]
fn version_parts_match_std() {
    for s in samples() {
        assert_eq!(version_key_exec(&s), key_by_std(&s), "key of {:?}", s);
        assert_eq!(major_version(&s), major_by_std(&s), "major of {:?}", s);
        assert_eq!(window_label(&s), label_by_std(&s), "label of {:?}", s);
    }
}
