use duniter_node_manager::search::{contains_chars, count_of, find_char};
use duniter_node_manager::text::{chars_of, push_decimal};
use duniter_node_manager::trim::{is_whitespace_char, trimmed};

fn decimal_string(n: u32) -> String {
    let mut s = String::new();
    push_decimal(&mut s, n);
    s
}

fn contains_text(hay: &str, needle: &str) -> bool {
    contains_chars(&chars_of(hay), &chars_of(needle))
}

#[test]
fn decimal_of_small_and_large_numbers() {
    assert_eq!(decimal_string(0), "0");
    assert_eq!(decimal_string(7), "7");
    assert_eq!(decimal_string(10), "10");
    assert_eq!(decimal_string(255), "255");
    assert_eq!(decimal_string(65535), "65535");
    assert_eq!(decimal_string(1_000_000), "1000000");
    assert_eq!(decimal_string(u32::MAX), "4294967295");
}

#[test]
fn decimal_agrees_with_the_standard_library() {
    let mut n: u32 = 0;
    for _ in 0..5000 {
        assert_eq!(decimal_string(n), n.to_string());
        n = n.wrapping_mul(1_664_525).wrapping_add(1_013_904_223);
    }
    for n in 0..2000u32 {
        assert_eq!(decimal_string(n), n.to_string());
    }
}

#[test]
fn push_decimal_appends() {
    let mut s = String::from("port ");
    push_decimal(&mut s, 22);
    push_decimal(&mut s, 0);
    assert_eq!(s, "port 220");
}

#[test]
fn chars_of_keeps_every_character() {
    assert_eq!(chars_of(""), Vec::<char>::new());
    assert_eq!(chars_of("a\u{1F511}\u{e9}"), vec!['a', '\u{1F511}', '\u{e9}']);
}

#[test]
fn whitespace_is_the_unicode_property() {
    let mut count = 0;
    for u in 0..=0x10FFFFu32 {
        if let Some(c) = char::from_u32(u) {
            assert_eq!(is_whitespace_char(c), c.is_whitespace(), "U+{:04X}", u);
            if c.is_whitespace() {
                count += 1;
            }
        }
    }
    assert_eq!(count, 25);
}

#[test]
fn trimmed_removes_both_ends_only() {
    assert_eq!(trimmed(""), "");
    assert_eq!(trimmed("   \n\t"), "");
    assert_eq!(trimmed("a"), "a");
    assert_eq!(trimmed("  a b  "), "a b");
    assert_eq!(trimmed("\n\u{3000}KEY=1\nB=2\u{a0}\r\n"), "KEY=1\nB=2");
    assert_eq!(trimmed("x \u{1F511} y"), "x \u{1F511} y");
}

#[test]
fn trimmed_agrees_with_the_standard_library() {
    let samples = [
        "", " ", "a", " a", "a ", " a ", "\t\ta\n b \n", "\u{2003}x\u{2003}", "\u{200B}x ",
        "  \u{1F511} key  ", "\u{85}\u{1680}q\u{2028}\u{2029}",
    ];
    for s in samples {
        assert_eq!(trimmed(s), s.trim());
    }
}

#[test]
fn trimming_twice_is_trimming_once() {
    let s = " \n A=1\nB=2 \t";
    let once = trimmed(s);
    assert_eq!(trimmed(&once), once);
    let padded = format!("\n{}\n", once);
    assert_eq!(trimmed(&padded), once);
}

#[test]
fn contains_text_finds_substrings() {
    assert!(contains_text("hello world", "lo w"));
    assert!(contains_text("hello", "hello"));
    assert!(contains_text("hello", ""));
    assert!(contains_text("", ""));
    assert!(contains_text("aab", "ab"));
    assert!(contains_text("xxabc", "abc"));
    assert!(!contains_text("hello", "hello!"));
    assert!(!contains_text("", "a"));
    assert!(!contains_text("abcabd", "abe"));
    assert!(contains_text("\u{1F511}key12", "key12"));
}

#[test]
fn contains_text_agrees_with_the_standard_library() {
    let words = ["", "a", "ab", "ba", "aba", "abab", "bb", "\u{1F511}", "a\u{1F511}b"];
    for h in words {
        for n in words {
            assert_eq!(contains_text(h, n), h.contains(n), "{:?} in {:?}", n, h);
        }
    }
}

#[test]
fn find_char_gives_the_first_position() {
    assert_eq!(find_char(&chars_of("a@b@c"), '@'), Some(1));
    assert_eq!(find_char(&chars_of("abc"), '@'), None);
    assert_eq!(find_char(&chars_of("\u{e9}@"), '@'), Some(1));
    assert_eq!(find_char(&chars_of(""), '@'), None);
}

#[test]
fn count_of_counts_every_occurrence() {
    assert_eq!(count_of(&chars_of("a@b@c@"), '@'), 3);
    assert_eq!(count_of(&chars_of("abc"), '@'), 0);
    assert_eq!(count_of(&chars_of(""), '@'), 0);
}
