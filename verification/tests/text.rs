use apex_equalizer::text::{
    contains_chars, is_space, join, lower_chars, push_decimal, same_chars, trim,
};

fn chars(s: &str) -> Vec<char> {
    s.chars().collect()
}

#[test]
fn white_space_is_that_of_std() {
    for code in 0..=0x10ffff_u32 {
        if let Some(c) = char::from_u32(code) {
            assert_eq!(is_space(c), c.is_whitespace(), "{code:x}");
        }
    }
}

#[test]
fn trim_agrees_with_std() {
    for s in ["", " ", "a", "  a b\t", "\u{3000}x\u{85}", "\n\n", "ab ", "\u{200b}q"] {
        assert_eq!(trim(s), s.trim());
    }
}

#[test]
fn lower_case_leaves_other_letters() {
    for s in ["", "USB Mic", "\u{c4}\u{d6}Z", "[@`{", "az09AZ"] {
        assert_eq!(lower_chars(s), chars(&s.to_ascii_lowercase()));
    }
    assert!(same_chars(&lower_chars("HDMI"), &chars("hdmi")));
    assert!(!same_chars(&lower_chars("HDMI"), &chars("hdm")));
}

#[test]
fn trimming_and_folding_commute() {
    let s = "  \u{85}A \u{c4} z\t";
    assert_eq!(
        lower_chars(trim(s)),
        chars(trim(&s.to_ascii_lowercase()))
    );
    assert_eq!(trim(trim(s)), trim(s));
}

#[test]
fn substring_search_agrees_with_std() {
    let haystacks = ["", "a", "aab", "built-in microphone", "aaaaab"];
    let needles = ["", "a", "aab", "micro", "phone", "aaab", "b", "phones", "built"];
    for h in haystacks {
        for n in needles {
            assert_eq!(contains_chars(&chars(h), &chars(n)), h.contains(n), "{h} {n}");
        }
    }
}

#[test]
fn decimal_agrees_with_display() {
    for n in [0, 5, 9, 10, 44_100, 48_000, 65_535, 4_294_967_295, u64::MAX] {
        let mut s = String::from(">");
        push_decimal(&mut s, n);
        assert_eq!(s, format!(">{n}"));
    }
}

#[test]
fn joining_puts_separators_between() {
    let pieces = |p: &[&str]| p.iter().map(|s| s.to_string()).collect::<Vec<_>>();
    assert_eq!(join(&pieces(&[]), ", "), "");
    assert_eq!(join(&pieces(&["a"]), ", "), "a");
    assert_eq!(join(&pieces(&["a", "", "c"]), ", "), "a, , c");
}
