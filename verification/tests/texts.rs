use embed_bench::text::{
    contains_text, join_texts, replace_char, split_at_any, to_decimal, trim_text,
};

fn owned(parts: &[&str]) -> Vec<String> {
    parts.iter().map(|p| p.to_string()).collect()
}

#[test]
fn splits_at_every_separator() {
    assert_eq!(split_at_any("a;b;;c", &[';']), owned(&["a", "b", "", "c"]));
    assert_eq!(split_at_any("", &[';']), owned(&[""]));
    assert_eq!(split_at_any(";", &[';']), owned(&["", ""]));
    assert_eq!(split_at_any("x y\nz", &[' ', '\n']), owned(&["x", "y", "z"]));
    assert_eq!(split_at_any("从前 有座", &[' ']), owned(&["从前", "有座"]));
    assert_eq!(split_at_any("whole", &[]), owned(&["whole"]));
}

#[test]
fn splitting_agrees_with_std() {
    for text in ["", ";", "a;b", ";;a;", "no separator", "山;寻仙"] {
        let expected: Vec<String> = text.split(';').map(|p| p.to_string()).collect();
        assert_eq!(split_at_any(text, &[';']), expected);
    }
}

#[test]
fn joining_pieces_gives_the_text_back() {
    for text in ["", "a", "a;b", ";;", "x;;y;"] {
        assert_eq!(join_texts(&split_at_any(text, &[';']), ";"), text);
    }
}

#[test]
fn joins_with_separators_between() {
    assert_eq!(join_texts(&owned(&[]), ", "), "");
    assert_eq!(join_texts(&owned(&["one"]), ", "), "one");
    assert_eq!(join_texts(&owned(&["one", "", "three"]), ", "), "one, , three");
}

#[test]
fn replaces_every_occurrence() {
    assert_eq!(replace_char("a/b/c", '/', "--"), "a--b--c");
    assert_eq!(replace_char("//", '/', "--"), "----");
    assert_eq!(replace_char("plain", '/', "--"), "plain");
    assert_eq!(replace_char("", '/', "--"), "");
}

#[test]
fn writes_numbers_in_decimal() {
    assert_eq!(to_decimal(0), "0");
    assert_eq!(to_decimal(9), "9");
    assert_eq!(to_decimal(10), "10");
    assert_eq!(to_decimal(128000), "128000");
    assert_eq!(to_decimal(usize::MAX), usize::MAX.to_string());
}

#[test]
fn trims_white_space_as_std_does() {
    assert_eq!(trim_text(" \t a b\u{a0}\u{3000}\n"), "a b");
    assert_eq!(trim_text(""), "");
    assert_eq!(trim_text(" \u{85} "), "");
    for code in 0..=0x10ffffu32 {
        if let Some(c) = char::from_u32(code) {
            if code < 0x4000 || code % 997 == 0 {
                let text = format!("{c}x{c}");
                assert_eq!(trim_text(&text), text.trim());
            }
        }
    }
}

#[test]
fn looks_for_texts_as_std_does() {
    for hay in ["", "a", "ab", "aab", "abab", "thread/mod.rs", "山寻仙山"] {
        for needle in ["", "a", "ab", "aab", "bab", "thread", "仙山", "山山"] {
            assert_eq!(contains_text(hay, needle), hay.contains(needle));
        }
    }
}
