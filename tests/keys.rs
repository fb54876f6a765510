use disperse_api::keys::split_keys;

#[test]
fn splits_and_trims_keys() {
    assert_eq!(split_keys(" a , b,,c "), vec!["a", "b", "", "c"]);
}

#[test]
fn empty_text_is_one_empty_key() {
    assert_eq!(split_keys(""), vec![""]);
}

#[test]
fn single_key() {
    assert_eq!(split_keys("\tkey1\n"), vec!["key1"]);
}

#[test]
fn trailing_comma_gives_empty_last_key() {
    assert_eq!(split_keys("k1,k2,"), vec!["k1", "k2", ""]);
}

#[test]
fn inner_spaces_are_kept() {
    assert_eq!(split_keys("  a b  ,\u{3000}c\u{3000}"), vec!["a b", "c"]);
}

#[test]
fn every_unicode_white_space_is_trimmed() {
    let spaces = [
        '\u{9}', '\u{a}', '\u{b}', '\u{c}', '\u{d}', ' ', '\u{85}', '\u{a0}', '\u{1680}', '\u{2000}', '\u{2005}',
        '\u{200a}', '\u{2028}', '\u{2029}', '\u{202f}', '\u{205f}', '\u{3000}',
    ];
    for c in spaces {
        assert_eq!(split_keys(&format!("{c}k{c}")), vec!["k"]);
    }
}

#[test]
fn other_characters_are_kept() {
    assert_eq!(split_keys("\u{200b}k\u{180e}"), vec!["\u{200b}k\u{180e}"]);
}
