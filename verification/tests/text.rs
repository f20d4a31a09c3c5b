use authorize_me::text::{chars_of, copy_range, string_of, trim};

#[test]
fn a_text_and_its_characters() {
    assert_eq!(chars_of("héllo"), vec!['h', 'é', 'l', 'l', 'o']);
    assert_eq!(string_of(&vec!['h', 'é', 'l', 'l', 'o']), "héllo");
    assert_eq!(chars_of(""), Vec::<char>::new());
    assert_eq!(string_of(&vec![]), "");
}

#[test]
fn a_range_of_characters() {
    let chars = chars_of("abcdef");
    assert_eq!(copy_range(&chars, 1, 4), vec!['b', 'c', 'd']);
    assert_eq!(copy_range(&chars, 2, 2), Vec::<char>::new());
    assert_eq!(copy_range(&chars, 0, 6), chars);
}

#[test]
fn trimming_strips_whitespace_at_both_ends_only() {
    assert_eq!(string_of(&trim(&chars_of("  a b \t\r\n"))), "a b");
    assert_eq!(string_of(&trim(&chars_of("a"))), "a");
    assert_eq!(string_of(&trim(&chars_of(" \t "))), "");
    assert_eq!(string_of(&trim(&chars_of(""))), "");
    assert_eq!(string_of(&trim(&chars_of("\u{2003}x\u{a0}"))), "x");
}
