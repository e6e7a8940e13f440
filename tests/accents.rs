use icon_enums::accents::{has_accent, remove_accents_char};

#[test]
fn accent_found_in_decomposition() {
    assert!(has_accent(&vec!['e', '\u{301}']));
    assert!(has_accent(&vec!['\u{36f}']));
    assert!(!has_accent(&vec!['e']));
    assert!(!has_accent(&vec!['\u{2ff}', '\u{370}']));
    assert!(!has_accent(&vec![]));
}

#[test]
fn base_letter_is_first_non_mark() {
    assert_eq!(remove_accents_char('\u{e9}', &vec!['e', '\u{301}']), 'e');
    assert_eq!(remove_accents_char('\u{1e09}', &vec!['\u{300}', 'C', '\u{327}']), 'C');
    assert_eq!(remove_accents_char('\u{301}', &vec!['\u{301}']), '\u{301}');
    assert_eq!(remove_accents_char('q', &vec![]), 'q');
}
