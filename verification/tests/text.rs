use memwaster::text::{lowercase, lowercase_all, split_digits};

#[test]
fn ascii_letters_are_lowered() {
    assert_eq!(lowercase('A'), 'a');
    assert_eq!(lowercase('M'), 'm');
    assert_eq!(lowercase('Z'), 'z');
    assert_eq!(lowercase('a'), 'a');
    assert_eq!(lowercase('z'), 'z');
    assert_eq!(lowercase('0'), '0');
    assert_eq!(lowercase('@'), '@');
    assert_eq!(lowercase('['), '[');
    assert_eq!(lowercase('\u{7f}'), '\u{7f}');
}

#[test]
fn ascii_lowering_agrees_with_the_standard_library() {
    for code in 0u8..128 {
        let c = code as char;
        assert_eq!(lowercase(c), c.to_lowercase().next().unwrap());
        assert_eq!(lowercase(c), c.to_ascii_lowercase());
    }
}

#[test]
fn other_letters_are_lowered_by_the_unicode_tables() {
    assert_eq!(lowercase('\u{C9}'), '\u{E9}');
    assert_eq!(lowercase('\u{3A3}'), '\u{3C3}');
    assert_eq!(lowercase('\u{212A}'), 'k');
    assert_eq!(lowercase('\u{130}'), 'i');
    assert_eq!(lowercase('\u{E9}'), '\u{E9}');
    assert_eq!(lowercase('\u{5C71}'), '\u{5C71}');
    assert_eq!(lowercase('\u{80}'), '\u{80}');
}

#[test]
fn whole_texts_are_lowered() {
    let text: Vec<char> = "Mb\u{C9}k".chars().collect();
    let expected: Vec<char> = "mb\u{E9}k".chars().collect();
    assert_eq!(lowercase_all(&text), expected);
    assert_eq!(lowercase_all(&[]), Vec::<char>::new());
}

#[test]
fn digits_are_split_from_the_rest() {
    let (digits, letters) = split_digits("12MB");
    assert_eq!(digits, vec!['1', '2']);
    assert_eq!(letters, vec!['M', 'B']);

    let (digits, letters) = split_digits("1M2B3");
    assert_eq!(digits, vec!['1', '2', '3']);
    assert_eq!(letters, vec!['M', 'B']);

    let (digits, letters) = split_digits("");
    assert_eq!(digits, Vec::<char>::new());
    assert_eq!(letters, Vec::<char>::new());

    let (digits, letters) = split_digits("/0:9\u{661}");
    assert_eq!(digits, vec!['0', '9']);
    assert_eq!(letters, vec!['/', ':', '\u{661}']);
}
