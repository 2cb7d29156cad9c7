use glide::username::validate_username;

#[test]
fn username_with_inner_period_is_accepted() {
    assert!(validate_username("ab.c"));
}

#[test]
fn username_with_leading_period_is_rejected() {
    assert!(!validate_username(".abc"));
}

#[test]
fn username_with_trailing_period_is_rejected() {
    assert!(!validate_username("abc."));
}

#[test]
fn username_with_consecutive_periods_is_rejected() {
    assert!(!validate_username("a..b"));
}

#[test]
fn username_of_eleven_chars_is_rejected() {
    assert!(!validate_username("abcdefghijk"));
}

#[test]
fn username_of_ten_chars_is_accepted() {
    assert!(validate_username("abcdefghij"));
}

#[test]
fn username_of_one_char_is_accepted() {
    assert!(validate_username("a"));
}

#[test]
fn empty_username_is_rejected() {
    assert!(!validate_username(""));
}

#[test]
fn username_with_other_characters_is_rejected() {
    assert!(!validate_username("a_b"));
    assert!(!validate_username("a b"));
    assert!(!validate_username("é"));
}

#[test]
fn username_with_digits_and_capitals_is_accepted() {
    assert!(validate_username("Bob42.X"));
}

#[test]
fn validator_is_pattern_without_double_periods() {
    let pattern = regex::Regex::new(r"^[a-zA-Z0-9](?:[a-zA-Z0-9\.]{0,8}[a-zA-Z0-9])?$").unwrap();
    let alphabet = ['a', 'Z', '0', '.', '_', ' '];
    let mut words = vec![String::new()];
    for _ in 0..4 {
        let mut longer = Vec::new();
        for w in &words {
            for c in alphabet {
                longer.push(format!("{}{}", w, c));
            }
        }
        words.extend(longer.into_iter());
        words.sort();
        words.dedup();
    }
    for w in &words {
        let expected = pattern.is_match(w) && !w.contains("..");
        assert_eq!(validate_username(w), expected, "{:?}", w);
    }
    for w in ["abcdefghij", "abcdefghijk", "a.b.c.d.e.", "a.b.c.d.ef"] {
        assert_eq!(validate_username(w), pattern.is_match(w), "{:?}", w);
    }
}
