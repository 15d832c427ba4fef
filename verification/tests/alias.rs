use url_shortener::alias::{generate_alias, ALIAS_LEN};

#[test]
fn alias_length_is_six() {
    assert_eq!(ALIAS_LEN, 6);
}

#[test]
fn generated_alias_has_six_alphanumeric_characters() {
    for _ in 0..500 {
        let alias = generate_alias();
        assert_eq!(alias.chars().count(), 6);
        assert_eq!(alias.len(), 6);
        assert!(alias.chars().all(|c| c.is_ascii_alphanumeric()));
    }
}

#[test]
fn generated_aliases_are_not_all_the_same() {
    let first = generate_alias();
    let mut differs = false;
    for _ in 0..50 {
        if generate_alias() != first {
            differs = true;
        }
    }
    assert!(differs);
}

#[test]
fn generated_alias_uses_more_than_one_character() {
    let mut seen = std::collections::BTreeSet::new();
    for _ in 0..50 {
        for c in generate_alias().chars() {
            seen.insert(c);
        }
    }
    assert!(seen.len() > 10);
}
