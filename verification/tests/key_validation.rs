use redirects::key::{invalid_characters, is_allowed, RedirectKey, RedirectKeyValidationFailed};

#[test]
fn letters_digits_dash_and_underscore_are_a_key() {
    let key = RedirectKey::try_from("abc-123_XY".to_string());
    assert!(matches!(key, Ok(ref k) if k.as_str() == "abc-123_XY"));
}

#[test]
fn a_hundred_and_one_characters_are_too_long() {
    let text = "a".repeat(101);
    assert!(matches!(RedirectKey::try_from(text), Err(RedirectKeyValidationFailed::TooLong)));
}

#[test]
fn a_hundred_characters_are_a_key() {
    let text = "Z".repeat(100);
    let key = RedirectKey::try_from(text.clone()).expect("a hundred characters are admitted");
    assert_eq!(key.as_str(), text);
    assert_eq!(key.clone().into_string(), text);
}

#[test]
fn the_empty_text_is_a_key() {
    let key = RedirectKey::try_from(String::new()).expect("nothing is refused in it");
    assert_eq!(key.as_str(), "");
}

#[test]
fn a_space_is_reported_as_invalid() {
    match RedirectKey::try_from("a b".to_string()) {
        Err(RedirectKeyValidationFailed::InvalidCharacters(chars)) => assert_eq!(chars, vec![' ']),
        _ => panic!("a space is no character of a key"),
    }
}

#[test]
fn every_offender_is_reported_in_order_and_as_often_as_it_stands() {
    match RedirectKey::try_from("a/b?c/d é".to_string()) {
        Err(RedirectKeyValidationFailed::InvalidCharacters(chars)) => {
            assert_eq!(chars, vec!['/', '?', '/', ' ', 'é'])
        }
        _ => panic!("slashes are no characters of a key"),
    }
}

#[test]
fn the_length_is_tested_before_the_characters() {
    let text = " ".repeat(101);
    assert!(matches!(RedirectKey::try_from(text), Err(RedirectKeyValidationFailed::TooLong)));
}

#[test]
fn the_length_counts_bytes() {
    let fifty = "é".repeat(50);
    match RedirectKey::try_from(fifty) {
        Err(RedirectKeyValidationFailed::InvalidCharacters(chars)) => assert_eq!(chars.len(), 50),
        _ => panic!("a hundred bytes are not too long"),
    }
    let fifty_one = "é".repeat(51);
    assert!(matches!(
        RedirectKey::try_from(fifty_one),
        Err(RedirectKeyValidationFailed::TooLong)
    ));
}

#[test]
fn allowed_characters_are_ascii_letters_digits_dash_and_underscore() {
    for c in ['a', 'z', 'A', 'Z', '0', '9', '-', '_', 'm', 'Q', '5'] {
        assert!(is_allowed(c), "{c:?}");
    }
    for c in [' ', '/', '.', '@', '[', '`', '{', ':', '+', 'é', 'ß', '\n', '\0'] {
        assert!(!is_allowed(c), "{c:?}");
    }
    for code in 0u32..0x300 {
        let c = char::from_u32(code).unwrap();
        assert_eq!(is_allowed(c), c.is_ascii_alphanumeric() || c == '-' || c == '_');
    }
}

#[test]
fn invalid_characters_keeps_only_the_offenders() {
    assert_eq!(invalid_characters("abc"), Vec::<char>::new());
    assert_eq!(invalid_characters("a.b.c"), vec!['.', '.']);
}

#[test]
fn a_too_long_key_is_a_bad_request() {
    let (status, text) = RedirectKeyValidationFailed::TooLong.into_response();
    assert_eq!(status, 400);
    assert_eq!(text, "too long, maximum length of a key is 100");
}

#[test]
fn invalid_characters_are_shown_in_the_bad_request() {
    let failure = RedirectKeyValidationFailed::InvalidCharacters(vec![' ', '/', 'é']);
    let (status, text) = failure.into_response();
    assert_eq!(status, 400);
    assert_eq!(text, "invalid characters:  /é");
}

#[test]
fn a_key_reads_as_text() {
    let key = RedirectKey::try_from("abc-123_XY".to_string()).expect("a valid key");
    assert_eq!(&*key, "abc-123_XY");
    assert_eq!(key.len(), 10);
    assert!(key.starts_with("abc"));
}
