use pilatus::name::{Name, NameRaw, NameValidationError, RecipeId};

fn suggestions(name: &str, count: usize) -> Vec<String> {
    let mut s = Name::parse(name).unwrap().suggest_unique();
    let mut out = Vec::new();
    for _ in 0..count {
        out.push(s.next().unwrap().as_str().to_string());
    }
    out
}

#[test]
fn valid_names_are_accepted() {
    for n in ["a", "Recipe 1", "my-device_2.0", "abcdefghijklmnopqrstuvwxyz1234"] {
        let name = Name::new(n.to_string()).unwrap();
        assert_eq!(n, name.as_str());
    }
}

#[test]
fn empty_name_is_refused() {
    assert_eq!(vec![NameValidationError::Empty], Name::parse("").err().unwrap());
}

#[test]
fn long_name_is_refused_with_its_byte_length() {
    let n = "a".repeat(31);
    assert_eq!(vec![NameValidationError::TooLong(31)], Name::parse(&n).err().unwrap());
}

#[test]
fn whitespace_at_the_edges_is_refused() {
    assert_eq!(
        vec![NameValidationError::LeadingWhitespace, NameValidationError::TrailingWhitespace],
        Name::parse(" a ").err().unwrap()
    );
}

#[test]
fn each_invalid_character_is_reported_in_order() {
    assert_eq!(
        vec![
            NameValidationError::TooLong(31),
            NameValidationError::InvalidCharacter('ä'),
            NameValidationError::InvalidCharacter('/'),
        ],
        Name::parse(&format!("ä{}/b", "a".repeat(27))).err().unwrap()
    );
}

#[test]
fn raw_names_are_checked_and_sealed() {
    let raw = NameRaw::new("ok".to_string());
    assert!(raw.check().is_ok());
    assert_eq!("ok", raw.seal().unwrap().as_str());
    let raw = NameRaw::new("not ok!".to_string());
    assert_eq!(vec![NameValidationError::InvalidCharacter('!')], raw.check().err().unwrap());
}

#[test]
fn suggestions_continue_a_number_suffix() {
    assert_eq!(vec!["foo_3", "foo_4", "foo_5"], suggestions("foo_3", 3));
}

#[test]
fn suggestions_start_at_one_without_suffix() {
    assert_eq!(vec!["foo_1", "foo_2"], suggestions("foo", 2));
    assert_eq!(vec!["foo_bar_1"], suggestions("foo_bar", 1));
    assert_eq!(vec!["a_b_7"], suggestions("a_b_7", 1));
}

#[test]
fn suggestions_stop_after_the_largest_number() {
    let mut s = Name::parse("x_2147483647").unwrap().suggest_unique();
    assert_eq!("x_2147483647", s.next().unwrap().as_str());
    assert!(s.next().is_none());
}

#[test]
fn negative_suffix_is_a_number() {
    assert_eq!(vec!["x_-2", "x_-1", "x_0"], suggestions("x_-2", 3));
}

#[test]
fn recipe_ids() {
    assert_eq!("default", RecipeId::default_id().as_str());
    let id = RecipeId::parse("my recipe").unwrap();
    let mut s = id.suggest_unique();
    assert_eq!("my recipe_1", s.next().unwrap().as_str());
    assert!(RecipeId::parse("bad/id").is_err());
}

#[test]
fn error_messages_name_the_problem() {
    assert_eq!("Empty name is not allowed", NameValidationError::Empty.message(""));
    assert_eq!("(len=31) > 30", NameValidationError::TooLong(31).message("x"));
    assert_eq!("' a' is prefixed with whitespace", NameValidationError::LeadingWhitespace.message(" a"));
    assert_eq!("'a ' is suffixed with whitespace", NameValidationError::TrailingWhitespace.message("a "));
    assert_eq!("invalid character ä", NameValidationError::InvalidCharacter('ä').message("ä"));
}
