use lorax::name_rules::{is_reserved_name, same_text, validate_tree_name, NameError};

#[test]
fn accepts_plain_lowercase_names() {
    assert_eq!(validate_tree_name("oak"), Ok(()));
    assert_eq!(validate_tree_name("willow"), Ok(()));
    assert_eq!(validate_tree_name("abcdefghijklmnopqrst"), Ok(()));
}

#[test]
fn refuses_names_of_wrong_length() {
    assert_eq!(validate_tree_name(""), Err(NameError::Length));
    assert_eq!(validate_tree_name("ab"), Err(NameError::Length));
    assert_eq!(validate_tree_name("abcdefghijklmnopqrstu"), Err(NameError::Length));
}

#[test]
fn refuses_other_characters() {
    assert_eq!(validate_tree_name("Oak"), Err(NameError::Charset));
    assert_eq!(validate_tree_name("oak1"), Err(NameError::Charset));
    assert_eq!(validate_tree_name("big oak"), Err(NameError::Charset));
    assert_eq!(validate_tree_name("oak-tree"), Err(NameError::Charset));
    assert_eq!(validate_tree_name("eiché"), Err(NameError::Charset));
}

#[test]
fn length_is_checked_before_characters() {
    assert_eq!(validate_tree_name("A1"), Err(NameError::Length));
}

#[test]
fn refuses_reserved_names() {
    for name in ["sakura", "cherry", "bamboo", "maple", "pine", "palm", "cedar"] {
        assert!(is_reserved_name(name));
        assert_eq!(validate_tree_name(name), Err(NameError::Reserved));
    }
    assert!(!is_reserved_name("pines"));
    assert!(!is_reserved_name("oak"));
}

#[test]
fn compares_texts_by_characters() {
    assert!(same_text("elm", "elm"));
    assert!(!same_text("elm", "elms"));
    assert!(!same_text("elm", "ash"));
    assert!(same_text("", ""));
}
