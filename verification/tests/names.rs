use account_resolver::account_id::{
    find_first_dot, is_top_level, parent_of, CandidateAccountId, MAX_NAME_LENGTH, MIN_NAME_LENGTH,
};

fn accepted(text: &str) -> bool {
    CandidateAccountId::parse(text).is_some()
}

#[test]
fn parse_keeps_the_text() {
    let id = CandidateAccountId::parse("alice.near").unwrap();
    assert_eq!(id.as_str(), "alice.near");
    assert_eq!(id.char_count(), 10);
}

#[test]
fn parse_accepts_letters_digits_and_single_separators() {
    assert!(accepted("ab"));
    assert!(accepted("a.b"));
    assert!(accepted("ab.c"));
    assert!(accepted("sub.alice"));
    assert!(accepted("a-b_c.d0"));
    assert!(accepted("100"));
    assert!(accepted("system"));
}

#[test]
fn parse_refuses_names_that_are_too_short() {
    assert!(!accepted(""));
    assert!(!accepted("a"));
    assert_eq!(MIN_NAME_LENGTH, 2);
}

#[test]
fn parse_refuses_names_that_are_too_long() {
    let longest = "a".repeat(64);
    let too_long = "a".repeat(65);
    assert!(accepted(&longest));
    assert!(!accepted(&too_long));
    assert_eq!(MAX_NAME_LENGTH, 64);
}

#[test]
fn parse_refuses_other_characters() {
    assert!(!accepted("Alice"));
    assert!(!accepted("al ice"));
    assert!(!accepted("alice@near"));
    assert!(!accepted("al\u{e9}ce"));
    assert!(!accepted("\u{e9}"));
}

#[test]
fn parse_refuses_misplaced_separators() {
    assert!(!accepted(".alice"));
    assert!(!accepted("alice."));
    assert!(!accepted("-alice"));
    assert!(!accepted("alice_"));
    assert!(!accepted("al..ice"));
    assert!(!accepted("al-.ice"));
    assert!(!accepted("al__ice"));
}

#[test]
fn first_dot_is_found() {
    assert_eq!(find_first_dot("alice"), None);
    assert_eq!(find_first_dot("a.b.c"), Some(1));
    assert_eq!(find_first_dot("sub.alice"), Some(3));
    assert_eq!(find_first_dot(""), None);
}

#[test]
fn top_level_names_have_no_dot() {
    assert!(is_top_level("alice"));
    assert!(is_top_level("near"));
    assert!(!is_top_level("alice.near"));
    assert!(!is_top_level("a.b.c"));
    assert!(CandidateAccountId::parse("alice").unwrap().is_top_level());
    assert!(!CandidateAccountId::parse("sub.alice").unwrap().is_top_level());
}

#[test]
fn parent_is_what_follows_the_first_dot() {
    assert_eq!(parent_of("alice"), None);
    assert_eq!(parent_of("sub.alice"), Some("alice".to_string()));
    assert_eq!(parent_of("a.b.c"), Some("b.c".to_string()));
    assert_eq!(parent_of("ab.c"), Some("c".to_string()));
    let id = CandidateAccountId::parse("x.sub.alice.near").unwrap();
    assert_eq!(id.parent(), Some("sub.alice.near".to_string()));
    assert_eq!(CandidateAccountId::parse("alice").unwrap().parent(), None);
}

#[test]
fn clone_gives_the_same_name() {
    let id = CandidateAccountId::parse("alice.near").unwrap();
    let copy = id.clone();
    assert_eq!(copy, id);
    assert_eq!(copy.as_str(), "alice.near");
}
