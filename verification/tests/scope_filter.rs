use mngr::config::{validate_scope, ScopeConfig};
use mngr::error::ErrorKind;
use mngr::scope::{like_match, qualified_name};

fn strings(items: &[&str]) -> Vec<String> {
    items.iter().map(|s| s.to_string()).collect()
}

#[test]
fn literal_patterns_match_exactly() {
    assert!(like_match("public.users", "public.users"));
    assert!(!like_match("public.users", "public.user"));
    assert!(!like_match("public.user", "public.users"));
}

#[test]
fn percent_matches_any_run() {
    assert!(like_match("public.%", "public.users"));
    assert!(like_match("public.%", "public."));
    assert!(like_match("%", ""));
    assert!(like_match("%log", "audit_log"));
    assert!(like_match("a%b%c", "a-x-b-y-c"));
    assert!(!like_match("public.%", "private.users"));
}

#[test]
fn underscore_matches_one_character() {
    assert!(like_match("user_", "users"));
    assert!(!like_match("user_", "user"));
    assert!(!like_match("user_", "userss"));
}

#[test]
fn matching_is_case_sensitive() {
    assert!(!like_match("Public.%", "public.users"));
    assert!(like_match("Public.%", "Public.users"));
}

#[test]
fn exclude_wins_over_include() {
    let includes = strings(&["public.%"]);
    let exclude = strings(&["public.audit_log"]);
    assert!(mngr::scope::matches("public.users", &includes, &exclude));
    assert!(!mngr::scope::matches("public.audit_log", &includes, &exclude));
}

#[test]
fn empty_include_list_matches_nothing() {
    let includes = strings(&[]);
    let exclude = strings(&[]);
    assert!(!mngr::scope::matches("public.users", &includes, &exclude));
}

#[test]
fn empty_include_list_is_a_configuration_error() {
    let empty = ScopeConfig { includes: strings(&[]), exclude: strings(&[]) };
    assert_eq!(validate_scope(&empty), Err(ErrorKind::Configuration));
    let ok = ScopeConfig { includes: strings(&["%"]), exclude: strings(&[]) };
    assert_eq!(validate_scope(&ok), Ok(()));
}

#[test]
fn qualified_name_joins_with_a_dot() {
    assert_eq!(qualified_name("public", "users"), "public.users");
}
