use path_prefix::prefixed_path;

#[test]
fn empty_prefix_returns_spec_path() {
    assert_eq!(prefixed_path("", "/v1/users"), "/v1/users");
}

#[test]
fn prefix_with_leading_slash() {
    assert_eq!(prefixed_path("/cf", "/v1/users"), "/cf/v1/users");
}

#[test]
fn prefix_without_leading_slash() {
    assert_eq!(prefixed_path("cf", "/v1/users"), "/cf/v1/users");
}

#[test]
fn prefix_with_trailing_slash() {
    assert_eq!(prefixed_path("/cf/", "/v1/users"), "/cf/v1/users");
}

#[test]
fn slash_only_prefix_returns_spec_path() {
    assert_eq!(prefixed_path("///", "/v1/users"), "/v1/users");
    assert_eq!(prefixed_path("/", "/v1/users"), "/v1/users");
}

#[test]
fn empty_spec_path_keeps_prefix() {
    assert_eq!(prefixed_path("/cf", ""), "/cf");
}

#[test]
fn both_empty() {
    assert_eq!(prefixed_path("", ""), "");
}

#[test]
fn many_trailing_slashes_are_all_stripped() {
    assert_eq!(prefixed_path("/cf///", "/v1/users"), "/cf/v1/users");
}

#[test]
fn trailing_and_missing_leading_slash() {
    assert_eq!(prefixed_path("cf/", "/v1"), "/cf/v1");
}

#[test]
fn spec_path_without_leading_slash_is_not_separated() {
    assert_eq!(prefixed_path("cf", "users"), "/cfusers");
}

#[test]
fn internal_slashes_are_kept() {
    assert_eq!(prefixed_path("//a//b//", "/x"), "//a//b/x");
}

#[test]
fn non_ascii_prefix() {
    assert_eq!(prefixed_path("caf\u{e9}/", "/v1"), "/caf\u{e9}/v1");
}

#[test]
fn same_inputs_give_same_output() {
    let first = prefixed_path("/cf/", "/v1/users");
    let second = prefixed_path("/cf/", "/v1/users");
    assert_eq!(first, second);
}
