use ghpr::cli::{parse_error, resolve_target, PrRef, Target};

#[test]
fn parses_valid_pr_ref() {
    let pr: PrRef = "rust-lang/cargo#1234".parse().unwrap();
    assert_eq!(pr.owner, "rust-lang");
    assert_eq!(pr.repo, "cargo");
    assert_eq!(pr.number, 1234);
    assert_eq!(pr.to_string(), "rust-lang/cargo#1234");
    assert_eq!(pr.url(), "https://github.com/rust-lang/cargo/pull/1234");
}

#[test]
fn rejects_invalid_pr_refs() {
    for bad in [
        "",
        "prs",
        "owner/repo",
        "owner#123",
        "owner/repo#",
        "owner/repo#abc",
        "/repo#1",
        "owner/#1",
        "a/b/c#1",
    ] {
        assert!(bad.parse::<PrRef>().is_err(), "should reject {bad:?}");
    }
}

#[test]
fn parse_error_names_the_input() {
    let err = "owner/repo".parse::<PrRef>().unwrap_err();
    assert_eq!(err, "expected owner/repo#number, got \"owner/repo\"");
}

#[test]
fn parse_accepts_plus_sign_and_leading_zeros_like_std() {
    let pr = PrRef::parse("a/b#+007").unwrap();
    assert_eq!(pr.number, 7);
    assert!(PrRef::parse("a/b#18446744073709551615").is_ok());
    assert!(PrRef::parse("a/b#18446744073709551616").is_err());
    assert!(PrRef::parse("a/b#-1").is_err());
    assert!(PrRef::parse("a/b#+").is_err());
}

#[test]
fn parse_splits_at_first_hash_and_slash() {
    // The number is everything after the first '#'.
    assert!(PrRef::parse("a/b#1#2").is_err());
    let pr = PrRef::parse("ow-ner/re.po#42").unwrap();
    assert_eq!(pr.owner, "ow-ner");
    assert_eq!(pr.repo, "re.po");
    assert_eq!(pr.number, 42);
}

#[test]
fn display_parses_back() {
    let pr = PrRef { owner: "octo".to_string(), repo: "hello-world".to_string(), number: 0 };
    let back = PrRef::parse(&pr.to_string()).unwrap();
    assert_eq!(back.owner, pr.owner);
    assert_eq!(back.repo, pr.repo);
    assert_eq!(back.number, pr.number);
}

#[test]
fn target_defaults_to_list() {
    assert!(matches!(resolve_target(None), Ok(Target::List)));
    assert!(matches!(resolve_target(Some("prs")), Ok(Target::List)));
    match resolve_target(Some("o/r#9")) {
        Ok(Target::Pr(pr)) => assert_eq!(pr.to_string(), "o/r#9"),
        _ => panic!("expected a pull request target"),
    }
    assert!(resolve_target(Some("nope")).is_err());
}

#[test]
fn parse_errors_quote_the_input() {
    assert_eq!(parse_error("\"x\""), "expected owner/repo#number, got \"x\"");
    match PrRef::parse("a\"b") {
        Err(e) => assert_eq!(e, "expected owner/repo#number, got \"a\\\"b\""),
        Ok(_) => panic!("should reject"),
    }
}
