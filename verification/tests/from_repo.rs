use lengua::from_repo::{looks_like_url, parse};

#[test]
fn parses_owner_repo_shorthand_with_default_host() {
    let parsed = parse("acme/templates").unwrap();
    assert_eq!(parsed.url, "https://github.com/acme/templates.git");
    assert_eq!(parsed.subdir, None);
    assert_eq!(parsed.git_ref, None);
}

#[test]
fn parses_explicit_host_for_enterprise() {
    let parsed = parse("git.acme.internal/team/templates").unwrap();
    assert_eq!(parsed.url, "https://git.acme.internal/team/templates.git");
}

#[test]
fn parses_subdir_and_ref() {
    let parsed = parse("acme/templates/letters@v2").unwrap();
    assert_eq!(parsed.url, "https://github.com/acme/templates.git");
    assert_eq!(parsed.subdir.as_deref(), Some("letters"));
    assert_eq!(parsed.git_ref.as_deref(), Some("v2"));
}

#[test]
fn passes_through_full_urls_unchanged() {
    let parsed = parse("https://example.com/acme/templates.git").unwrap();
    assert_eq!(parsed.url, "https://example.com/acme/templates.git");
    let parsed = parse("git@github.com:acme/templates.git").unwrap();
    assert_eq!(parsed.url, "git@github.com:acme/templates.git");
}

#[test]
fn rejects_a_bare_owner_with_no_repo() {
    assert!(parse("acme").is_err());
}

#[test]
fn shorthand_error_names_the_value() {
    let err = parse("acme").err().unwrap();
    assert_eq!(
        err,
        "expected `[host/]owner/repo[/subdir][@ref]` or a URL, got `acme`"
    );
    assert!(parse("@v1").is_err());
    assert!(parse("//").is_err());
}

#[test]
fn nested_subdir_is_joined_and_last_at_is_the_ref() {
    let parsed = parse("gh.example.com/acme/templates/a//b/c@x@y").unwrap();
    assert_eq!(parsed.url, "https://gh.example.com/acme/templates.git");
    assert_eq!(parsed.subdir.as_deref(), Some("a/b/c@x"));
    assert_eq!(parsed.git_ref.as_deref(), Some("y"));
    let parsed = parse("acme/templates@x@y").unwrap();
    assert_eq!(parsed.url, "https://github.com/acme/templates@x.git");
    assert_eq!(parsed.git_ref.as_deref(), Some("y"));
}

#[test]
fn dotted_first_segment_with_two_segments_is_an_owner() {
    let parsed = parse("my.org/templates").unwrap();
    assert_eq!(parsed.url, "https://github.com/my.org/templates.git");
    assert_eq!(parsed.subdir, None);
}

#[test]
fn url_detection_covers_every_scheme() {
    assert!(looks_like_url("http://x"));
    assert!(looks_like_url("https://x"));
    assert!(looks_like_url("ssh://x"));
    assert!(looks_like_url("file:///tmp/x"));
    assert!(looks_like_url("git@host:x"));
    assert!(looks_like_url("s3://bucket"));
    assert!(!looks_like_url("acme/templates"));
    assert!(!looks_like_url("acme:/x"));
}
