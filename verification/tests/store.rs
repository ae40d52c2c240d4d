use lengua::error::Error;
use lengua::store::{
    check_tag_free, check_tag_present, collapse_log, git_path, tag_entries, tag_lookup_ref,
    template_entry, template_names,
};
use lengua::tags::{tag_ref_name, tag_scope_prefix, validate_tag_name, TagEntry, TAG_REF_PREFIX};

fn s(x: &str) -> String {
    x.to_string()
}

#[test]
fn tag_names_ambiguous_with_revisions_are_refused() {
    for bad in ["HEAD", "head", "HeAd", "deadbeef", "1234", ""] {
        assert!(matches!(validate_tag_name(bad), Err(Error::InvalidTagName { .. })), "{bad}");
    }
    assert_eq!(
        validate_tag_name("deadbeef"),
        Err(Error::InvalidTagName {
            tag: s("deadbeef"),
            reason: s("looks like a commit id, which would be ambiguous as a revision")
        })
    );
    assert_eq!(
        validate_tag_name("HEAD"),
        Err(Error::InvalidTagName { tag: s("HEAD"), reason: s("'HEAD' is reserved") })
    );
    for good in ["final", "v1.0", "abc", "heads", "deadbeefz"] {
        assert!(validate_tag_name(good).is_ok(), "{good}");
    }
}

#[test]
fn tag_refs_live_in_their_own_namespace() {
    assert_eq!(TAG_REF_PREFIX, "refs/lengua/tags");
    assert_eq!(tag_ref_name("letter.md", "final"), "refs/lengua/tags/letter.md/final");
    assert_eq!(tag_scope_prefix("letter.md"), "refs/lengua/tags/letter.md/");
    assert_eq!(tag_lookup_ref("letter.md", "final"), Some(s("refs/lengua/tags/letter.md/final")));
    assert_eq!(tag_lookup_ref("letter.md", "HEAD~1"), None);
}

#[test]
fn tag_listing_strips_the_prefix_and_sorts() {
    let refs = vec![
        (s("refs/lengua/tags/l.md/v2"), s("c2")),
        (s("refs/lengua/tags/l.md/final"), s("c1")),
        (s("refs/lengua/tags/l.md/a"), s("c3")),
    ];
    let tags = tag_entries("refs/lengua/tags/l.md/", &refs);
    assert_eq!(
        tags,
        vec![
            TagEntry { tag: s("a"), commit: s("c3") },
            TagEntry { tag: s("final"), commit: s("c1") },
            TagEntry { tag: s("v2"), commit: s("c2") },
        ]
    );
}

#[test]
fn tag_create_and_remove_rules() {
    assert!(check_tag_free("l.md", "final", false, false).is_ok());
    assert!(check_tag_free("l.md", "final", true, true).is_ok());
    assert_eq!(
        check_tag_free("l.md", "final", true, false),
        Err(Error::TagAlreadyExists { name: s("l.md"), tag: s("final") })
    );
    assert!(check_tag_present("l.md", "final", true).is_ok());
    assert_eq!(
        check_tag_present("l.md", "nope", false),
        Err(Error::TagNotFound { name: s("l.md"), tag: s("nope") })
    );
}

#[test]
fn log_keeps_only_commits_that_change_the_file() {
    let records = vec![
        (s("c4"), s("unrelated"), Some(s("b2"))),
        (s("c3"), s("second"), Some(s("b2"))),
        (s("c2"), s("other file"), Some(s("b1"))),
        (s("c1"), s("first"), Some(s("b1"))),
        (s("c0"), s("before"), None),
    ];
    let log = collapse_log(&records);
    let got: Vec<(&str, &str)> = log.iter().map(|e| (e.commit.as_str(), e.message.as_str())).collect();
    assert_eq!(got, vec![("c3", "second"), ("c1", "first")]);
}

#[test]
fn an_unrelated_later_commit_does_not_replace_the_change() {
    let records = vec![
        (s("c3"), s("v2"), Some(s("C"))),
        (s("c2"), s("other"), Some(s("A"))),
        (s("c1"), s("v1"), Some(s("A"))),
    ];
    let log = collapse_log(&records);
    let got: Vec<(&str, &str)> = log.iter().map(|e| (e.commit.as_str(), e.message.as_str())).collect();
    assert_eq!(got, vec![("c3", "v2"), ("c1", "v1")]);
}

#[test]
fn a_template_brought_back_counts_as_a_change() {
    let records = vec![
        (s("c3"), s("restore"), Some(s("A"))),
        (s("c2"), s("delete"), None),
        (s("c1"), s("add"), Some(s("A"))),
    ];
    let log = collapse_log(&records);
    let got: Vec<&str> = log.iter().map(|e| e.commit.as_str()).collect();
    assert_eq!(got, vec!["c3", "c1"]);
    assert!(collapse_log(&Vec::new()).is_empty());
}

#[test]
fn names_are_joined_sorted_and_unique() {
    let paths = vec![
        vec![s("greetings"), s("hello.md")],
        vec![s("bye.md")],
        vec![],
        vec![s("bye.md")],
    ];
    assert_eq!(template_names(&paths), vec![s("bye.md"), s("greetings/hello.md")]);
    assert_eq!(git_path("a/b.md"), "templates/a/b.md");
}

#[test]
fn entries_parse_their_text() {
    let e = template_entry("hello.md", "---\ntitle: Hello\n---\n\nHi {{ name }}!\n").unwrap();
    assert_eq!(e.name, "hello.md");
    assert_eq!(e.meta.title.as_deref(), Some("Hello"));
    assert_eq!(e.body, "Hi {{ name }}!");
}

#[test]
fn error_messages_name_their_values() {
    assert_eq!(
        Error::TagAlreadyExists { name: s("l.md"), tag: s("v1") }.message(),
        "tag 'v1' already exists on 'l.md' (use --force to overwrite)"
    );
    assert_eq!(Error::NotFound(s("x.md")).message(), "template not found: x.md");
    assert_eq!(
        Error::SkillAlreadyExists { paths: vec![s("a"), s("b")] }.message(),
        "skill file(s) already exist: a, b (use --force to overwrite)"
    );
    assert_eq!(
        Error::InvalidRevision { name: s("n"), rev: s("r"), reason: s("why") }.message(),
        "invalid revision 'r' for 'n': why"
    );
}

#[test]
fn a_created_tag_is_listed_under_its_name() {
    let full = lengua::tags::tag_ref_name("letters/thanks.md", "final");
    let prefix = lengua::tags::tag_scope_prefix("letters/thanks.md");
    let listed = lengua::store::tag_entries(&prefix, &vec![(full, "c0ffee".to_string())]);
    assert_eq!(
        listed,
        vec![lengua::tags::TagEntry { tag: "final".to_string(), commit: "c0ffee".to_string() }]
    );
}

#[test]
fn a_subdir_import_reuses_an_existing_store_only_with_force() {
    assert_eq!(lengua::store::subdir_import_reuses("d", false, false).unwrap(), false);
    assert_eq!(lengua::store::subdir_import_reuses("d", true, true).unwrap(), true);
    assert_eq!(
        lengua::store::subdir_import_reuses("d", true, false).unwrap_err(),
        Error::AlreadyInitialized(s("d"))
    );
}
