use lengua::error::Error;
use lengua::library::{
    derive_name_from_dir, derive_name_from_url, fetch_warnings, filter_by_query, merge,
    init_mode, name_new_source, reimport_target, resolve_local_source_dir, InitMode, resolve_source, update_plan, winner_of,
    ShadowWarning, UpdateAction,
};
use lengua::manifest::{manifest_path, SourceEntry, SourceKind, SourcesManifest};
use lengua::meta::TemplateMeta;
use lengua::query::Query;
use lengua::store::TemplateEntry;
use lengua::yaml::YamlValue;

fn s(x: &str) -> String {
    x.to_string()
}

fn warn(name: &str, winner: &str, loser: &str) -> ShadowWarning {
    ShadowWarning { name: s(name), winner: s(winner), loser: s(loser) }
}

#[test]
fn names_derive_from_directories() {
    assert_eq!(derive_name_from_dir("/tmp/acme-templates"), "acme-templates");
    assert_eq!(derive_name_from_dir("acme/"), "acme");
    assert_eq!(derive_name_from_dir("acme/."), "acme");
    assert_eq!(derive_name_from_dir("a/.."), "source");
    assert_eq!(derive_name_from_dir("/"), "source");
    assert_eq!(derive_name_from_dir("."), "source");
    assert_eq!(derive_name_from_dir(""), "source");
}

#[test]
fn names_derive_from_urls() {
    assert_eq!(derive_name_from_url("https://github.com/acme/team-templates.git"), "team-templates");
    assert_eq!(derive_name_from_url("file:///srv/team-templates/"), "team-templates");
    assert_eq!(derive_name_from_url("https://x/y/repo.git.git"), "repo");
    assert_eq!(derive_name_from_url("git@github.com:acme"), "git@github.com:acme");
    assert_eq!(derive_name_from_url("https://x/.git"), "source");
    assert_eq!(derive_name_from_url("///"), "source");
}

#[test]
fn local_source_dir_redirects_into_a_single_source_library() {
    assert_eq!(resolve_local_source_dir("/p", None).unwrap(), "/p");
    assert_eq!(resolve_local_source_dir("/p", Some(&vec![s("only")])).unwrap(), "/p/.lengua/only");
    assert_eq!(
        resolve_local_source_dir("/p", Some(&vec![])).unwrap_err(),
        Error::Git(s("'/p' is a lengua library with no sources"))
    );
    assert_eq!(
        resolve_local_source_dir("/p", Some(&vec![s("a"), s("b")])).unwrap_err(),
        Error::Git(s("'/p' is a lengua library with multiple sources (a, b) — point --from-dir at one directly, e.g. '/p/.lengua/<name>'"))
    );
}

fn manifest_with(names: &[&str]) -> SourcesManifest {
    let mut m = SourcesManifest::new();
    for n in names {
        m.push(SourceEntry { name: s(n), kind: SourceKind::Local }).unwrap();
    }
    m
}

#[test]
fn new_sources_are_named_and_checked_for_collisions() {
    let existing = manifest_with(&["local"]);
    assert_eq!(
        name_new_source(None, Some("/x/acme-templates"), None, None, false, &existing).unwrap(),
        (s("acme-templates"), false)
    );
    assert_eq!(
        name_new_source(None, None, Some("file:///x/team-templates"), None, false, &existing).unwrap(),
        (s("team-templates"), false)
    );
    assert_eq!(
        name_new_source(Some("extra"), Some("/x/local"), None, None, false, &existing).unwrap(),
        (s("extra"), false)
    );
    assert_eq!(
        name_new_source(None, Some("/x/local"), None, None, false, &existing).unwrap_err(),
        Error::DuplicateSourceName { name: s("local") }
    );
    assert_eq!(
        name_new_source(None, None, None, None, false, &existing).unwrap_err(),
        Error::Git(s("exactly one of --from-dir/--from-repo is required"))
    );
    assert_eq!(
        name_new_source(None, Some("a"), Some("b"), None, false, &existing).unwrap_err(),
        Error::Git(s("exactly one of --from-dir/--from-repo is required"))
    );
}

#[test]
fn manifest_push_refuses_duplicates_and_keeps_order() {
    let mut m = manifest_with(&["local", "extra"]);
    let err = m.push(SourceEntry { name: s("local"), kind: SourceKind::Local }).unwrap_err();
    assert_eq!(err, Error::DuplicateSourceName { name: s("local") });
    assert!(m.contains("extra"));
    assert!(!m.contains("other"));
    let names: Vec<&str> = m.sources.iter().map(|e| e.name.as_str()).collect();
    assert_eq!(names, vec!["local", "extra"]);
    assert_eq!(m.version, 1);
    assert_eq!(manifest_path("/r/.lengua"), "/r/.lengua/sources.toml");
}

#[test]
fn resolve_source_needs_an_unambiguous_target() {
    let one = vec![s("local")];
    let two = vec![s("local"), s("extra")];
    assert_eq!(resolve_source(&one, None).unwrap(), 0);
    assert_eq!(resolve_source(&two, Some("extra")).unwrap(), 1);
    assert_eq!(
        resolve_source(&two, None).unwrap_err(),
        Error::AmbiguousSource { candidates: s("local, extra") }
    );
    assert_eq!(
        resolve_source(&two, Some("nope")).unwrap_err(),
        Error::UnknownSource { name: s("nope") }
    );
}

#[test]
fn merge_lets_the_last_fetched_source_win_and_warns() {
    let sources = vec![
        (s("corp"), vec![s("footer.md"), s("welcome.md")]),
        (s("sales"), vec![s("sales/pitch.md"), s("welcome.md")]),
        (s("project"), vec![s("footer.md"), s("welcome.md")]),
    ];
    let (winners, warnings) = merge(&sources);
    assert_eq!(
        winners,
        vec![(s("footer.md"), 2), (s("sales/pitch.md"), 1), (s("welcome.md"), 2)]
    );
    assert_eq!(
        warnings,
        vec![
            warn("welcome.md", "sales", "corp"),
            warn("footer.md", "project", "corp"),
            warn("welcome.md", "project", "sales"),
        ]
    );
    assert_eq!(winner_of(&winners, "welcome.md").unwrap(), 2);
    assert_eq!(winner_of(&winners, "x.md").unwrap_err(), Error::NotFound(s("x.md")));
}

#[test]
fn fetch_reports_every_name_the_new_source_shadows() {
    let existing = vec![(s("local"), vec![s("a.md"), s("shared.md")]), (s("b"), vec![s("shared.md")])];
    let got = fetch_warnings("extra", &vec![s("shared.md"), s("z.md")], &existing);
    assert_eq!(got, vec![warn("shared.md", "extra", "local"), warn("shared.md", "extra", "b")]);
    assert!(fetch_warnings("extra", &vec![s("q.md")], &existing).is_empty());
}

#[test]
fn update_plan_reports_on_every_source() {
    let entries = vec![
        SourceEntry { name: s("local"), kind: SourceKind::Local },
        SourceEntry { name: s("copy"), kind: SourceKind::Copied { origin: s("/src"), subdir: None } },
        SourceEntry { name: s("sub"), kind: SourceKind::Cloned { url: s("u"), git_ref: None, subdir: Some(s("x")) } },
        SourceEntry { name: s("remote"), kind: SourceKind::Cloned { url: s("https://e.com/t.git"), git_ref: Some(s("main")), subdir: None } },
    ];
    let plan = update_plan(&entries, None);
    assert_eq!(plan.len(), 4);
    assert!(matches!(&plan[0].1, Err(Error::SourceNotUpdatable { reason, .. }) if reason == "a local source has no origin to update from"));
    assert!(matches!(&plan[1].1, Ok(UpdateAction::FromCopy { origin }) if origin == "/src"));
    assert!(matches!(&plan[2].1, Err(Error::SourceNotUpdatable { reason, .. }) if reason == "imported via --subdir; history wasn't preserved so there's nothing to fast-forward against"));
    assert!(matches!(&plan[3].1, Ok(UpdateAction::FromClone { url, git_ref: Some(r) }) if url == "https://e.com/t.git" && r == "main"));
    let one = update_plan(&entries, Some("copy"));
    assert_eq!(one.len(), 1);
    assert_eq!(one[0].0, "copy");
    let missing = update_plan(&entries, Some("nope"));
    assert_eq!(missing[0].0, "nope");
    assert!(matches!(&missing[0].1, Err(Error::UnknownSource { name }) if name == "nope"));
}

fn entry(name: &str, tone: &str) -> TemplateEntry {
    let mut meta = TemplateMeta::new();
    meta.insert_field(s("tone"), YamlValue::Str(s(tone)));
    TemplateEntry { name: s(name), meta, body: s("") }
}

#[test]
fn search_keeps_matching_entries_in_order() {
    let entries = vec![
        (entry("formal.md", "formal"), s("local")),
        (entry("casual.md", "casual"), s("local")),
        (entry("other.md", "formal"), s("extra")),
    ];
    let found = filter_by_query(entries, &Query::new().with("tone", "formal"));
    let names: Vec<(&str, &str)> = found.iter().map(|(e, src)| (e.name.as_str(), src.as_str())).collect();
    assert_eq!(names, vec![("formal.md", "local"), ("other.md", "extra")]);
}

#[test]
fn force_with_a_subdir_reimports_into_an_existing_source() {
    let mut existing = SourcesManifest::new();
    existing.push(SourceEntry { name: s("x"), kind: SourceKind::Copied { origin: s("/d"), subdir: Some(s("s")) } }).unwrap();
    assert_eq!(
        name_new_source(Some("x"), Some("/d"), None, Some("s"), true, &existing).unwrap(),
        (s("x"), true)
    );
    assert_eq!(
        name_new_source(Some("x"), Some("/d"), None, Some("s"), false, &existing).unwrap_err(),
        Error::DuplicateSourceName { name: s("x") }
    );
    assert_eq!(
        name_new_source(Some("x"), Some("/d"), None, None, true, &existing).unwrap_err(),
        Error::DuplicateSourceName { name: s("x") }
    );
    assert_eq!(
        name_new_source(Some("y"), Some("/d"), None, Some("s"), true, &existing).unwrap(),
        (s("y"), false)
    );
}

#[test]
fn init_over_a_library_needs_force_and_a_subdir() {
    assert_eq!(init_mode("lib", false, false, None).unwrap(), InitMode::Create);
    assert_eq!(init_mode("lib", true, true, Some("s")).unwrap(), InitMode::Reimport);
    assert_eq!(init_mode("lib", true, true, None).unwrap_err(), Error::AlreadyInitialized(s("lib")));
    assert_eq!(init_mode("lib", true, false, Some("s")).unwrap_err(), Error::AlreadyInitialized(s("lib")));

    let mut existing = SourcesManifest::new();
    existing.push(SourceEntry { name: s("d"), kind: SourceKind::Copied { origin: s("/src/d"), subdir: Some(s("s")) } }).unwrap();
    assert_eq!(reimport_target("lib", None, Some("/src/d"), None, Some("s"), &existing).unwrap(), s("d"));
    assert_eq!(
        reimport_target("lib", Some("other"), Some("/src/d"), None, Some("s"), &existing).unwrap_err(),
        Error::AlreadyInitialized(s("lib"))
    );
    assert_eq!(
        reimport_target("lib", None, Some("/src/d"), None, None, &existing).unwrap_err(),
        Error::DuplicateSourceName { name: s("d") }
    );
}

#[test]
fn a_name_held_by_three_sources_gives_two_chained_warnings() {
    let sources = vec![
        (s("corp"), vec![s("footer.md"), s("welcome.md")]),
        (s("project"), vec![s("footer.md")]),
        (s("sales"), vec![s("welcome.md")]),
        (s("team"), vec![s("footer.md"), s("only.md")]),
    ];
    let (_, warnings) = merge(&sources);
    let footer: Vec<&ShadowWarning> = warnings.iter().filter(|w| w.name == "footer.md").collect();
    assert_eq!(footer, vec![&warn("footer.md", "project", "corp"), &warn("footer.md", "team", "project")]);
    let welcome: Vec<&ShadowWarning> = warnings.iter().filter(|w| w.name == "welcome.md").collect();
    assert_eq!(welcome, vec![&warn("welcome.md", "sales", "corp")]);
    assert!(warnings.iter().all(|w| w.name != "only.md"));
    assert_eq!(warnings.len(), 3);
}

#[test]
fn a_reimport_warns_only_about_the_sources_it_shadows() {
    let existing = vec![
        (s("corp"), vec![s("a.md"), s("b.md")]),
        (s("x"), vec![s("a.md")]),
        (s("team"), vec![s("b.md")]),
    ];
    let got = lengua::library::reimport_warnings("x", &vec![s("a.md"), s("b.md")], &existing);
    assert_eq!(got, vec![warn("a.md", "x", "corp"), warn("b.md", "x", "corp")]);
    let all = lengua::library::reimport_warnings("absent", &vec![s("b.md")], &existing);
    assert_eq!(all, vec![warn("b.md", "absent", "corp"), warn("b.md", "absent", "team")]);
}
