use lengua::error::Error;
use lengua::frontmatter::parse;
use lengua::skills::{check_skill_targets, skill_target, AUTHORING_SKILL, AUTHORING_SKILL_NAME};
use lengua::yaml::YamlValue;

fn bundled() -> Vec<(&'static str, &'static str)> {
    vec![(AUTHORING_SKILL_NAME, AUTHORING_SKILL)]
}

fn text_field(fields: &[(String, YamlValue)], key: &str) -> Option<String> {
    fields.iter().find(|(k, _)| k == key).and_then(|(_, v)| match v {
        YamlValue::Str(s) => Some(s.clone()),
        _ => None,
    })
}

#[test]
fn every_skill_name_has_a_checked_in_directory() {
    for (name, content) in bundled() {
        let target = skill_target(".", name);
        assert_eq!(target, format!("./{name}/SKILL.md"), "missing {target}");
        assert!(!content.is_empty(), "missing {target}");
    }
}

#[test]
fn frontmatter_name_matches_the_containing_directory() {
    for (name, content) in bundled() {
        let parsed = parse(content).unwrap();
        let got = text_field(&parsed.meta.fields, "name");
        assert_eq!(got.as_deref(), Some(name));
    }
}

#[test]
fn frontmatter_description_is_a_non_empty_string() {
    for (_, content) in bundled() {
        let parsed = parse(content).unwrap();
        let description = text_field(&parsed.meta.fields, "description").unwrap_or_default();
        assert!(!description.trim().is_empty());
    }
}

#[test]
fn body_is_non_empty() {
    for (_, content) in bundled() {
        let parsed = parse(content).unwrap();
        assert!(!parsed.body.trim().is_empty());
    }
}

#[test]
fn skill_targets_sit_in_a_directory_per_skill() {
    assert_eq!(
        skill_target("out", "lengua-template-authoring"),
        "out/lengua-template-authoring/SKILL.md"
    );
    assert_eq!(skill_target("out/", "s"), "out/s/SKILL.md");
}

#[test]
fn export_refuses_existing_files_unless_forced() {
    let targets = vec![
        ("a/SKILL.md".to_string(), true),
        ("b/SKILL.md".to_string(), false),
        ("c/SKILL.md".to_string(), true),
    ];
    let err = check_skill_targets(&targets, false).unwrap_err();
    assert_eq!(
        err,
        Error::SkillAlreadyExists {
            paths: vec!["a/SKILL.md".to_string(), "c/SKILL.md".to_string()]
        }
    );
    assert!(check_skill_targets(&targets, true).is_ok());
    assert!(check_skill_targets(&vec![("x".to_string(), false)], false).is_ok());
}
