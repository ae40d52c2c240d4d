use lengua::meta::TemplateMeta;
use lengua::query::Query;
use lengua::yaml::YamlValue;

fn meta_with(fields: Vec<(&str, YamlValue)>) -> TemplateMeta {
    let mut meta = TemplateMeta::new();
    for (k, v) in fields {
        meta.insert_field(k.to_string(), v);
    }
    meta
}

#[test]
fn matches_scalar_and_sequence_fields() {
    let meta = meta_with(vec![
        ("tense", YamlValue::Str("present".into())),
        (
            "jurisdiction",
            YamlValue::List(vec![
                YamlValue::Str("CA".into()),
                YamlValue::Str("NY".into()),
            ]),
        ),
    ]);

    assert!(Query::new().with("tense", "present").matches(&meta));
    assert!(Query::new().with("jurisdiction", "NY").matches(&meta));
    assert!(!Query::new().with("tense", "past").matches(&meta));
    assert!(
        !Query::new()
            .with("tense", "present")
            .with("jurisdiction", "TX")
            .matches(&meta)
    );
}

#[test]
fn empty_query_matches_everything() {
    assert!(Query::new().matches(&TemplateMeta::new()));
}

#[test]
fn query_reports_emptiness_and_matches_title_and_numbers() {
    let mut meta = meta_with(vec![
        ("version", YamlValue::Int(2)),
        ("draft", YamlValue::Bool(false)),
    ]);
    meta.title = Some("Report".into());
    assert!(Query::new().is_empty());
    assert!(!Query::new().with("title", "Report").is_empty());
    assert!(Query::new().with("title", "Report").matches(&meta));
    assert!(Query::new().with("version", "2").matches(&meta));
    assert!(Query::new().with("draft", "false").matches(&meta));
    assert!(!Query::new().with("missing", "x").matches(&meta));
}

#[test]
fn later_field_insert_replaces_the_value() {
    let mut meta = TemplateMeta::new();
    meta.insert_field("tone".into(), YamlValue::Str("a".into()));
    meta.insert_field("tone".into(), YamlValue::Str("b".into()));
    assert_eq!(meta.fields.len(), 1);
    assert_eq!(meta.field_strings("tone"), vec!["b".to_string()]);
}
