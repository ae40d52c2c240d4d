use lengua::cli::{merge_cli_metadata, parse_kv_pairs};
use lengua::meta::TemplateMeta;
use lengua::output::{deleted, dim, heading, inserted, tag_name};
use lengua::yaml::YamlValue;

fn strings(v: &[&str]) -> Vec<String> {
    v.iter().map(|s| s.to_string()).collect()
}

#[test]
fn kv_pairs_split_at_the_first_equals() {
    let pairs = parse_kv_pairs(&strings(&["name=Ada", "expr=a=b", "empty="])).unwrap();
    assert_eq!(
        pairs,
        vec![
            ("name".to_string(), "Ada".to_string()),
            ("expr".to_string(), "a=b".to_string()),
            ("empty".to_string(), "".to_string()),
        ]
    );
}

#[test]
fn kv_pairs_report_the_first_malformed_argument() {
    let err = parse_kv_pairs(&strings(&["a=1", "oops", "also-bad"])).unwrap_err();
    assert_eq!(err, "expected `key=value`, got `oops`");
    assert_eq!(parse_kv_pairs(&[]).unwrap(), vec![]);
}

#[test]
fn palette_wraps_text_in_ansi_codes() {
    assert_eq!(inserted("+ a"), "\x1b[32m+ a\x1b[39m");
    assert_eq!(deleted("- a"), "\x1b[31m- a\x1b[39m");
    assert_eq!(tag_name("v1"), "\x1b[36mv1\x1b[39m");
    assert_eq!(heading("Done"), "\x1b[1mDone\x1b[0m");
    assert_eq!(dim("abc123"), "\x1b[2mabc123\x1b[0m");
}

#[test]
fn cli_fields_override_the_input_frontmatter() {
    let mut meta = TemplateMeta::new();
    meta.title = Some("Old".to_string());
    meta.insert_field("tone".to_string(), YamlValue::Str("casual".to_string()));
    meta.insert_field("lang".to_string(), YamlValue::Str("en".to_string()));
    let merged = merge_cli_metadata(
        meta,
        Some("New".to_string()),
        vec![
            ("tone".to_string(), "formal".to_string()),
            ("audience".to_string(), "x".to_string()),
            ("tone".to_string(), "neutral".to_string()),
        ],
    );
    assert_eq!(merged.title.as_deref(), Some("New"));
    let keys: Vec<&str> = merged.fields.iter().map(|(k, _)| k.as_str()).collect();
    assert_eq!(keys, vec!["audience", "lang", "tone"]);
    assert_eq!(merged.field_strings("tone"), vec!["neutral".to_string()]);
    assert_eq!(merged.field_strings("lang"), vec!["en".to_string()]);
}

#[test]
fn cli_without_title_keeps_the_input_title() {
    let mut meta = TemplateMeta::new();
    meta.title = Some("Kept".to_string());
    let merged = merge_cli_metadata(meta, None, vec![]);
    assert_eq!(merged.title.as_deref(), Some("Kept"));
    assert!(merged.fields.is_empty());
}
