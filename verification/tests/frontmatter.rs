use lengua::error::Error;
use lengua::frontmatter::parse;
use lengua::meta::TemplateMeta;
use lengua::yaml::YamlValue;

#[test]
fn round_trips_metadata_and_body() {
    let mut meta = TemplateMeta::new();
    meta.title = Some("Thank You".into());
    meta.insert_field(
        "tags".to_string(),
        YamlValue::List(vec![
            YamlValue::Str("formal".into()),
            YamlValue::Str("english".into()),
        ]),
    );
    let body = "Dear {{ name }}, thank you.\n";

    let text = lengua::frontmatter::write(&meta, body).unwrap();
    let parsed = parse(&text).unwrap();

    assert_eq!(parsed.meta, meta);
    assert_eq!(parsed.body.trim_end(), body.trim_end());
}

#[test]
fn parses_body_with_no_frontmatter() {
    let parsed = parse("just a plain body\n").unwrap();
    assert_eq!(parsed.meta, TemplateMeta::new());
    assert_eq!(parsed.body.trim_end(), "just a plain body");
}

#[test]
fn write_frames_the_yaml_between_delimiters() {
    let mut meta = TemplateMeta::new();
    meta.title = Some("Hello".into());
    meta.insert_field("tone".into(), YamlValue::Str("casual".into()));
    let text = lengua::frontmatter::write(&meta, "Hi {{ name }}!\n").unwrap();
    assert_eq!(text, "---\ntitle: Hello\ntone: casual\n---\n\nHi {{ name }}!\n");
    let empty = lengua::frontmatter::write(&TemplateMeta::new(), "x").unwrap();
    assert_eq!(empty, "---\n{}\n---\n\nx");
}

#[test]
fn parses_scalars_of_every_kind() {
    let text = "---\ntitle: Letter\ncount: -42\nratio: 0.5\nurgent: true\nnothing: null\nnested:\n  a: 1\nlist:\n  - x\n  - [y, 3]\n---\nBody here\n";
    let parsed = parse(text).unwrap();
    let meta = parsed.meta;
    assert_eq!(meta.title.as_deref(), Some("Letter"));
    let keys: Vec<&str> = meta.fields.iter().map(|(k, _)| k.as_str()).collect();
    assert_eq!(keys, vec!["count", "list", "nested", "nothing", "ratio", "urgent"]);
    assert_eq!(meta.field_strings("count"), vec!["-42".to_string()]);
    assert_eq!(meta.field_strings("ratio"), vec!["0.5".to_string()]);
    assert_eq!(meta.field_strings("urgent"), vec!["true".to_string()]);
    assert!(meta.field_strings("nothing").is_empty());
    assert!(meta.field_strings("nested").is_empty());
    assert_eq!(
        meta.field_strings("list"),
        vec!["x".to_string(), "y".to_string(), "3".to_string()]
    );
    assert_eq!(meta.field_strings("title"), vec!["Letter".to_string()]);
    assert!(meta.field_strings("missing").is_empty());
    assert_eq!(parsed.body, "Body here");
}

#[test]
fn a_non_text_title_is_refused() {
    let err = parse("---\ntitle: 12\n---\nbody\n").err().unwrap();
    assert_eq!(
        err,
        Error::Frontmatter("Type error, expected: string".to_string())
    );
}

#[test]
fn a_null_title_is_no_title() {
    let parsed = parse("---\ntitle: ~\ntone: dry\n---\nbody\n").unwrap();
    assert_eq!(parsed.meta.title, None);
    assert_eq!(parsed.meta.field_strings("tone"), vec!["dry".to_string()]);
}

#[test]
fn a_list_as_frontmatter_is_refused() {
    let err = parse("---\n- a\n- b\n---\nbody\n").err().unwrap();
    assert_eq!(
        err,
        Error::Frontmatter("Type error, expected: hash map".to_string())
    );
}

#[test]
fn invalid_yaml_is_a_frontmatter_error() {
    let err = parse("---\ntitle: [unclosed\n---\nbody\n").err().unwrap();
    assert!(matches!(err, Error::Frontmatter(_)));
}

#[test]
fn empty_frontmatter_block_gives_default_metadata() {
    let parsed = parse("---\n---\nThis is content").unwrap();
    assert_eq!(parsed.meta, TemplateMeta::new());
    assert_eq!(parsed.body, "This is content");
}

#[test]
fn nested_mappings_come_in_key_order() {
    let parsed = lengua::frontmatter::parse("---\nmeta:\n  zeta: 1\n  alpha: two\n  mid: true\n---\nbody")
        .unwrap();
    assert_eq!(parsed.body, "body");
    assert_eq!(
        parsed.meta.fields,
        vec![(
            "meta".to_string(),
            lengua::yaml::YamlValue::Mapping(vec![
                ("alpha".to_string(), lengua::yaml::YamlValue::Str("two".to_string())),
                ("mid".to_string(), lengua::yaml::YamlValue::Bool(true)),
                ("zeta".to_string(), lengua::yaml::YamlValue::Int(1)),
            ])
        )]
    );
}

#[test]
fn an_unrenderable_value_is_a_write_error() {
    let mut meta = TemplateMeta::new();
    meta.insert_field("ratio".to_string(), YamlValue::Float("not a number".to_string()));
    match lengua::frontmatter::write(&meta, "body") {
        Err(Error::FrontmatterWrite(msg)) => assert!(!msg.is_empty()),
        other => panic!("unexpected {other:?}"),
    }
}

#[test]
fn a_float_field_is_written_as_a_number() {
    let mut meta = TemplateMeta::new();
    meta.insert_field("ratio".to_string(), YamlValue::Float("1.5".to_string()));
    assert_eq!(lengua::frontmatter::write(&meta, "b").unwrap(), "---\nratio: 1.5\n---\n\nb");
}

#[test]
fn null_frontmatter_gives_default_metadata() {
    let parsed = parse("---\n~\n---\nbody\n").unwrap();
    assert_eq!(parsed.meta, TemplateMeta::new());
    assert_eq!(parsed.body, "body");
}

#[test]
fn a_title_field_is_written_beside_the_title() {
    let mut meta = TemplateMeta::new();
    meta.title = Some("A".to_string());
    meta.insert_field("title".to_string(), YamlValue::Str("B".to_string()));
    assert_eq!(
        lengua::frontmatter::write(&meta, "body").unwrap(),
        "---\ntitle: A\ntitle: B\n---\n\nbody"
    );
}
