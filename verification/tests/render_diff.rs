use lengua::diff::{diff_text, DiffLine, DiffTag};
use lengua::error::Error;
use lengua::template::{context_from_pairs, render};

fn ctx(pairs: &[(&str, &str)]) -> Vec<(String, String)> {
    context_from_pairs(
        pairs
            .iter()
            .map(|(k, v)| (k.to_string(), v.to_string()))
            .collect(),
    )
}

#[test]
fn substitutes_variables() {
    let out = render("Dear {{ name }},", &ctx(&[("name", "Ada")])).unwrap();
    assert_eq!(out, "Dear Ada,");
}

#[test]
fn renders_without_variables_when_unused() {
    let out = render("static text", &ctx(&[])).unwrap();
    assert_eq!(out, "static text");
}

#[test]
fn later_variable_wins_and_context_is_sorted() {
    let c = ctx(&[("b", "1"), ("a", "2"), ("b", "3")]);
    assert_eq!(
        c,
        vec![
            ("a".to_string(), "2".to_string()),
            ("b".to_string(), "3".to_string())
        ]
    );
    assert_eq!(render("{{ b }}{{ a }}", &c).unwrap(), "32");
}

#[test]
fn a_broken_template_is_a_render_error() {
    let err = render("{% if %}", &ctx(&[])).unwrap_err();
    assert!(matches!(err, Error::Render(_)));
}

#[test]
fn flags_added_and_removed_lines() {
    let lines = diff_text("a\nb\nc\n", "a\nx\nc\n");
    let tags: Vec<DiffTag> = lines.iter().map(|l| l.tag).collect();
    assert!(tags.contains(&DiffTag::Insert));
    assert!(tags.contains(&DiffTag::Delete));
}

#[test]
fn diff_lines_carry_text_without_newlines() {
    let lines = diff_text("First version.\n", "Second version.\n");
    assert_eq!(
        lines,
        vec![
            DiffLine { tag: DiffTag::Delete, line: "First version.".into() },
            DiffLine { tag: DiffTag::Insert, line: "Second version.".into() },
        ]
    );
    let same = diff_text("a\nb\n", "a\nb\n");
    assert!(same.iter().all(|l| l.tag == DiffTag::Equal));
    assert_eq!(same.len(), 2);
}
