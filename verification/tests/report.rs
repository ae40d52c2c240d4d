use lengua::error::Error;
use lengua::library::ShadowWarning;
use lengua::report::{shadow_line, short_id, update_report, update_row};
use lengua::source::UpdateStatus;

#[test]
fn short_ids_keep_twelve_characters() {
    assert_eq!(short_id("0123456789abcdef0123"), "0123456789ab");
    assert_eq!(short_id("abc"), "abc");
    assert_eq!(short_id("0123456789ab"), "0123456789ab");
    assert_eq!(short_id(""), "");
}

#[test]
fn update_rows_name_each_outcome() {
    let (row, hard) = update_row("a", &Ok(UpdateStatus::UpToDate));
    assert_eq!((row.source.as_str(), row.status.as_str(), row.detail), ("a", "up-to-date", None));
    assert!(!hard);

    let (row, hard) = update_row(
        "b",
        &Ok(UpdateStatus::FastForwarded {
            from: "1111111111111111".to_string(),
            to: "2222222222222222".to_string(),
        }),
    );
    assert_eq!(row.status, "fast-forwarded");
    assert_eq!(row.detail.as_deref(), Some("111111111111..222222222222"));
    assert!(!hard);

    let (row, hard) = update_row("c", &Err(Error::NotFastForward { name: "c".to_string() }));
    assert_eq!(row.status, "error");
    assert_eq!(
        row.detail.as_deref(),
        Some("source 'c' has diverged from its origin and can't be fast-forwarded — resolve manually or re-fetch it fresh")
    );
    assert!(hard);

    let (row, hard) = update_row(
        "d",
        &Err(Error::SourceNotUpdatable {
            name: "d".to_string(),
            reason: "a local source has no origin to update from".to_string(),
        }),
    );
    assert_eq!(row.status, "not-updatable");
    assert_eq!(
        row.detail.as_deref(),
        Some("source 'd' can't be updated: a local source has no origin to update from")
    );
    assert!(!hard);
}

#[test]
fn one_diverged_source_fails_the_whole_update() {
    let results = vec![
        ("a".to_string(), Ok(UpdateStatus::UpToDate)),
        ("b".to_string(), Err(Error::NotFastForward { name: "b".to_string() })),
        ("c".to_string(), Ok(UpdateStatus::UpToDate)),
    ];
    let (rows, hard) = update_report(&results);
    assert_eq!(rows.len(), 3);
    assert_eq!(rows[1].status, "error");
    assert!(hard);

    let (rows, hard) = update_report(&vec![("a".to_string(), Ok(UpdateStatus::UpToDate))]);
    assert_eq!(rows.len(), 1);
    assert!(!hard);
    let (rows, hard) = update_report(&Vec::new());
    assert!(rows.is_empty());
    assert!(!hard);
}

#[test]
fn shadow_lines_name_all_three_parties() {
    let w = ShadowWarning {
        name: "x.md".to_string(),
        winner: "team".to_string(),
        loser: "local".to_string(),
    };
    assert_eq!(shadow_line(&w), "'x.md' is now shadowed by 'team' (also defined in 'local')");
}
