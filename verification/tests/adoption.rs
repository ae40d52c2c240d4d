use lengua::error::Error;
use lengua::manifest::SourceKind;
use lengua::source::{
    clone_or_copy_route, fast_forward_status, local_path_of, mechanism_of, recorded_kind,
    AdoptionMechanism, Route, Source, UpdateStatus,
};

#[test]
fn bare_and_file_paths_are_local() {
    assert_eq!(local_path_of("/srv/templates").unwrap(), Some("/srv/templates".to_string()));
    assert_eq!(local_path_of("file:///srv/templates").unwrap(), Some("/srv/templates".to_string()));
    assert_eq!(local_path_of("./rel/dir").unwrap(), Some("./rel/dir".to_string()));
}

#[test]
fn remotes_name_no_local_path() {
    assert_eq!(local_path_of("https://github.com/acme/templates.git").unwrap(), None);
    assert_eq!(local_path_of("ssh://git@example.com/acme/t.git").unwrap(), None);
    assert_eq!(local_path_of("git@github.com:acme/templates.git").unwrap(), None);
}

#[test]
fn an_empty_location_does_not_parse() {
    match local_path_of("") {
        Err(Error::Git(msg)) => assert!(!msg.is_empty()),
        other => panic!("unexpected {other:?}"),
    }
}

#[test]
fn a_directory_is_always_copied() {
    let route = clone_or_copy_route(&Source::Dir("/a/b".to_string()), Some("main")).unwrap();
    match &route {
        Route::Copy { path } => assert_eq!(path, "/a/b"),
        other => panic!("unexpected {other:?}"),
    }
    assert_eq!(mechanism_of(&route), AdoptionMechanism::Copied);
}

#[test]
fn a_local_url_without_ref_is_copied() {
    let route = clone_or_copy_route(&Source::Url("file:///a/b".to_string()), None).unwrap();
    match route {
        Route::Copy { path } => assert_eq!(path, "/a/b"),
        other => panic!("unexpected {other:?}"),
    }
}

#[test]
fn a_requested_ref_forces_a_clone() {
    let route = clone_or_copy_route(&Source::Url("/a/b".to_string()), Some("v2")).unwrap();
    match &route {
        Route::Clone { url, git_ref } => {
            assert_eq!(url, "/a/b");
            assert_eq!(git_ref.as_deref(), Some("v2"));
        }
        other => panic!("unexpected {other:?}"),
    }
    assert_eq!(mechanism_of(&route), AdoptionMechanism::Cloned);
}

#[test]
fn a_remote_without_ref_is_cloned_at_its_default() {
    let route =
        clone_or_copy_route(&Source::Url("https://example.com/t.git".to_string()), None).unwrap();
    match route {
        Route::Clone { url, git_ref } => {
            assert_eq!(url, "https://example.com/t.git");
            assert_eq!(git_ref, None);
        }
        other => panic!("unexpected {other:?}"),
    }
}

#[test]
fn a_copy_records_its_directory_and_subdir() {
    let kind = recorded_kind(AdoptionMechanism::Copied, Some("/src/lib"), None, None, Some("sub"))
        .unwrap();
    match kind {
        SourceKind::Copied { origin, subdir } => {
            assert_eq!(origin, "/src/lib");
            assert_eq!(subdir.as_deref(), Some("sub"));
        }
        other => panic!("unexpected {other:?}"),
    }
}

#[test]
fn a_copied_url_records_the_path_it_names() {
    let kind =
        recorded_kind(AdoptionMechanism::Copied, None, Some("file:///x/y"), None, None).unwrap();
    match kind {
        SourceKind::Copied { origin, subdir } => {
            assert_eq!(origin, "/x/y");
            assert_eq!(subdir, None);
        }
        other => panic!("unexpected {other:?}"),
    }
}

#[test]
fn a_copied_remote_is_refused() {
    let err = recorded_kind(AdoptionMechanism::Copied, None, Some("https://e.com/t"), None, None)
        .unwrap_err();
    assert_eq!(err, Error::Git("'https://e.com/t' was copied but isn't a local path".to_string()));
}

#[test]
fn a_clone_records_url_and_ref() {
    let kind = recorded_kind(
        AdoptionMechanism::Cloned,
        None,
        Some("https://e.com/t.git"),
        Some("main"),
        None,
    )
    .unwrap();
    match kind {
        SourceKind::Cloned { url, git_ref, subdir } => {
            assert_eq!(url, "https://e.com/t.git");
            assert_eq!(git_ref.as_deref(), Some("main"));
            assert_eq!(subdir, None);
        }
        other => panic!("unexpected {other:?}"),
    }
}

#[test]
fn update_status_follows_the_commits() {
    assert_eq!(fast_forward_status("s", "abc", "abc", false).unwrap(), UpdateStatus::UpToDate);
    assert_eq!(
        fast_forward_status("s", "abc", "def", true).unwrap(),
        UpdateStatus::FastForwarded { from: "abc".to_string(), to: "def".to_string() }
    );
    assert_eq!(
        fast_forward_status("s", "abc", "def", false).unwrap_err(),
        Error::NotFastForward { name: "s".to_string() }
    );
}
