use commit_tracker::extension::{derive_extension, is_allowed};

#[test]
fn extension_is_what_follows_the_last_dot() {
    assert_eq!(derive_extension("main.go"), Some("go".to_string()));
    assert_eq!(derive_extension("archive.tar.gz"), Some("gz".to_string()));
    assert_eq!(derive_extension("src/lib.rs"), Some("rs".to_string()));
}

#[test]
fn name_without_dot_has_no_extension() {
    assert_eq!(derive_extension("Makefile"), None);
    assert_eq!(derive_extension(""), None);
    assert_eq!(derive_extension("rs"), None);
}

#[test]
fn name_ending_in_dot_has_empty_extension() {
    assert_eq!(derive_extension("notes."), Some(String::new()));
    assert_eq!(derive_extension("."), Some(String::new()));
}

#[test]
fn allow_list_holds_exactly_six_extensions() {
    for ext in ["rs", "py", "lua", "go", "ts", "vue"] {
        assert!(is_allowed(ext));
    }
    for ext in ["", "md", "RS", "r", "rss", "tsx", "js", "vu", "luaa"] {
        assert!(!is_allowed(ext));
    }
}
