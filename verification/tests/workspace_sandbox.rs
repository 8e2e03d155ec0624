use vertex_ai::developer::{DeveloperError, FileChangeKind, TextReplacement, Workspace};
use vertex_ai::sandbox::{
    apply_edits, branch_from_head, check_line_range, check_read_size, check_registry_schema, count_matches,
    decode_text, diff_section, directory_listing, ensure_safe_read, extension_filter, extension_matches,
    file_change_of, file_query, ignored_directory, is_secret_path, line_count, lines_of, numbered_lines,
    plan_patch, replace_matches, search_files_in, search_text_in, text_query, tree_depth, tree_line,
    FileToolkit, WorkspaceBook,
};

fn workspace() -> Workspace {
    Workspace {
        id: 7,
        name: "test".to_owned(),
        root: "/work/repo".to_owned(),
        git_enabled: false,
        branch: None,
        registered_at: 1,
        last_opened_at: 1,
    }
}

fn edit(path: &str, expected: &str, replacement: &str, replace_all: bool) -> TextReplacement {
    TextReplacement {
        path: path.to_owned(),
        expected: expected.to_owned(),
        replacement: replacement.to_owned(),
        replace_all,
    }
}

#[test]
fn sandbox_rejects_parent_escape_and_secret_reads() {
    let toolkit = FileToolkit::new(workspace(), "/work/repo".to_owned());
    assert!(matches!(toolkit.check_relative("../outside.txt"), Err(DeveloperError::Sandbox(_))));
    assert!(matches!(toolkit.check_relative("/etc/passwd"), Err(DeveloperError::Sandbox(_))));
    assert!(matches!(toolkit.check_relative("src/../../x"), Err(DeveloperError::Sandbox(_))));
    assert!(matches!(ensure_safe_read("/work/repo/.env", true), Err(DeveloperError::Permission(_))));
    let safe = toolkit.check_relative("safe.txt").unwrap();
    assert_eq!(safe, "/work/repo/safe.txt");
    assert!(ensure_safe_read(&safe, true).is_ok());
    assert_eq!(decode_text(b"safe".to_vec()).unwrap(), "safe");
}

#[test]
fn containment_is_by_whole_components() {
    let toolkit = FileToolkit::new(workspace(), "/work/repo".to_owned());
    assert!(toolkit.ensure_contained("/work/repo").is_ok());
    assert!(toolkit.ensure_contained("/work/repo/src/lib.rs").is_ok());
    match toolkit.ensure_contained("/work/repository/x") {
        Err(DeveloperError::Sandbox(m)) => assert_eq!(m, "path escapes workspace root: /work/repository/x"),
        other => panic!("unexpected {other:?}"),
    }
    assert!(toolkit.ensure_contained("/work").is_err());
}

#[test]
fn secret_like_files_are_recognised() {
    for path in ["a/.env", "a/.ENV.local", "keys/id_rsa", "keys/ID_ED25519", "cert.pem", "c.pfx", "tls.key"] {
        assert!(is_secret_path(path), "{path}");
    }
    for path in ["a/env", "a/.envrc", "notes.txt", "cert.PEM", "src/key.rs"] {
        assert!(!is_secret_path(path), "{path}");
    }
    assert!(matches!(ensure_safe_read("dir", false), Err(DeveloperError::Invalid(_))));
    assert!(check_read_size(2 * 1024 * 1024).is_ok());
    assert!(matches!(check_read_size(2 * 1024 * 1024 + 1), Err(DeveloperError::Invalid(_))));
    assert!(matches!(decode_text(vec![0xff, 0xfe]), Err(DeveloperError::Invalid(_))));
}

#[test]
fn patch_produces_diff_and_rollback_restores_original() {
    let mut toolkit = FileToolkit::new(workspace(), "/work/repo".to_owned());
    let groups = plan_patch(&vec![edit("value.txt", "old", "new", false)]).unwrap();
    assert_eq!(groups.len(), 1);
    let (relative, edits) = &groups[0];
    toolkit.capture(relative, Some(b"old\n".to_vec()));
    let updated = apply_edits(relative, "old\n".to_owned(), edits).unwrap();
    assert_eq!(updated, "new\n");
    toolkit.capture(relative, Some(updated.as_bytes().to_vec()));
    let (key, original) = &toolkit.originals()[0];
    assert_eq!(key, "value.txt");
    assert_eq!(original.as_deref(), Some(&b"old\n"[..]));
    let diff = diff_section(key, original, &Some(updated.as_bytes().to_vec()));
    assert!(diff.contains("+new"));
    assert!(diff.contains("--- a/value.txt"));
    assert_eq!(diff_section(key, original, original), "");
    assert_eq!(diff_section("b.bin", &Some(vec![0xff]), &None), "Binary file changed: b.bin\n");
}

#[test]
fn patch_replacements_check_their_occurrence_counts() {
    assert_eq!(count_matches("aaaa", "aa"), 2);
    assert_eq!(count_matches("abcabc", "abc"), 2);
    assert_eq!(replace_matches("a-b-c", "-", "+", true), "a+b+c");
    assert_eq!(replace_matches("a-b-c", "-", "+", false), "a+b-c");
    assert_eq!(apply_edits("f", "x y x".to_owned(), &vec![edit("f", "x", "z", true)]).unwrap(), "z y z");
    match apply_edits("f", "x y x".to_owned(), &vec![edit("f", "x", "z", false)]) {
        Err(DeveloperError::Invalid(m)) => {
            assert_eq!(m, "patch precondition failed for f: expected occurrence count 1, found 2")
        }
        other => panic!("unexpected {other:?}"),
    }
    match apply_edits("f", "abc".to_owned(), &vec![edit("f", "q", "z", true)]) {
        Err(DeveloperError::Invalid(m)) => {
            assert_eq!(m, "patch precondition failed for f: expected occurrence count >=1, found 0")
        }
        other => panic!("unexpected {other:?}"),
    }
    assert!(matches!(apply_edits("f", "abc".to_owned(), &vec![edit("f", "", "z", true)]), Err(DeveloperError::Invalid(_))));
    let chained = apply_edits("f", "one".to_owned(), &vec![edit("f", "one", "two", false), edit("f", "two", "three", false)]);
    assert_eq!(chained.unwrap(), "three");
}

#[test]
fn patches_group_by_file_in_path_order() {
    assert!(plan_patch(&Vec::new()).is_err());
    let many: Vec<TextReplacement> = (0..51).map(|i| edit("f", &i.to_string(), "x", false)).collect();
    assert!(plan_patch(&many).is_err());
    let groups = plan_patch(&vec![edit("b", "1", "x", false), edit("a", "2", "x", false), edit("b", "3", "x", false)]).unwrap();
    let keys: Vec<&str> = groups.iter().map(|(k, _)| k.as_str()).collect();
    assert_eq!(keys, vec!["a", "b"]);
    let expected: Vec<&str> = groups[1].1.iter().map(|e| e.expected.as_str()).collect();
    assert_eq!(expected, vec!["1", "3"]);
}

#[test]
fn first_capture_wins_and_changes_are_counted() {
    let mut toolkit = FileToolkit::new(workspace(), "/work/repo".to_owned());
    toolkit.capture("src\\new.rs", None);
    toolkit.capture("src/new.rs", Some(b"later".to_vec()));
    toolkit.capture("a.txt", Some(b"x".to_vec()));
    let keys: Vec<&str> = toolkit.originals().iter().map(|(k, _)| k.as_str()).collect();
    assert_eq!(keys, vec!["a.txt", "src/new.rs"]);
    assert_eq!(toolkit.originals()[1].1, None);
    assert_eq!(line_count(&b"".to_vec()), 0);
    assert_eq!(line_count(&b"a\nb".to_vec()), 2);
    assert_eq!(line_count(&b"a\nb\n".to_vec()), 3);
    let created = file_change_of("src/new.rs", &None, &Some(b"a\nb\n".to_vec()), "edit").unwrap();
    assert_eq!((created.kind, created.additions, created.deletions), (FileChangeKind::Created, 3, 0));
    let modified = file_change_of("a.txt", &Some(b"a\nb\nc".to_vec()), &Some(b"a".to_vec()), "edit").unwrap();
    assert_eq!((modified.kind, modified.additions, modified.deletions), (FileChangeKind::Modified, 0, 2));
    let deleted = file_change_of("a.txt", &Some(b"a".to_vec()), &None, "edit").unwrap();
    assert_eq!(deleted.kind, FileChangeKind::Deleted);
    assert!(file_change_of("a.txt", &Some(b"a".to_vec()), &Some(b"a".to_vec()), "edit").is_none());
}

#[test]
fn workspaces_register_once_per_root() {
    let mut book = WorkspaceBook::new();
    assert!(matches!(book.register_at("  ", "/r", false, None, 1, 10), Err(DeveloperError::Invalid(_))));
    let first = book.register_at(" repo ", "/r", true, Some("main".to_owned()), 5, 10).unwrap();
    assert_eq!(first.name, "repo");
    assert_eq!(first.branch.as_deref(), Some("main"));
    let again = book.register_at("renamed", "/r", false, None, 9, 20).unwrap();
    assert_eq!((again.id, again.name.as_str(), again.registered_at, again.last_opened_at), (5, "renamed", 10, 20));
    book.register_at("other", "/o", false, Some("dev".to_owned()), 2, 30).unwrap();
    let ids: Vec<u128> = book.list().iter().map(|w| w.id).collect();
    assert_eq!(ids, vec![2, 5]);
    assert_eq!(book.list()[0].branch, None);
    assert_eq!(book.get(5).unwrap().name, "renamed");
    assert!(matches!(book.get(3), Err(DeveloperError::NotFound(_))));
    let fresh = book.register("third", "/t", false, None, 40).unwrap();
    assert_eq!(book.get(fresh.id).unwrap().root, "/t");
    assert_eq!(branch_from_head("ref: refs/heads/feature/x\n").as_deref(), Some("feature/x"));
    assert_eq!(branch_from_head("3f2a9c"), None);
    assert!(check_registry_schema(1).is_ok());
    assert!(matches!(check_registry_schema(2), Err(DeveloperError::Invalid(m)) if m == "unsupported workspace registry schema 2"));
}

#[test]
fn line_ranges_and_listings_are_formatted() {
    let lines = lines_of("a\r\nb\n\nc\r");
    assert_eq!(lines, vec!["a", "b", "", "c\r"]);
    assert!(lines_of("").is_empty());
    assert_eq!(lines_of("x\n"), vec!["x"]);
    assert!(check_line_range(0, 1).is_err());
    assert!(check_line_range(3, 2).is_err());
    assert!(check_line_range(1, 1002).is_err());
    assert!(check_line_range(1, 1001).is_ok());
    assert_eq!(numbered_lines("a\nb\nc\n", 2, 5), "2: b\n3: c");
    let listing = directory_listing(&vec![(false, "b.rs".to_owned()), (true, "src".to_owned()), (false, "a.rs".to_owned())]);
    assert_eq!(listing, vec!["directory\tsrc", "file\ta.rs", "file\tb.rs"]);
    assert_eq!(tree_depth(0), 1);
    assert_eq!(tree_depth(20), 8);
    assert_eq!(tree_line(3, true, "src\\x"), "    [D] src/x");
    assert_eq!(tree_line(1, false, "a.rs"), "[F] a.rs");
    assert!(ignored_directory("/w/node_modules"));
    assert!(!ignored_directory("/w/src"));
}

#[test]
fn searches_report_capped_hits() {
    assert!(matches!(file_query("   "), Err(DeveloperError::Invalid(_))));
    assert_eq!(file_query(" Main ").unwrap(), "main");
    assert!(matches!(text_query(""), Err(DeveloperError::Invalid(_))));
    assert_eq!(extension_filter("..RS"), "rs");
    assert!(extension_matches("src/Lib.RS", &Some("rs".to_owned())));
    assert!(!extension_matches("src/lib", &Some("rs".to_owned())));
    assert!(extension_matches("src/lib", &None));
    let entries = vec![
        ("src/main.rs".to_owned(), "/w/src/main.rs".to_owned()),
        ("docs/MAIN.md".to_owned(), "/w/docs/MAIN.md".to_owned()),
        ("src/lib.rs".to_owned(), "/w/src/lib.rs".to_owned()),
    ];
    assert_eq!(search_files_in("main", &None, &entries), "src/main.rs\ndocs/MAIN.md");
    assert_eq!(search_files_in("main", &Some("rs".to_owned()), &entries), "src/main.rs");
    let many: Vec<(String, String)> = (0..300).map(|i| (format!("f{i}"), format!("/w/main{i}.rs"))).collect();
    assert_eq!(search_files_in("main", &None, &many).lines().count(), 250);
    let files = vec![
        ("a.rs".to_owned(), Some("fn Main() {}\nother\nmain again".to_owned())),
        ("skip.bin".to_owned(), None),
        ("b.rs".to_owned(), Some("no\nMAIN".to_owned())),
    ];
    assert_eq!(search_text_in("main", &files), "a.rs:1:fn Main() {}\na.rs:3:main again\nb.rs:2:MAIN");
    let long = vec![("l.txt".to_owned(), Some(format!("hit{}", "x".repeat(400))))];
    assert_eq!(search_text_in("hit", &long).len(), "l.txt:1:".len() + 300);
}
