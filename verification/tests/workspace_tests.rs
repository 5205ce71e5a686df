use picocode::workspace::{
    build_content_diff, build_edit_preview, check_edit_pattern, check_unchanged, clean_input,
    content_hash, duplicate_edit_conflict, edit_checkpoint, expected_hash_for, find_result,
    find_score, grep_file_lines, grep_needle, list_result, load_edit_target, read_result,
    reject_parent_segments, repeats_earlier_path, replace_first, rewind_result, split_slash,
    BatchApply, BatchStep, EditCheckpoint, EditRequest, IgnoreRules, WorkspaceEntry, WorkspaceError,
};

fn entry(path: &str, is_dir: bool) -> WorkspaceEntry {
    let name = path.rsplit('/').next().unwrap().to_owned();
    WorkspaceEntry { path: path.to_owned(), name, is_dir }
}

#[test]
fn content_hash_is_fnv1a_in_hex() {
    assert_eq!(content_hash(""), "cbf29ce484222325");
    assert_eq!(content_hash("a"), "af63dc4c8601ec8c");
    assert_ne!(content_hash("fn main() {}"), content_hash("fn main() { }"));
}

#[test]
fn clean_input_drops_markers() {
    assert_eq!(clean_input("  @./src/lib.rs "), "src/lib.rs");
    assert_eq!(clean_input("@@././a"), "a");
    assert_eq!(clean_input("plain"), "plain");
}

#[test]
fn parent_segments_are_refused() {
    assert!(reject_parent_segments("src/lib.rs").is_ok());
    assert!(reject_parent_segments("a..b/c").is_ok());
    assert_eq!(
        reject_parent_segments("../secret"),
        Err(WorkspaceError::PathEscapesRoot("../secret".to_owned()))
    );
    assert!(reject_parent_segments("a/../b").is_err());
    assert!(reject_parent_segments("a/..").is_err());
}

#[test]
fn ignore_rules_follow_gitignore_lines() {
    let rules = IgnoreRules::load(true, Some("# comment\n/ignored.txt\nbuild/\n*.log\n!keep\n\n"));
    assert!(rules.is_ignored("ignored.txt", false));
    assert!(rules.is_ignored("sub/ignored.txt", false));
    assert!(rules.is_ignored("build", true));
    assert!(rules.is_ignored("build/out.o", false));
    assert!(rules.is_ignored("x/y.log", false));
    assert!(rules.is_ignored(".git/config", false));
    assert!(rules.is_ignored("target", true));
    assert!(!rules.is_ignored("keep", false));
    assert!(!rules.is_ignored("src/main.rs", false));
    assert!(!rules.is_ignored("", true));

    let without = IgnoreRules::load(false, Some("ignored.txt\n"));
    assert!(!without.is_ignored("ignored.txt", false));
    assert!(without.is_ignored("target/debug", true));
}

#[test]
fn read_windows_by_characters() {
    let r = read_result("a.txt".to_owned(), "héllo world", 2, 3).unwrap();
    assert_eq!(r.content, "llo");
    assert!(r.truncated);
    assert_eq!(r.next_offset, Some(5));
    let all = read_result("a.txt".to_owned(), "short", 0, 0).unwrap();
    assert_eq!(all.content, "short");
    assert!(!all.truncated);
    assert_eq!(all.next_offset, None);
    let past = read_result("a.txt".to_owned(), "abc", 10, 2).unwrap();
    assert_eq!(past.content, "");
    assert_eq!(
        read_result("b.bin".to_owned(), "a\0b", 0, 10),
        Err(WorkspaceError::Binary("b.bin".to_owned()))
    );
}

#[test]
fn listing_sorts_and_truncates() {
    let r = list_result(
        "src".to_owned(),
        vec![entry("src/z.rs", false), entry("src/a", true), entry("src/m.rs", false)],
        2,
    );
    assert_eq!(r.entries.iter().map(|e| e.path.as_str()).collect::<Vec<_>>(), vec!["src/a", "src/m.rs"]);
    assert!(r.truncated);
    assert_eq!(r.entry_limit, 2);
    assert_eq!(r.entries[0].display_name(), "a/");
}

#[test]
fn find_ranks_by_score_then_path() {
    assert_eq!(find_score("src/tool.rs", false, "tool.rs"), 0);
    assert_eq!(find_score("src/tool.rs", false, "tool"), 1);
    assert_eq!(find_score("src/tool.rs", true, "src"), 3);
    assert_eq!(find_score("src/tool.rs", false, "zzz"), 3);
    let r = find_result(
        String::new(),
        vec![entry("src", true), entry("src/tool.rs", false), entry("docs/tooling.md", false), entry("README", false)],
        " TOOL ",
        0,
    );
    assert_eq!(
        r.matches.iter().map(|e| e.path.as_str()).collect::<Vec<_>>(),
        vec!["docs/tooling.md", "src/tool.rs"]
    );
    assert!(!r.truncated);
    assert_eq!(r.match_limit, 100);
}

#[test]
fn grep_collects_matching_lines_up_to_the_limit() {
    let mut matches = Vec::new();
    let needle = grep_needle("Pico", true);
    assert_eq!(needle, "pico");
    let full = grep_file_lines("a.rs", "fn main() {}\nlet name = \"PICO\";\npico again\n", &needle, true, 5, &mut matches);
    assert!(!full);
    assert_eq!(matches.len(), 2);
    assert_eq!(matches[0].line_number, 2);
    assert_eq!(matches[0].line, "let name = \"PICO\";");
    let more = grep_file_lines("b.rs", "pico\npico\npico\npico\n", "pico", false, 5, &mut matches);
    assert!(more);
    assert_eq!(matches.len(), 5);
    let mut none = Vec::new();
    assert!(!grep_file_lines("c.bin", "pico\0", "pico", false, 5, &mut none));
    assert!(none.is_empty());
}

#[test]
fn edit_preview_shows_the_touched_lines() {
    let content = "fn main() {\n    println!(\"hello\");\n}\n";
    let target = load_edit_target("src/main.rs".to_owned(), content.to_owned(), "hello").unwrap();
    assert_eq!(target.match_index, 26);
    let diff = build_edit_preview(content, "hello", "hello world", "src/main.rs", target.match_index);
    assert_eq!(
        diff,
        "--- a/src/main.rs\n+++ b/src/main.rs\n@@ -2,1 +2,1 @@\nmatch: line 2, column 15\n-    println!(\"hello\");\n+hello world"
    );
    let empty = build_edit_preview("abc", "b", "", "f", 1);
    assert!(empty.ends_with("\n-abc\n+"));
}

#[test]
fn edit_targets_are_checked() {
    assert_eq!(check_edit_pattern("  "), Err(WorkspaceError::EditPatternEmpty));
    assert!(check_edit_pattern("x").is_ok());
    assert_eq!(
        load_edit_target("a".to_owned(), "text".to_owned(), "zzz"),
        Err(WorkspaceError::EditTargetNotFound("a".to_owned()))
    );
    assert_eq!(
        load_edit_target("b".to_owned(), "te\0xt".to_owned(), "t"),
        Err(WorkspaceError::Binary("b".to_owned()))
    );
}

#[test]
fn edit_and_rewind_round_trip() {
    let content = "one\ntwo\nthree\n";
    let target = load_edit_target("f.txt".to_owned(), content.to_owned(), "two").unwrap();
    let checkpoint = edit_checkpoint(&target, "two", "TWO", "checkpoint-1".to_owned());
    assert_eq!(checkpoint.after_content, "one\nTWO\nthree\n");
    assert_eq!(checkpoint.before_content, content);
    assert_eq!(checkpoint.base_hash, content_hash(content));
    assert_eq!(checkpoint.result_hash, content_hash("one\nTWO\nthree\n"));

    let rewound = rewind_result(&checkpoint, "f.txt", checkpoint.after_content.clone(), "checkpoint-2".to_owned()).unwrap();
    assert_eq!(rewound.rewound_checkpoint_id, "checkpoint-1");
    assert_eq!(rewound.checkpoint.after_content, content);
    assert_eq!(rewound.checkpoint.before_content, "one\nTWO\nthree\n");
    assert_eq!(rewound.checkpoint.diff, "--- a/f.txt\n+++ b/f.txt\n@@\n one\n-TWO\n+two\n three");

    let changed = rewind_result(&checkpoint, "f.txt", "other".to_owned(), "checkpoint-3".to_owned());
    assert_eq!(
        changed,
        Err(WorkspaceError::EditCheckpointMismatch {
            path: "f.txt".to_owned(),
            expected_hash: checkpoint.result_hash.clone(),
            actual_hash: content_hash("other"),
        })
    );
}

#[test]
fn replace_first_changes_only_the_first_match() {
    assert_eq!(replace_first("a-b-a", "a", "x"), "x-b-a");
    assert_eq!(replace_first("abc", "z", "x"), "abc");
}

#[test]
fn content_diff_marks_changed_and_extra_lines() {
    assert_eq!(build_content_diff("a\nb", "a\nc\nd", "p"), "--- a/p\n+++ b/p\n@@\n a\n-b\n+c\n+d");
}

#[test]
fn batches_refuse_repeated_files_and_stale_hashes() {
    let edits = vec![
        EditRequest { path: "a".to_owned(), find: "x".to_owned(), replace: "y".to_owned(), expected_hash: None },
        EditRequest { path: "b".to_owned(), find: "x".to_owned(), replace: "y".to_owned(), expected_hash: Some("h".to_owned()) },
        EditRequest { path: "a".to_owned(), find: "z".to_owned(), replace: "w".to_owned(), expected_hash: None },
    ];
    assert!(!repeats_earlier_path(&edits, 0));
    assert!(!repeats_earlier_path(&edits, 1));
    assert!(repeats_earlier_path(&edits, 2));
    assert_eq!(
        duplicate_edit_conflict("a").message(),
        "edit conflict for a: duplicate edit for the same file in one batch"
    );
    let target = load_edit_target("b".to_owned(), "x".to_owned(), "x").unwrap();
    assert_eq!(expected_hash_for(&edits[1], &target), "h");
    assert_eq!(expected_hash_for(&edits[0], &target), content_hash("x"));
    assert!(check_unchanged("b", &content_hash("x"), "x").is_ok());
    assert!(check_unchanged("b", "h", "x").is_err());
}

#[test]
fn errors_read_as_messages() {
    assert_eq!(WorkspaceError::NotFound("x".to_owned()).message(), "path not found: x");
    assert_eq!(WorkspaceError::EditPatternEmpty.message(), "edit preview pattern must not be empty");
    assert_eq!(
        WorkspaceError::EditCheckpointMismatch {
            path: "p".to_owned(),
            expected_hash: "e".to_owned(),
            actual_hash: "a".to_owned()
        }
        .message(),
        "edit checkpoint mismatch for p: expected e, found a"
    );
}

#[test]
fn split_slash_keeps_empty_pieces() {
    assert_eq!(split_slash("a//b"), vec!["a", "", "b"]);
    assert_eq!(split_slash(""), vec![""]);
}

fn batch_edit(path: &str) -> EditRequest {
    EditRequest {
        path: path.to_owned(),
        find: "a".to_owned(),
        replace: "b".to_owned(),
        expected_hash: None,
    }
}

fn batch_checkpoint(path: &str) -> EditCheckpoint {
    EditCheckpoint {
        path: path.to_owned(),
        checkpoint_id: format!("cp-{path}"),
        base_hash: String::new(),
        result_hash: String::new(),
        before_content: "a".to_owned(),
        after_content: "b".to_owned(),
        diff: String::new(),
    }
}

#[test]
fn batch_loads_every_target_before_writing_and_restores_on_failure() {
    let mut batch = BatchApply::new(vec![batch_edit("x.rs"), batch_edit("y.rs")]);
    assert!(matches!(batch.next_load(), BatchStep::Load(0)));
    assert!(matches!(batch.after_load(Ok(())), BatchStep::Load(1)));
    assert!(matches!(batch.after_load(Ok(())), BatchStep::Write(0)));
    assert!(matches!(batch.after_write(Ok(batch_checkpoint("x.rs"))), BatchStep::Write(1)));
    match batch.after_write(Err(WorkspaceError::Io("disk full".to_owned()))) {
        BatchStep::Restore(applied, WorkspaceError::Io(m)) => {
            assert_eq!(applied.len(), 1);
            assert_eq!(applied[0].path, "x.rs");
            assert_eq!(m, "disk full");
        }
        _ => panic!("expected a restore"),
    }
}

#[test]
fn batch_refuses_a_second_edit_of_one_file_before_loading_it() {
    let mut batch = BatchApply::new(vec![batch_edit("x.rs"), batch_edit("x.rs")]);
    assert!(matches!(batch.next_load(), BatchStep::Load(0)));
    match batch.after_load(Ok(())) {
        BatchStep::Fail(WorkspaceError::EditConflict { path, reason }) => {
            assert_eq!(path, "x.rs");
            assert_eq!(reason, "duplicate edit for the same file in one batch");
        }
        _ => panic!("expected a conflict"),
    }
}

#[test]
fn batch_load_failure_writes_nothing_and_empty_batch_is_done() {
    let mut batch = BatchApply::new(vec![batch_edit("x.rs")]);
    assert!(matches!(batch.after_load(Err(WorkspaceError::NotFound("x.rs".to_owned()))), BatchStep::Fail(_)));
    let empty = BatchApply::new(Vec::new());
    assert!(matches!(empty.next_load(), BatchStep::Done(v) if v.is_empty()));
    let mut one = BatchApply::new(vec![batch_edit("x.rs")]);
    assert!(matches!(one.after_load(Ok(())), BatchStep::Write(0)));
    match one.after_write(Ok(batch_checkpoint("x.rs"))) {
        BatchStep::Done(v) => assert_eq!(v[0].checkpoint_id, "cp-x.rs"),
        _ => panic!("expected done"),
    }
}
