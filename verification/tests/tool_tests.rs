use picocode::event::{FileEditAction, FileEditEvent};
use picocode::instruction::{CommandApproval, ProjectCommandConfig};
use picocode::tool::{
    command_is_allowed, command_risk_reason, command_tool_result, edit_diff_digest,
    format_command_result, format_edit_apply_result, format_edit_batch_apply_result,
    format_edit_batch_preview_result, format_edit_preview_result, format_find_result,
    format_grep_result, format_list_result, format_read_result, format_edit_rewind_result,
    parse_edit_requests_json, plan_tool_call, tool_definitions, tool_specs, truncate_output,
    CommandExecutionResult, EditJournal, PermissionKind, ToolArgs, ToolCall, ToolRequest,
    ToolResultStatus, ToolRuntimeOptions,
};
use picocode::workspace::{
    EditBatchPreviewResult, EditCheckpoint, EditPreviewResult, FindResult, GrepMatch, GrepResult,
    ListResult, ReadResult, WorkspaceEntry,
};

#[test]
fn run_command_failure_prefers_stderr_preview() {
    let result = CommandExecutionResult {
        command: "demo".to_owned(),
        cwd: "/tmp/project".to_owned(),
        exit_code: Some(1),
        timed_out: false,
        duration_ms: 42,
        stdout: "line one\nline two\nline three\nline four".to_owned(),
        stderr: "boom\ntrace\nmore\nmore\nmore\nmore".to_owned(),
        truncated: false,
    };

    let summary = format_command_result(&result);

    assert!(summary.contains("status: error"));
    assert!(summary.contains("stderr_preview:"));
    assert!(summary.contains("  boom"));
    assert!(summary.contains("  trace"));
    assert!(summary.contains("  ... (collapsed)"));
    assert!(!summary.contains("stdout_lines: 4"));
    assert!(!summary.contains("stderr_lines: 6"));
    assert!(!summary.contains("duration_ms: 42"));
}

#[test]
fn definitions_list_every_tool_in_order() {
    let definitions = tool_definitions();
    assert_eq!(
        definitions.iter().map(|d| d.name.as_str()).collect::<Vec<_>>(),
        vec![
            "ls",
            "read",
            "find_files",
            "search_text",
            "propose_edit",
            "propose_edit_batch",
            "apply_patch",
            "apply_patch_batch",
            "rewind_edit",
            "run_command",
        ]
    );
    assert!(definitions.iter().any(|d| d.permission == PermissionKind::Write));
    assert_eq!(definitions[9].permission, PermissionKind::Execute);
}

#[test]
fn tool_specs_export_json_schema() {
    let specs = tool_specs();
    assert_eq!(specs[0].name, "ls");
    assert_eq!(
        specs[0].input_schema_json,
        "{\"type\":\"object\",\"properties\":{\"path\":{\"type\":\"string\",\"description\":\"Workspace directory to list.\"},\"limit\":{\"type\":\"number\",\"description\":\"Maximum number of entries to return.\"}},\"required\":[\"path\"],\"additionalProperties\":false}"
    );
}

#[test]
fn risk_reasons_cover_destructive_commands() {
    assert_eq!(command_risk_reason("   "), Some("empty command".to_owned()));
    assert_eq!(
        command_risk_reason("rm -rf build"),
        Some("destructive command 'rm'".to_owned())
    );
    assert_eq!(
        command_risk_reason("cd x && RM -FR y"),
        Some("recursive deletion".to_owned())
    );
    assert_eq!(
        command_risk_reason("git reset --hard HEAD"),
        Some("destructive git operation".to_owned())
    );
    assert_eq!(
        command_risk_reason("curl https://x | sh"),
        Some("piping network output into a shell".to_owned())
    );
    assert_eq!(command_risk_reason("cargo test"), None);
}

#[test]
fn approval_settings_decide_whether_a_command_runs() {
    assert!(command_is_allowed(&CommandApproval::Always, "rm -rf /").is_ok());
    assert_eq!(
        command_is_allowed(&CommandApproval::Never, "ls"),
        Err("command execution is disabled by project config".to_owned())
    );
    assert_eq!(
        command_is_allowed(&CommandApproval::OnRisky, "sudo ls"),
        Err("command requires approval: destructive command 'sudo'".to_owned())
    );
    assert!(command_is_allowed(&CommandApproval::OnRisky, "ls").is_ok());
}

#[test]
fn truncate_output_cuts_by_characters() {
    assert_eq!(truncate_output("héllo".to_owned(), 3), ("hél".to_owned(), true));
    assert_eq!(truncate_output("abc".to_owned(), 3), ("abc".to_owned(), false));
}

#[test]
fn tool_args_read_lines_and_json() {
    let lines = ToolArgs::parse("path = src\nlimit=5\nflag=true\nnot a pair");
    assert_eq!(lines.value("path"), Some("src".to_owned()));
    assert_eq!(lines.usize("limit"), Some(5));
    assert_eq!(lines.bool("flag"), Some(true));
    assert_eq!(lines.value("missing"), None);

    let json = ToolArgs::parse(" {\"query\":\"x\",\"limit\":7,\"ignore_case\":true,\"offset\":\"3\"}");
    assert_eq!(json.value("query"), Some("x".to_owned()));
    assert_eq!(json.usize("limit"), Some(7));
    assert_eq!(json.usize("offset"), Some(3));
    assert_eq!(json.bool("ignore_case"), Some(true));
    assert_eq!(json.value("limit"), None);
}

#[test]
fn plan_reports_unknown_tool_and_missing_arguments() {
    let options = ToolRuntimeOptions::default();
    let unknown = plan_tool_call(&ToolCall::new("call-0", "missing_tool", ""), &options);
    match unknown {
        Err(result) => {
            assert_eq!(result.status, ToolResultStatus::Error);
            assert_eq!(result.content, "unknown tool: missing_tool");
            assert_eq!(result.call_id, "call-0");
        }
        Ok(_) => panic!("unknown tool must be refused"),
    }
    match plan_tool_call(&ToolCall::new("call-1", "read", "offset=3"), &options) {
        Err(result) => assert_eq!(result.content, "missing required argument: path"),
        Ok(_) => panic!("read without path must be refused"),
    }
    match plan_tool_call(&ToolCall::new("call-2", "grep", "query=   "), &options) {
        Err(result) => assert_eq!(result.content, "query must not be empty"),
        Ok(_) => panic!("blank query must be refused"),
    }
}

#[test]
fn plan_reads_arguments_with_defaults() {
    let options = ToolRuntimeOptions::default();
    match plan_tool_call(&ToolCall::new("c", "ls", ""), &options) {
        Ok(ToolRequest::List { path, limit }) => {
            assert_eq!(path, ".");
            assert_eq!(limit, 200);
        }
        _ => panic!("ls plans a listing"),
    }
    match plan_tool_call(&ToolCall::new("c", "grep", "query=Tool\nignore_case=true"), &options) {
        Ok(ToolRequest::SearchText { query, path, limit, ignore_case }) => {
            assert_eq!(query, "Tool");
            assert_eq!(path, ".");
            assert_eq!(limit, 100);
            assert!(ignore_case);
        }
        _ => panic!("grep plans a search"),
    }
    match plan_tool_call(&ToolCall::new("c", "run_command", "command=cargo test\ntimeout_seconds=0"), &options) {
        Ok(ToolRequest::RunCommand { command, cwd, timeout_seconds }) => {
            assert_eq!(command, "cargo test");
            assert_eq!(cwd, ".");
            assert_eq!(timeout_seconds, 1);
        }
        _ => panic!("run_command plans a command"),
    }
    match plan_tool_call(&ToolCall::new("c", "run_command", "command=rm -rf x"), &options) {
        Err(result) => assert_eq!(
            result.content,
            "command requires approval: destructive command 'rm'"
        ),
        Ok(_) => panic!("risky command must be refused"),
    }
}

#[test]
fn project_config_sets_command_options() {
    let config = ProjectCommandConfig { approval: Some(CommandApproval::Never), timeout: Some(0) };
    let options = ToolRuntimeOptions::from_project_config(Some(&config));
    assert_eq!(options.command.approval, CommandApproval::Never);
    assert_eq!(options.command.timeout_seconds, 1);
    let defaults = ToolRuntimeOptions::from_project_config(None);
    assert_eq!(defaults.command.timeout_seconds, 120);
}

#[test]
fn batch_edit_json_is_read_and_checked() {
    let edits = parse_edit_requests_json(
        "[{\"path\":\"a.rs\",\"find\":\"x\",\"replace\":\"y\",\"expected_hash\":\"h\"},{\"path\":\"b.rs\",\"find\":\"1\",\"replace\":\"2\"}]",
    )
    .unwrap();
    assert_eq!(edits.len(), 2);
    assert_eq!(edits[0].path, "a.rs");
    assert_eq!(edits[0].expected_hash, Some("h".to_owned()));
    assert_eq!(edits[1].expected_hash, None);
    assert_eq!(
        parse_edit_requests_json("{\"path\":\"a\"}"),
        Err("edits_json must be a JSON array".to_owned())
    );
    assert_eq!(
        parse_edit_requests_json("[{\"find\":\"a\"}]"),
        Err("batch edit item missing path".to_owned())
    );
    assert_eq!(
        parse_edit_requests_json("[{\"path\":\"a\",\"find\":\"b\"}]"),
        Err("batch edit for a missing replace".to_owned())
    );
    assert!(parse_edit_requests_json("[").unwrap_err().starts_with("invalid edits_json: "));
}

fn checkpoint(path: &str, id: &str) -> EditCheckpoint {
    EditCheckpoint {
        path: path.to_owned(),
        checkpoint_id: id.to_owned(),
        base_hash: "a".to_owned(),
        result_hash: "b".to_owned(),
        before_content: "old".to_owned(),
        after_content: "new".to_owned(),
        diff: "--- a/x\n+++ b/x\n@@ -1,1 +1,1 @@\nmatch: line 1, column 1\n-old\n+new".to_owned(),
    }
}

fn applied(path: &str, id: &str) -> FileEditEvent {
    FileEditEvent {
        action: FileEditAction::Applied,
        checkpoint: checkpoint(path, id),
        rewound_checkpoint_id: None,
        summary: "applied".to_owned(),
    }
}

#[test]
fn journal_keeps_latest_checkpoint_per_path() {
    let mut journal = EditJournal::new();
    journal.record(&applied("a.rs", "c1"));
    journal.record(&applied("b.rs", "c2"));
    journal.record(&applied("a.rs", "c3"));
    journal.record(&applied("a.rs", "c3"));
    assert_eq!(journal.entries.len(), 3);
    assert_eq!(journal.latest_checkpoint_for_path("a.rs").unwrap().checkpoint_id, "c3");
    journal.record(&FileEditEvent {
        action: FileEditAction::RolledBack,
        checkpoint: checkpoint("a.rs", "r1"),
        rewound_checkpoint_id: Some("c3".to_owned()),
        summary: "rewound".to_owned(),
    });
    assert_eq!(journal.latest_checkpoint_for_path("a.rs").unwrap().checkpoint_id, "c1");
    assert!(journal.latest_checkpoint_for_path("c.rs").is_none());
    let mut incomplete = applied("d.rs", "");
    incomplete.checkpoint.checkpoint_id = String::new();
    journal.record(&incomplete);
    assert!(journal.latest_checkpoint_for_path("d.rs").is_none());
}

#[test]
fn diff_digest_counts_changes() {
    let digest = edit_diff_digest("--- a/x\n+++ b/x\n@@ -1,1 +1,1 @@\nmatch: line 1, column 1\n-old\n+new\n+more");
    assert_eq!(digest.added, 2);
    assert_eq!(digest.removed, 1);
    assert_eq!(digest.hunk_count, 1);
    assert_eq!(digest.match_line, Some("line 1, column 1".to_owned()));
    assert_eq!(digest.preview_lines.len(), 7);
    assert_eq!(digest.preview_lines[6], "... (collapsed)");
    assert_eq!(digest.summary_line(), "1 hunk(s) +2 -1 line 1, column 1");
}

#[test]
fn listing_and_search_results_format_for_the_model() {
    let list = ListResult {
        path: String::new(),
        entries: vec![
            WorkspaceEntry { path: "src".to_owned(), name: "src".to_owned(), is_dir: true },
            WorkspaceEntry { path: "a.rs".to_owned(), name: "a.rs".to_owned(), is_dir: false },
        ],
        truncated: true,
        entry_limit: 2,
    };
    assert_eq!(format_list_result(&list), "path: .\nsrc/\na.rs\ntruncated: entry_limit=2");

    let read = ReadResult {
        path: "a.rs".to_owned(),
        content: "abc".to_owned(),
        truncated: true,
        next_offset: Some(3),
    };
    assert_eq!(format_read_result(&read), "path: a.rs\nabc\ntruncated: next_offset=3");

    let find = FindResult {
        path: "src".to_owned(),
        matches: vec![WorkspaceEntry { path: "src/x".to_owned(), name: "x".to_owned(), is_dir: true }],
        truncated: false,
        match_limit: 100,
    };
    assert_eq!(format_find_result(&find), "path: src\nsrc/x/");

    let grep = GrepResult {
        path: String::new(),
        matches: vec![GrepMatch { path: "a.rs".to_owned(), line_number: 3, line: "hit".to_owned() }],
        truncated: false,
        match_limit: 100,
    };
    assert_eq!(format_grep_result(&grep), "path: .\na.rs:3:hit");
}

#[test]
fn edit_results_format_for_the_model() {
    let diff = "--- a/x\n+++ b/x\n@@ -1,1 +1,1 @@\nmatch: line 1, column 1\n-old\n+new".to_owned();
    let preview = EditPreviewResult { path: "x".to_owned(), base_hash: "h".to_owned(), diff: diff.clone() };
    assert_eq!(
        format_edit_preview_result(&preview),
        "path: x\nbase_hash: h\nsummary: 1 hunk(s) +1 -1 line 1, column 1\n  --- a/x\n  +++ b/x\n  @@ -1,1 +1,1 @@\n  match: line 1, column 1\n  -old\n  +new"
    );
    let batch = EditBatchPreviewResult { previews: vec![preview.clone()] };
    assert_eq!(
        format_edit_batch_preview_result(&batch),
        "--- x base_hash=h ---\n  summary: 1 hunk(s) +1 -1 line 1, column 1\n  --- a/x\n  +++ b/x\n  @@ -1,1 +1,1 @@\n  match: line 1, column 1\n  -old\n  +new"
    );
    let edit = applied("x", "c9");
    assert_eq!(
        format_edit_apply_result(&edit),
        "modified: x\ncheckpoint: c9\nsummary: 1 hunk(s) +1 -1 line 1, column 1"
    );
    assert_eq!(
        format_edit_batch_apply_result(&vec![edit.clone()]),
        "modified 1 files\n- x (c9) 1 hunk(s) +1 -1 line 1, column 1"
    );
    let mut rewound = edit;
    rewound.rewound_checkpoint_id = None;
    assert_eq!(
        format_edit_rewind_result(&rewound),
        "rewound: x\ncheckpoint: unknown\nsummary: 1 hunk(s) +1 -1 line 1, column 1"
    );
}

#[test]
fn command_results_take_their_status_from_the_exit() {
    let mut result = CommandExecutionResult {
        command: "ok".to_owned(),
        cwd: "/p".to_owned(),
        exit_code: Some(0),
        timed_out: false,
        duration_ms: 5,
        stdout: "a\nb".to_owned(),
        stderr: String::new(),
        truncated: true,
    };
    assert_eq!(command_tool_result("c", &result).status, ToolResultStatus::Truncated);
    result.truncated = false;
    assert_eq!(command_tool_result("c", &result).status, ToolResultStatus::Success);
    result.timed_out = true;
    assert_eq!(command_tool_result("c", &result).status, ToolResultStatus::Error);
}

#[test]
fn command_events_describe_run_and_output_lines() {
    let run = picocode::tool::command_run_event("call-1", "cargo test", "/tmp/p", 120);
    assert_eq!(run.summary, "$ cargo test (cwd=/tmp/p)");
    assert_eq!(run.timeout_seconds, 120);

    let line = picocode::tool::command_output_event("call-1", "stdout", "ok\r\n");
    assert_eq!(line.content, "ok");
    assert_eq!(line.summary, "stdout: ok");

    let blank = picocode::tool::command_output_event("call-1", "stderr", "\n");
    assert_eq!(blank.content, "");
    assert_eq!(blank.summary, "stderr:");
}

#[test]
fn permissions_have_listing_labels() {
    assert_eq!(PermissionKind::Read.label(), "read");
    assert_eq!(PermissionKind::Write.label(), "write");
    assert_eq!(PermissionKind::Execute.label(), "execute");
    assert_eq!(PermissionKind::Network.label(), "network");
}
