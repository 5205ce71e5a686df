use picocode::event::{Event, EventMsg};
use picocode::instruction::{
    instruction_sources_already_loaded, CommandApproval, InstructionDoc, InstructionSourceKind,
    ProjectConfig, ProjectFileConfig, INSTRUCTION_CHAR_LIMIT,
};

#[test]
fn approval_words_round_trip() {
    for approval in [CommandApproval::Always, CommandApproval::OnRisky, CommandApproval::Never] {
        assert_eq!(CommandApproval::from_str(approval.as_str()), Some(approval));
    }
    assert_eq!(CommandApproval::from_str("sometimes"), None);
}

#[test]
fn project_file_with_unknown_approval_warns() {
    let mut warnings = Vec::new();
    let config = ProjectConfig::from_file(
        ProjectFileConfig { respect_gitignore: Some(false), approval: Some("sometimes".to_owned()), timeout: Some(30) },
        "/tmp/project/picocode.toml",
        &mut warnings,
    );

    assert!(!config.workspace.respect_gitignore);
    assert_eq!(config.command.approval, None);
    assert_eq!(config.command.timeout, Some(30));
    assert_eq!(warnings.len(), 1);
    assert!(warnings[0].contains("sometimes"));
}

#[test]
fn long_instruction_files_are_cut() {
    let content = "x".repeat(INSTRUCTION_CHAR_LIMIT + 10);
    let doc = InstructionDoc::from_content("/tmp/AGENTS.md".to_owned(), &content, InstructionSourceKind::Global);

    assert!(doc.truncated);
    assert_eq!(doc.content.chars().count(), INSTRUCTION_CHAR_LIMIT);
}

#[test]
fn reported_instruction_sources_are_recognised() {
    let plain = vec![Event::new("evt-0", EventMsg::system("hello"))];
    assert!(!instruction_sources_already_loaded(&plain));

    let reported = vec![
        Event::new("evt-0", EventMsg::user("Loaded instruction source [global]: x")),
        Event::new("evt-1", EventMsg::system("Instruction sources loaded: total=1")),
    ];
    assert!(instruction_sources_already_loaded(&reported));
    assert!(!instruction_sources_already_loaded(&reported[..1]));
}

#[test]
fn instruction_sources_are_searched_global_first_then_root_down() {
    let order = picocode::instruction::instruction_search_order(
        Some("/home/u/.picocode".to_owned()),
        vec!["/".to_owned(), "/p".to_owned()],
        "/p",
    );
    let kinds: Vec<_> = order.iter().map(|(d, k)| (d.as_str(), *k)).collect();
    assert_eq!(
        kinds,
        vec![
            ("/home/u/.picocode", picocode::instruction::InstructionSourceKind::Global),
            ("/", picocode::instruction::InstructionSourceKind::ProjectInstruction),
            ("/p", picocode::instruction::InstructionSourceKind::ProjectInstruction),
            ("/p", picocode::instruction::InstructionSourceKind::ProjectConfig),
            ("/p", picocode::instruction::InstructionSourceKind::ProjectPlan),
        ]
    );
    assert_eq!(picocode::instruction::instruction_search_order(None, Vec::new(), "/p").len(), 2);
}
