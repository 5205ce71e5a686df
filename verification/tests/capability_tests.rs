use picocode::capability::{
    extension_entry, limit_preview, read_skill_summary, skill_entry, CapabilityEntry,
    CapabilityIndex, CapabilityKind, CapabilityPreferences, CapabilitySource,
};

#[test]
fn entry_matches_query_on_summary_and_path() {
    let entry = CapabilityEntry {
        kind: CapabilityKind::Skill,
        source: CapabilitySource::Project,
        name: "usage".to_owned(),
        summary: Some("Usage guide".to_owned()),
        path: "/tmp/project/.picocode/skills/usage".to_owned(),
    };

    assert!(entry.matches_query("usage"));
    assert!(entry.matches_query("guide"));
    assert!(entry.matches_query("skills/usage"));
    assert!(!entry.matches_query("missing"));
}

#[test]
fn preferences_respect_global_disable_and_project_enable_override() {
    let entry = CapabilityEntry {
        kind: CapabilityKind::Extension,
        source: CapabilitySource::Global,
        name: "hello".to_owned(),
        summary: Some("hello extension".to_owned()),
        path: "/tmp/home/.picocode/extensions/hello".to_owned(),
    };

    let preferences = CapabilityPreferences {
        global_disabled: vec![entry.stable_id()],
        project_disabled: Vec::new(),
        project_enabled: Vec::new(),
        project_settings_path: "/tmp/project/.picocode/capabilities.toml".to_owned(),
    };

    assert!(!preferences.is_enabled(&entry));
}

fn sample(kind: CapabilityKind, source: CapabilitySource, name: &str) -> CapabilityEntry {
    CapabilityEntry {
        kind,
        source,
        name: name.to_owned(),
        summary: None,
        path: format!("/root/{name}"),
    }
}

#[test]
fn enabling_and_disabling_round_trip() {
    let entry = sample(CapabilityKind::Extension, CapabilitySource::Project, "hello");
    let mut preferences = CapabilityPreferences::default();
    assert!(preferences.is_enabled(&entry));
    preferences.set_enabled(&entry, false);
    assert!(!preferences.is_enabled(&entry));
    assert_eq!(preferences.project_disabled, vec![entry.stable_id()]);
    preferences.set_enabled(&entry, true);
    assert!(preferences.is_enabled(&entry));
    assert!(preferences.project_disabled.is_empty());
    assert_eq!(preferences.project_enabled, vec![entry.stable_id()]);
    preferences.global_disabled.push(entry.stable_id());
    assert!(preferences.is_enabled(&entry));
}

#[test]
fn labels_and_ids() {
    let mut entry = sample(CapabilityKind::Skill, CapabilitySource::Global, "guide");
    assert_eq!(entry.stable_id(), "global|skill|/root/guide");
    assert_eq!(entry.compact_label(), "global skill guide - -");
    entry.summary = Some("Guide".to_owned());
    assert_eq!(entry.compact_label(), "global skill guide - Guide");
}

#[test]
fn index_orders_entries_and_filters_enabled() {
    let index = CapabilityIndex::from_entries(vec![
        sample(CapabilityKind::Skill, CapabilitySource::Project, "b"),
        sample(CapabilityKind::Extension, CapabilitySource::Project, "z"),
        sample(CapabilityKind::Skill, CapabilitySource::Global, "a"),
    ]);
    assert_eq!(
        index.entries.iter().map(|e| e.name.as_str()).collect::<Vec<_>>(),
        vec!["a", "z", "b"]
    );
    let mut preferences = CapabilityPreferences::default();
    preferences.set_enabled(&index.entries[1], false);
    assert_eq!(
        index.enabled_entries(&preferences).iter().map(|e| e.name.as_str()).collect::<Vec<_>>(),
        vec!["a", "b"]
    );
    assert_eq!(index.matching("skill").len(), 2);
}

#[test]
fn skill_summaries_and_details() {
    assert_eq!(read_skill_summary("\n\n# Guide  \nbody"), Some("Guide".to_owned()));
    assert_eq!(read_skill_summary("plain first\n"), Some("plain first".to_owned()));
    assert_eq!(read_skill_summary("  \n"), None);
    let skill = skill_entry(CapabilitySource::Project, "guide".to_owned(), "/p/guide".to_owned(), "# Guide\n\nUse this skill.\n");
    assert_eq!(skill.summary, Some("Guide".to_owned()));
    let text = skill.skill_context_text(true, Some("# Guide\n\nUse this skill.\n"));
    assert!(text.contains("skill loaded: guide"));
    assert!(text.contains("# Guide"));
    assert!(text.contains("Use this skill."));
    assert_eq!(
        skill.detail_text_with_enabled(false, None),
        "enabled: disabled\nproject skill guide - Guide"
    );
    let ext = extension_entry(
        CapabilitySource::Global,
        "dir".to_owned(),
        "/h/dir".to_owned(),
        Some("hello".to_owned()),
        Some("hello extension".to_owned()),
    );
    assert_eq!(ext.name, "hello");
    assert_eq!(
        ext.detail_text(Some("name = \"hello\"")),
        "path: /h/dir\nkind: extension\nsource: global\nname: hello\nsummary: hello extension\nname = \"hello\"\n"
    );
    assert_eq!(limit_preview("1\n2\n3", 2), "1\n2\n... (collapsed)");
}

#[test]
fn skill_search_leaves_out_extensions() {
    let entry = |kind: CapabilityKind, name: &str| CapabilityEntry {
        kind,
        source: CapabilitySource::Project,
        name: name.to_owned(),
        summary: None,
        path: format!("/tmp/project/.picocode/x/{name}"),
    };
    let index = CapabilityIndex::from_entries(vec![
        entry(CapabilityKind::Extension, "review-tools"),
        entry(CapabilityKind::Skill, "review"),
        entry(CapabilityKind::Skill, "deploy"),
    ]);

    let skills = index.matching_skills("review");
    assert_eq!(skills.len(), 1);
    assert_eq!(skills[0].name, "review");
    assert_eq!(index.matching("review").len(), 2);
}
