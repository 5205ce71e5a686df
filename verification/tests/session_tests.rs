use picocode::event::{Event, EventMsg};
use picocode::session::{
    fork_content, html_escape, rename_target, render_export_event, session_html_document,
    sessions_newest_first, summarize_lines, summary_box, ForkContent, Session, SessionItem,
    SessionLine, SessionMeta, SessionStats,
};

#[test]
fn session_paths_use_jsonl_extension() {
    let session = Session::new("abc", "/tmp/project");

    assert_eq!(session.id, "abc");
    assert!(session.path.ends_with(".picocode/sessions/abc.jsonl"));
}

#[test]
fn session_paths_join_without_doubled_slashes() {
    assert_eq!(
        Session::new("abc", "/tmp/project/").path,
        "/tmp/project/.picocode/sessions/abc.jsonl"
    );
}

#[test]
fn stats_labels_list_the_counts() {
    let stats = SessionStats {
        user_messages: 2,
        command_runs: 1,
        compactions: 1,
        branch_summaries: 2,
        duration_millis: Some(65_999),
        ..SessionStats::default()
    };
    assert_eq!(
        stats.compact_label(),
        "u=2 a=0 img=0 tool=0 cmd=1 edit=0 sum=3 span=65s"
    );
    assert_eq!(
        stats.verbose_label(),
        "user=2 assistant=0 img=0 tool=0 cmd=1 edit=0 compact=1 branch=2 err=0 final=0 span=65s"
    );
    assert_eq!(
        SessionStats::default().compact_label(),
        "u=0 a=0 img=0 tool=0 cmd=0 edit=0 sum=0"
    );
}

fn line(timestamp: &str, item: SessionItem) -> SessionLine {
    SessionLine {
        timestamp: timestamp.to_owned(),
        item,
    }
}

#[test]
fn summaries_count_events_and_measure_the_span() {
    let session = Session::new("s", "/tmp/p");
    let lines = vec![
        line(
            "1000",
            SessionItem::SessionMeta(SessionMeta {
                session_id: "s".to_owned(),
                parent_session_id: Some("p".to_owned()),
                cwd: "/tmp/p".to_owned(),
                app_version: "0.1.0".to_owned(),
                ai_provider: Some("openai".to_owned()),
                ai_model: Some("gpt-5".to_owned()),
            }),
        ),
        line("1500", SessionItem::EventMsg(Event::new("evt-0", EventMsg::user("hi")))),
        line("4200", SessionItem::EventMsg(Event::new("evt-1", EventMsg::error("x")))),
    ];
    let summary = summarize_lines(&session, &lines);
    assert_eq!(summary.event_count, 2);
    assert_eq!(summary.stats.user_messages, 1);
    assert_eq!(summary.stats.errors, 1);
    assert_eq!(summary.stats.duration_millis, Some(3200));
    assert_eq!(summary.parent_session_id.as_deref(), Some("p"));
    assert_eq!(summary.first_timestamp.as_deref(), Some("1000"));
    assert_eq!(summary.last_timestamp.as_deref(), Some("4200"));

    let backwards = vec![
        line("9", SessionItem::EventMsg(Event::new("evt-0", EventMsg::user("a")))),
        line("8", SessionItem::EventMsg(Event::new("evt-1", EventMsg::user("b")))),
    ];
    assert_eq!(summarize_lines(&session, &backwards).stats.duration_millis, None);
    let empty = summarize_lines(&session, &[]);
    assert_eq!(empty.event_count, 0);
    assert!(empty.cwd.is_none());
}

#[test]
fn html_export_escapes_text() {
    assert_eq!(html_escape("<a href='x'>&\"</a>"), "&lt;a href=&#39;x&#39;&gt;&amp;&quot;&lt;/a&gt;");
    assert_eq!(
        summary_box("k", "<v>"),
        "<div><div class=\"k\">k</div><div class=\"v\">&lt;v&gt;</div></div>"
    );
    let event = Event::new("evt-0", EventMsg::user("1 < 2"));
    assert_eq!(
        render_export_event(&event),
        "<article class=\"event user\"><div class=\"label\">you</div><pre class=\"content\">1 &lt; 2</pre></article>"
    );
}

#[test]
fn html_document_holds_header_and_events() {
    let session = Session::new("s<1>", "/tmp/p");
    let lines = vec![line(
        "1",
        SessionItem::EventMsg(Event::new("evt-0", EventMsg::assistant("done"))),
    )];
    let summary = summarize_lines(&session, &lines);
    let html = session_html_document(&session, &summary, &lines, "export");
    assert!(html.starts_with("<!DOCTYPE html>"));
    assert!(html.contains("<title>PicoCode export: s&lt;1&gt;</title>"));
    assert!(html.contains("<div class=\"k\">ai</div><div class=\"v\">-</div>"));
    assert!(html.contains("<pre class=\"content\">done</pre>"));
    assert!(html.ends_with("</section></div></body></html>"));
}

fn event_line(stamp: &str, id: &str, msg: EventMsg) -> SessionLine {
    SessionLine { timestamp: stamp.to_owned(), item: SessionItem::EventMsg(Event::new(id, msg)) }
}

fn meta_line(stamp: &str) -> SessionLine {
    SessionLine {
        timestamp: stamp.to_owned(),
        item: SessionItem::SessionMeta(SessionMeta {
            session_id: "source".to_owned(),
            parent_session_id: None,
            cwd: "/tmp/project".to_owned(),
            app_version: "0.1.0".to_owned(),
            ai_provider: None,
            ai_model: None,
        }),
    }
}

#[test]
fn fork_copies_event_lines_without_summary() {
    let lines = vec![
        meta_line("1"),
        event_line("2", "evt-0", EventMsg::user("hello")),
        event_line("3", "evt-1", EventMsg::assistant("hi")),
    ];

    match fork_content("source", "forked", lines.clone()) {
        ForkContent::Copy(copied) => assert_eq!(copied, lines[1..].to_vec()),
        other => panic!("unexpected fork: {other:?}"),
    }
}

#[test]
fn fork_inserts_branch_summary_after_compaction() {
    let compaction = picocode::event::CompactionEvent {
        summary: "Goal: ship".to_owned(),
        folded_event_count: 1,
    };
    let lines = vec![
        meta_line("1"),
        event_line("2", "evt-0", EventMsg::user("first")),
        event_line("3", "evt-1", EventMsg::compaction(compaction)),
        event_line("4", "evt-2", EventMsg::user("after")),
    ];

    match fork_content("source", "forked", lines) {
        ForkContent::Branch(head, tail) => {
            assert_eq!(head.id, "evt-branch-forked");
            match head.msg {
                EventMsg::BranchSummary(summary) => {
                    assert_eq!(summary.source_session_id, "source");
                    assert_eq!(summary.folded_event_count, 1);
                }
                other => panic!("expected a branch summary, got {other:?}"),
            }
            assert_eq!(tail, vec![Event::new("evt-2", EventMsg::user("after"))]);
        }
        other => panic!("unexpected fork: {other:?}"),
    }
}

#[test]
fn rename_trims_and_refuses_blank_or_taken_names() {
    assert_eq!(rename_target("a", "   ", "/p", false).unwrap_err(), "session name cannot be empty");
    assert!(rename_target("a", " a ", "/p", true).unwrap().is_none());
    assert_eq!(rename_target("a", "b", "/p", true).unwrap_err(), "session already exists: b");
    let renamed = rename_target("a", " b ", "/p", false).unwrap().unwrap();
    assert_eq!(renamed.id, "b");
    assert_eq!(renamed.path, "/p/.picocode/sessions/b.jsonl");
}

#[test]
fn store_lists_newest_sessions_first() {
    let summary = |id: &str, last: Option<&str>| {
        let lines: Vec<SessionLine> = match last {
            Some(stamp) => vec![meta_line(stamp)],
            None => Vec::new(),
        };
        summarize_lines(&Session::new(id, "/p"), &lines)
    };
    let listed = sessions_newest_first(&vec![summary("a", Some("5")), summary("b", None), summary("c", Some("9")), summary("d", Some("5"))]);
    let ids: Vec<&str> = listed.iter().map(|s| s.session.id.as_str()).collect();

    assert_eq!(ids, vec!["c", "d", "a", "b"]);
}
