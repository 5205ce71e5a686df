use picocode::agent_core::{
    parse_tool_call, repair_loop_instruction, run_prompt_turn, submission_needs_model, tool_call_from_content,
    AgentConfig, AgentStep, AgentTurn, TurnServices,
};
use picocode::ai::AiContext;
use std::cell::RefCell;
use picocode::ai::{AssistantMessage, AssistantOutput, ContentBlock, StopReason, ToolCallContent};
use picocode::event::{Event, EventMsg};
use picocode::submission::{Op, Submission};
use picocode::tool::{ToolCall, ToolResult};
use picocode::tool::ToolResultStatus;

#[test]
fn parse_tool_call_extracts_name_and_arguments() {
    let call = parse_tool_call(
        "<tool_call>\nname=read\npath=Cargo.toml\noffset=0\nlimit=10\n</tool_call>",
    )
    .unwrap();

    assert_eq!(call.name, "read");
    assert_eq!(call.arguments, "path=Cargo.toml\noffset=0\nlimit=10");
}

#[test]
fn native_json_arguments_support_search_fields() {
    let call = tool_call_from_content(ToolCallContent {
        id: "native-call-0".to_owned(),
        name: "grep".to_owned(),
        arguments: "{\"query\":\"ToolRuntime\",\"path\":\"src\",\"limit\":20,\"ignore_case\":true}"
            .to_owned(),
    });

    assert_eq!(call.name, "grep");
    assert_eq!(
        call.arguments,
        "{\"query\":\"ToolRuntime\",\"path\":\"src\",\"limit\":20,\"ignore_case\":true}"
    );
}

#[test]
fn parse_tool_call_trims_and_skips_lines() {
    let call = parse_tool_call(
        "Let me look.\n<tool_call>\n  path = src/lib.rs \nno equals here\n\nname = ls\nname=read\n</tool_call> trailing",
    )
    .unwrap();
    assert_eq!(call.id, "call-0");
    assert_eq!(call.name, "read");
    assert_eq!(call.arguments, "path=src/lib.rs");
    assert!(parse_tool_call("<tool_call>\npath=x\n</tool_call>").is_none());
    assert!(parse_tool_call("<tool_call>\nname=ls\n").is_none());
    assert!(parse_tool_call("plain answer").is_none());
}

#[test]
fn repair_instruction_names_the_status() {
    assert_eq!(
        repair_loop_instruction("cargo test", ToolResultStatus::Error),
        "Repair loop: run_command failed for `cargo test`. Read the stderr preview in the tool result, search for the cause, fix the relevant files, and rerun the same command before answering."
    );
    let config = AgentConfig::default();
    assert_eq!(config.max_model_steps, 16);
    assert_eq!(config.max_tool_steps, 12);
}

/// Runs a turn over the given answers of the model, with `run` standing for the tools.
fn drive(outputs: Vec<AssistantOutput>, prompt: &str, run: impl Fn(&ToolCall) -> ToolResult) -> Vec<EventMsg> {
    let mut turn = AgentTurn::new(AgentConfig::default());
    let mut base = vec![Event::new("evt-0", EventMsg::user(prompt))];
    let mut outputs = outputs.into_iter();
    let mut step = turn.begin(&mut base);
    loop {
        step = match step {
            AgentStep::AskModel(_) => turn.after_model(&mut base, Ok(outputs.next().unwrap())),
            AgentStep::AskFinalAnswer(_) => {
                turn.after_final_answer(Ok(outputs.next().unwrap()));
                AgentStep::Finished
            }
            AgentStep::RunTool(call) => {
                let result = run(&call);
                let summary = call.summary();
                turn.after_tool(&mut base, &call.name, &summary, result)
            }
            AgentStep::Finished => break,
        };
    }
    assert_eq!(base.len(), 1);
    turn.into_result().events
}

fn texts(outputs: &[&str]) -> Vec<AssistantOutput> {
    outputs.iter().map(|o| AssistantOutput::from_provider_content(o)).collect()
}

fn ok_tool(call: &ToolCall) -> ToolResult {
    ToolResult::success(&call.id, "ok".to_owned(), false)
}

fn count(events: &[EventMsg], tool_calls: bool) -> usize {
    events
        .iter()
        .filter(|event| {
            if tool_calls {
                matches!(event, EventMsg::ToolCall(_))
            } else {
                matches!(event, EventMsg::ToolResult(_))
            }
        })
        .count()
}

#[test]
fn run_submission_returns_assistant_without_tool_call() {
    let events = drive(texts(&["hello"]), "hello", ok_tool);

    assert_eq!(events, vec![EventMsg::assistant("hello")]);
}

#[test]
fn run_submission_executes_one_tool_then_final_answer() {
    let events = drive(
        texts(&[
            "<tool_call>\nname=read\npath=README.md\noffset=0\nlimit=100\n</tool_call>",
            "README says hello workspace.",
        ]),
        "read README",
        |call| ToolResult::success(&call.id, "hello workspace".to_owned(), false),
    );

    assert!(matches!(events[0], EventMsg::ToolCall(_)));
    assert!(matches!(events[1], EventMsg::ToolResult(_)));
    assert_eq!(events.last().unwrap(), &EventMsg::assistant("README says hello workspace."));
}

#[test]
fn run_submission_executes_multiple_tools_then_final_answer() {
    let events = drive(
        texts(&[
            "<tool_call>\nname=find\nquery=README\npath=.\nlimit=10\n</tool_call>",
            "<tool_call>\nname=grep\nquery=install\npath=README.md\nlimit=10\n</tool_call>",
            "<tool_call>\nname=read\npath=README.md\noffset=0\nlimit=100\n</tool_call>",
            "README includes an install guide.",
        ]),
        "read install guide",
        ok_tool,
    );

    assert_eq!(count(&events, true), 3);
    assert_eq!(count(&events, false), 3);
    assert_eq!(events.last().unwrap(), &EventMsg::assistant("README includes an install guide."));
}

#[test]
fn run_submission_injects_repair_loop_after_command_failure() {
    let events = drive(
        texts(&[
            "<tool_call>\nname=run_command\ncommand=false\n</tool_call>",
            "The command failed because the shell returned a non-zero exit code.",
            "<tool_call>\nname=run_command\ncommand=printf fixed\n</tool_call>",
            "The command is now fixed.",
        ]),
        "run the check",
        |call| {
            if call.arguments.contains("false") {
                ToolResult::error(&call.id, "exit status 1")
            } else {
                ToolResult::success(&call.id, "fixed".to_owned(), false)
            }
        },
    );

    assert!(events.iter().any(|event| matches!(
        event,
        EventMsg::SystemMessage(message) if message.content.contains("Repair loop: run_command failed")
    )));
    assert!(events.iter().any(|event| matches!(
        event,
        EventMsg::SystemMessage(message) if message.content.contains("Continue the repair loop")
    )));
    assert_eq!(events.last().unwrap(), &EventMsg::assistant("The command is now fixed."));
}

#[test]
fn run_submission_answers_after_tool_limit() {
    let mut outputs = vec!["<tool_call>\nname=read\npath=README.md\noffset=0\nlimit=100\n</tool_call>"; 13];
    outputs.push("I found README.md and it contains picocode.");
    let events = drive(texts(&outputs), "read README", ok_tool);

    assert_eq!(count(&events, true), 12);
    assert!(!events.iter().any(|event| matches!(
        event,
        EventMsg::SystemMessage(message) if message.content.contains("Tool step limit reached")
    )));
    assert_eq!(
        events.last().unwrap(),
        &EventMsg::assistant("I found README.md and it contains picocode.")
    );
}

#[test]
fn run_submission_uses_native_tool_call_before_text_fallback() {
    let native = AssistantOutput {
        message: AssistantMessage {
            content: vec![ContentBlock::tool_call(
                "native-call-0",
                "read",
                "{\"path\":\"README.md\",\"offset\":0,\"limit\":100}",
            )],
            stop_reason: Some(StopReason::ToolUse),
            usage: None,
        },
        raw_response_id: None,
    };
    let events = drive(
        vec![native, AssistantOutput::from_provider_content("native final")],
        "read README",
        ok_tool,
    );

    match &events[0] {
        EventMsg::ToolCall(call) => {
            assert_eq!(call.call_id, "native-call-0");
            assert_eq!(call.arguments, "{\"path\":\"README.md\",\"offset\":0,\"limit\":100}");
        }
        _ => panic!("expected tool call"),
    }
    assert_eq!(events.last().unwrap(), &EventMsg::assistant("native final"));
}

#[test]
fn model_error_ends_the_turn_with_an_error_event() {
    let mut turn = AgentTurn::new(AgentConfig::default());
    let mut base = vec![Event::new("evt-0", EventMsg::user("hi"))];
    let step = turn.begin(&mut base);
    assert!(matches!(step, AgentStep::AskModel(_)));
    let step = turn.after_model(&mut base, Err("provider down".to_owned()));
    assert!(matches!(step, AgentStep::Finished));
    assert_eq!(turn.into_result().events, vec![EventMsg::error("provider down")]);
}

#[test]
fn denied_tool_call_ends_the_turn() {
    let events = drive(
        texts(&["<tool_call>\nname=run_command\ncommand=rm -rf /\n</tool_call>"]),
        "clean up",
        |call| {
            let mut result = ToolResult::error(&call.id, "blocked");
            result.status = picocode::tool::ToolResultStatus::Denied;
            result
        },
    );

    assert_eq!(events.last().unwrap(), &EventMsg::error("tool call denied"));
}

#[test]
fn only_prompts_need_the_model() {
    assert!(submission_needs_model(&Submission::new("sub-0", Op::user_input("hello"))));
    assert!(!submission_needs_model(&Submission::new("sub-1", Op::local_command(picocode::submission::LocalCommand::Compact))));
}

#[test]
fn final_answer_context_carries_the_tool_limit_note() {
    let mut turn = AgentTurn::new(AgentConfig { max_model_steps: 16, max_tool_steps: 0 });
    let mut base = vec![Event::new("evt-0", EventMsg::user("read README"))];
    assert!(matches!(turn.begin(&mut base), AgentStep::AskModel(_)));
    let step = turn.after_model(
        &mut base,
        Ok(AssistantOutput::from_provider_content("<tool_call>\nname=read\npath=README.md\n</tool_call>")),
    );
    match step {
        AgentStep::AskFinalAnswer(context) => {
            assert!(context.tools.is_empty());
            let prompt = context.system_prompt.unwrap_or_default();
            assert!(prompt.contains("Tool step limit reached (0/0)"), "{prompt}");
        }
        _ => panic!("expected a final answer step"),
    }
    assert_eq!(base.len(), 1);
    assert!(turn.into_result().events.is_empty());
}

/// A model that gives these answers in turn (an error once they run out), and tools that
/// always work.
struct Scripted {
    answers: RefCell<Vec<Result<AssistantOutput, String>>>,
    asked: RefCell<usize>,
}

impl TurnServices for Scripted {
    fn complete(&self, _context: &AiContext) -> Result<AssistantOutput, String> {
        *self.asked.borrow_mut() += 1;
        let mut answers = self.answers.borrow_mut();
        if answers.is_empty() {
            Err("no more answers".to_owned())
        } else {
            answers.remove(0)
        }
    }

    fn execute(&self, call: ToolCall) -> ToolResult {
        ToolResult::success(&call.id, "ok".to_owned(), false)
    }
}

fn scripted(answers: Vec<Result<AssistantOutput, String>>) -> Scripted {
    Scripted { answers: RefCell::new(answers), asked: RefCell::new(0) }
}

#[test]
fn a_whole_turn_runs_tools_then_answers() {
    let services = scripted(vec![
        Ok(AssistantOutput::from_provider_content("<tool_call>\nname=read\npath=README.md\n</tool_call>")),
        Ok(AssistantOutput::from_provider_content("done")),
    ]);
    let events = run_prompt_turn(&services, AgentConfig::default(), vec![Event::new("evt-0", EventMsg::user("hi"))]).events;
    assert!(matches!(events[0], EventMsg::ToolCall(_)));
    assert!(matches!(events[1], EventMsg::ToolResult(_)));
    assert_eq!(events.last().unwrap(), &EventMsg::assistant("done"));
    assert_eq!(*services.asked.borrow(), 2);
}

#[test]
fn a_model_that_keeps_calling_tools_stops_at_the_limits() {
    let call = "<tool_call>\nname=read\npath=README.md\n</tool_call>";
    let services = scripted((0..40).map(|_| Ok(AssistantOutput::from_provider_content(call))).collect());
    let events = run_prompt_turn(&services, AgentConfig::default(), vec![Event::new("evt-0", EventMsg::user("hi"))]).events;
    let calls = events.iter().filter(|e| matches!(e, EventMsg::ToolCall(_))).count();
    assert_eq!(calls, 12);
    for (i, e) in events.iter().enumerate() {
        if matches!(e, EventMsg::ToolCall(_)) {
            assert!(matches!(events[i + 1], EventMsg::ToolResult(_)));
        }
    }
    assert!(matches!(events.last().unwrap(), EventMsg::AssistantMessage(_) | EventMsg::Error(_)));
    assert!(*services.asked.borrow() <= 17);
}

#[test]
fn a_failing_model_ends_the_turn_with_its_error() {
    let services = scripted(Vec::new());
    let events = run_prompt_turn(&services, AgentConfig::default(), vec![Event::new("evt-0", EventMsg::user("hi"))]).events;
    assert_eq!(events, vec![EventMsg::error("no more answers")]);
}
