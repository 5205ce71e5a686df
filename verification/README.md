# picocode

A small local coding agent for the terminal: it keeps a session of events, talks to an
OpenAI-style chat provider, runs a fixed set of workspace tools (read, search, edit, run a
command), and saves each session as JSON lines under `.picocode/sessions/`.

## Layout

- `src/` is the library, written in Verus: every function carries a contract and is proved.
  - `event.rs`, `session.rs`, `session_json.rs`: events, sessions, their summaries, the HTML
    export and the JSON line format of a session file. The lines are read through
    `serde_json`, whose results the library only names; the law that reading a written line
    gives the line back is proved on the condition that `serde_json` reads each object written
    back with the members written.
  - `agent_core.rs`: one agent turn as a state machine from the model's and the tools' answers
    to the next step, and the loop of a whole turn over any model and tools: it ends with the
    model's answer or an error, each tool call is followed by its result, and the number of
    tool calls stays within the limit.
  - `tool.rs`, `workspace.rs`: tool calls, their arguments and permissions, file edits with
    checkpoints and their rewinding.
  - `ai.rs`, `ai/openai.rs`: the chat request and response formats.
  - `app.rs`, `controller.rs`, `transcript.rs` and the pickers and editor: the state of the
    terminal UI and what each key and command does to it.
  - `config.rs`, `capability.rs`, `instruction.rs`, `cli.rs`, `image.rs`, `text.rs`,
    `order.rs`, `keys.rs`, `submission.rs`: configuration, capabilities and instructions, the
    command line, image attachments, and text and ordering helpers.
- `app/` is the program around the library: the terminal loop, the files, the network, the
  clipboard and the provider calls. It hands the library plain values and acts on what it
  returns.
- `tests/` runs the library on concrete inputs.

Outside crates (`serde_json`, `unicode-width`) are reached from `src/` through small trusted
functions whose contracts say what the crate's documentation promises; everything built on
them is proved against those contracts.
