//! What the user submits: a prompt for the agent, or a local command.
use vstd::prelude::*;
use crate::text::to_owned_str;

verus! {

#[derive(Debug, Clone, PartialEq, Eq)]
pub struct Submission {
    pub id: String,
    pub op: Op,
}

impl Submission {
    pub fn copy(&self) -> (r: Self)
        ensures
            r == *self,
    {
        Submission { id: self.id.clone(), op: self.op.copy() }
    }

    pub fn new(id: &str, op: Op) -> (r: Self)
        ensures
            r.id@ == id@,
            r.op == op,
    {
        Submission { id: to_owned_str(id), op }
    }
}

#[derive(Debug, Clone, PartialEq, Eq)]
pub enum Op {
    UserInput { content: String },
    LocalCommand { command: LocalCommand },
}

impl Op {
    pub fn user_input(content: &str) -> (r: Self)
        ensures
            r matches Op::UserInput { content: c } && c@ == content@,
    {
        Op::UserInput { content: to_owned_str(content) }
    }

    pub fn copy(&self) -> (r: Self)
        ensures
            r == *self,
    {
        match self {
            Op::UserInput { content } => Op::UserInput { content: content.clone() },
            Op::LocalCommand { command } => Op::LocalCommand { command: command.copy() },
        }
    }

    pub fn local_command(command: LocalCommand) -> (r: Self)
        ensures
            r == (Op::LocalCommand { command }),
    {
        Op::LocalCommand { command }
    }
}

#[derive(Debug, Clone, PartialEq, Eq)]
pub enum LocalCommand {
    New,
    Resume,
    Continue,
    Config,
    Image { path: String },
    ImageClipboard,
    Compact,
    Export,
    Share,
    Capabilities,
    Capability { query: String },
    CapabilityEnable { query: String },
    CapabilityDisable { query: String },
    Skill { query: String },
    Tree,
    Fork,
    Session { id: String },
    Model,
}

impl LocalCommand {
    pub fn copy(&self) -> (r: Self)
        ensures
            r == *self,
    {
        match self {
            LocalCommand::New => LocalCommand::New,
            LocalCommand::Resume => LocalCommand::Resume,
            LocalCommand::Continue => LocalCommand::Continue,
            LocalCommand::Config => LocalCommand::Config,
            LocalCommand::Image { path } => LocalCommand::Image { path: path.clone() },
            LocalCommand::ImageClipboard => LocalCommand::ImageClipboard,
            LocalCommand::Compact => LocalCommand::Compact,
            LocalCommand::Export => LocalCommand::Export,
            LocalCommand::Share => LocalCommand::Share,
            LocalCommand::Capabilities => LocalCommand::Capabilities,
            LocalCommand::Capability { query } => LocalCommand::Capability { query: query.clone() },
            LocalCommand::CapabilityEnable { query } => LocalCommand::CapabilityEnable {
                query: query.clone(),
            },
            LocalCommand::CapabilityDisable { query } => LocalCommand::CapabilityDisable {
                query: query.clone(),
            },
            LocalCommand::Skill { query } => LocalCommand::Skill { query: query.clone() },
            LocalCommand::Tree => LocalCommand::Tree,
            LocalCommand::Fork => LocalCommand::Fork,
            LocalCommand::Session { id } => LocalCommand::Session { id: id.clone() },
            LocalCommand::Model => LocalCommand::Model,
        }
    }
}

} // verus!
