//! Instruction sources (global and project context files, the project's configuration) and
//! how they are turned into messages.
use vstd::prelude::*;
use crate::text::{cat, chars_of, dec, join, join_seq, push_str, str_eq, string_of, to_owned_str, u64_to_string, usize_to_string, views};

verus! {

/// How many characters of an instruction file are kept.
pub const INSTRUCTION_CHAR_LIMIT: usize = 4096;

/// Where an instruction source comes from.
#[derive(Debug, Clone, Copy, PartialEq, Eq)]
pub enum InstructionSourceKind {
    Global,
    ProjectInstruction,
    ProjectConfig,
    ProjectPlan,
}

impl InstructionSourceKind {
    pub open spec fn label_spec(self) -> Seq<char> {
        match self {
            InstructionSourceKind::Global => "global"@,
            InstructionSourceKind::ProjectInstruction => "project"@,
            InstructionSourceKind::ProjectConfig => "config"@,
            InstructionSourceKind::ProjectPlan => "plan"@,
        }
    }

    pub fn label(self) -> (r: &'static str)
        ensures
            r@ == self.label_spec(),
    {
        match self {
            InstructionSourceKind::Global => "global",
            InstructionSourceKind::ProjectInstruction => "project",
            InstructionSourceKind::ProjectConfig => "config",
            InstructionSourceKind::ProjectPlan => "plan",
        }
    }
}

/// One loaded instruction source.
#[derive(Debug, Clone, PartialEq, Eq)]
pub struct InstructionDoc {
    pub path: String,
    pub content: String,
    pub truncated: bool,
    pub kind: InstructionSourceKind,
}

/// The first `INSTRUCTION_CHAR_LIMIT` characters of a text.
pub open spec fn truncate_spec(content: Seq<char>) -> Seq<char> {
    if content.len() > INSTRUCTION_CHAR_LIMIT {
        content.take(INSTRUCTION_CHAR_LIMIT as int)
    } else {
        content
    }
}

pub open spec fn system_message_spec(doc: InstructionDoc) -> Seq<char> {
    "Loaded instruction source ["@ + doc.kind.label_spec() + "]: "@ + doc.path@ + "\n"@ + doc.content@
        + if doc.truncated {
        "\n\n[truncated]"@
    } else {
        Seq::empty()
    }
}

impl InstructionDoc {
    /// The source made of a file's text: at most `INSTRUCTION_CHAR_LIMIT` characters of it,
    /// marked truncated when there were more.
    pub fn from_content(path: String, content: &str, kind: InstructionSourceKind) -> (r: Self)
        ensures
            r.path == path,
            r.content@ == truncate_spec(content@),
            r.truncated == (content@.len() > INSTRUCTION_CHAR_LIMIT),
            r.kind == kind,
    {
        let v = chars_of(content);
        let truncated = v.len() > INSTRUCTION_CHAR_LIMIT;
        let kept = if truncated {
            crate::text::subrange_string(&v, 0, INSTRUCTION_CHAR_LIMIT)
        } else {
            to_owned_str(content)
        };
        proof {
            if truncated {
                assert(v@.subrange(0, INSTRUCTION_CHAR_LIMIT as int) =~= content@.take(INSTRUCTION_CHAR_LIMIT as int));
            }
        }
        InstructionDoc { path, content: kept, truncated, kind }
    }

    pub fn display_path(&self) -> (r: String)
        ensures
            r@ == self.path@,
    {
        self.path.clone()
    }

    /// The system message that tells the model about the source.
    pub fn to_system_message(&self) -> (r: String)
        ensures
            r@ == system_message_spec(*self),
    {
        let mut m = cat("Loaded instruction source [", self.kind.label());
        push_str(&mut m, "]: ");
        push_str(&mut m, self.path.as_str());
        push_str(&mut m, "\n");
        push_str(&mut m, self.content.as_str());
        if self.truncated {
            push_str(&mut m, "\n\n[truncated]");
        } else {
            assert(m@ + Seq::<char>::empty() =~= m@);
        }
        m
    }
}

/// When the tool runtime may run a shell command: only when it looks safe, always, or never.
#[derive(Debug, Clone, PartialEq, Eq)]
pub enum CommandApproval {
    OnRisky,
    Always,
    Never,
}

impl CommandApproval {
    pub open spec fn word(self) -> Seq<char> {
        match self {
            CommandApproval::OnRisky => "on_risky"@,
            CommandApproval::Always => "always"@,
            CommandApproval::Never => "never"@,
        }
    }

    /// The setting as the configuration file writes it.
    pub fn as_str(&self) -> (r: &'static str)
        ensures
            r@ == self.word(),
    {
        match self {
            CommandApproval::OnRisky => "on_risky",
            CommandApproval::Always => "always",
            CommandApproval::Never => "never",
        }
    }

    pub fn from_str(value: &str) -> (r: Option<Self>)
        ensures
            r == Self::from_word(value@),
    {
        if str_eq(value, "on_risky") {
            Some(CommandApproval::OnRisky)
        } else if str_eq(value, "always") {
            Some(CommandApproval::Always)
        } else if str_eq(value, "never") {
            Some(CommandApproval::Never)
        } else {
            None
        }
    }

    pub fn copy(&self) -> (r: Self)
        ensures
            r == *self,
    {
        match self {
            CommandApproval::OnRisky => CommandApproval::OnRisky,
            CommandApproval::Always => CommandApproval::Always,
            CommandApproval::Never => CommandApproval::Never,
        }
    }
}

/// Reading an approval setting back from its word gives the setting again.
pub proof fn approval_word_round_trip(a: CommandApproval, b: CommandApproval)
    ensures
        a.word() == b.word() <==> a == b,
        CommandApproval::from_word(a.word()) == Some(a),
{
    reveal_strlit("on_risky");
    reveal_strlit("always");
    reveal_strlit("never");
    assert("on_risky"@.len() == 8 && "always"@.len() == 6 && "never"@.len() == 5);
    if a != b {
        assert(a.word()[0] != b.word()[0] || a.word().len() != b.word().len());
    }
}

#[derive(Debug, Clone, PartialEq, Eq, Default)]
pub struct ProjectWorkspaceConfig {
    pub respect_gitignore: bool,
}

#[derive(Debug, Clone, PartialEq, Eq, Default)]
pub struct ProjectCommandConfig {
    pub approval: Option<CommandApproval>,
    pub timeout: Option<u64>,
}

impl ProjectCommandConfig {
    pub fn copy(&self) -> (r: Self)
        ensures
            r == *self,
    {
        ProjectCommandConfig {
            approval: match &self.approval {
                Some(a) => Some(a.copy()),
                None => None,
            },
            timeout: self.timeout,
        }
    }
}

/// The settings of a project's configuration file.
#[derive(Debug, Clone, PartialEq, Eq)]
pub struct ProjectConfig {
    pub workspace: ProjectWorkspaceConfig,
    pub command: ProjectCommandConfig,
}

/// The configuration file's fields as they were written, each one optional.
#[derive(Debug, Clone, PartialEq, Eq, Default)]
pub struct ProjectFileConfig {
    pub respect_gitignore: Option<bool>,
    pub approval: Option<String>,
    pub timeout: Option<u64>,
}

pub open spec fn bool_text(b: bool) -> Seq<char> {
    if b {
        "true"@
    } else {
        "false"@
    }
}

pub open spec fn config_summary_parts(c: ProjectConfig) -> Seq<Seq<char>> {
    let a = seq!["workspace.respect_gitignore="@ + bool_text(c.workspace.respect_gitignore)];
    let b = match c.command.approval {
        Some(ap) => a.push("command.approval="@ + ap.word()),
        None => a,
    };
    match c.command.timeout {
        Some(t) => b.push("command.timeout="@ + dec(t as nat) + "s"@),
        None => b,
    }
}

pub open spec fn config_summary_spec(c: ProjectConfig) -> Seq<char> {
    "Project config: "@ + join_seq(config_summary_parts(c), ", "@)
}

impl ProjectConfig {
    /// The configuration that the file's fields give: `.gitignore` respected unless it says
    /// otherwise; an approval word that is not known is dropped with a warning.
    pub fn from_file(file: ProjectFileConfig, path: &str, warnings: &mut Vec<String>) -> (r: Self)
        ensures
            r.workspace.respect_gitignore == match file.respect_gitignore {
                Some(b) => b,
                None => true,
            },
            r.command.timeout == file.timeout,
            file.approval matches Some(raw) ==> (match CommandApproval::from_word(raw@) {
                Some(a) => r.command.approval == Some(a) && final(warnings)@ == old(warnings)@,
                None => r.command.approval is None && final(warnings)@.len() == old(warnings)@.len() + 1
                    && final(warnings)@.take(old(warnings)@.len() as int) == old(warnings)@
                    && final(warnings)@.last()@ == "failed to parse "@ + path@
                    + ": unsupported command.approval value '"@ + raw@ + "'"@,
            }),
            file.approval is None ==> r.command.approval is None && final(warnings)@ == old(warnings)@,
    {
        let approval = match &file.approval {
            Some(raw) => match CommandApproval::from_str(raw.as_str()) {
                Some(a) => Some(a),
                None => {
                    let mut w = cat("failed to parse ", path);
                    push_str(&mut w, ": unsupported command.approval value '");
                    push_str(&mut w, raw.as_str());
                    push_str(&mut w, "'");
                    warnings.push(w);
                    proof {
                        assert(warnings@.take(old(warnings)@.len() as int) =~= old(warnings)@);
                    }
                    None
                },
            },
            None => None,
        };
        let respect = match file.respect_gitignore {
            Some(b) => b,
            None => true,
        };
        ProjectConfig {
            workspace: ProjectWorkspaceConfig { respect_gitignore: respect },
            command: ProjectCommandConfig { approval, timeout: file.timeout },
        }
    }

    /// The configuration as a line of text.
    pub fn summary(&self) -> (r: String)
        ensures
            r@ == config_summary_spec(*self),
    {
        let mut parts: Vec<String> = Vec::new();
        let b = if self.workspace.respect_gitignore {
            "true"
        } else {
            "false"
        };
        parts.push(cat("workspace.respect_gitignore=", b));
        if let Some(a) = &self.command.approval {
            parts.push(cat("command.approval=", a.as_str()));
        }
        if let Some(t) = self.command.timeout {
            let mut x = cat("command.timeout=", u64_to_string(t).as_str());
            push_str(&mut x, "s");
            parts.push(x);
        }
        assert(views(parts@) =~= config_summary_parts(*self));
        cat("Project config: ", join(&parts, ", ").as_str())
    }
}

impl CommandApproval {
    pub open spec fn from_word(w: Seq<char>) -> Option<CommandApproval> {
        if w == "on_risky"@ {
            Some(CommandApproval::OnRisky)
        } else if w == "always"@ {
            Some(CommandApproval::Always)
        } else if w == "never"@ {
            Some(CommandApproval::Never)
        } else {
            None
        }
    }
}

/// What was loaded: the instruction sources in order, the warnings, and the project's
/// configuration when it has one.
#[derive(Debug, Clone, PartialEq, Eq)]
pub struct InstructionLoadReport {
    pub docs: Vec<InstructionDoc>,
    pub warnings: Vec<String>,
    pub project_config: Option<ProjectConfig>,
}

pub open spec fn count_kind(docs: Seq<InstructionDoc>, kind: InstructionSourceKind) -> nat
    decreases docs.len(),
{
    if docs.len() == 0 {
        0
    } else {
        count_kind(docs.drop_last(), kind) + if docs.last().kind == kind {
            1nat
        } else {
            0nat
        }
    }
}

proof fn lemma_count_kind_bound(docs: Seq<InstructionDoc>, kind: InstructionSourceKind)
    ensures
        count_kind(docs, kind) <= docs.len(),
    decreases docs.len(),
{
    if docs.len() > 0 {
        lemma_count_kind_bound(docs.drop_last(), kind);
    }
}

pub open spec fn summary_message_spec(docs: Seq<InstructionDoc>) -> Seq<char> {
    "Instruction sources loaded: total="@ + dec(docs.len()) + " (global="@ + dec(count_kind(docs, InstructionSourceKind::Global))
        + ", project="@ + dec(count_kind(docs, InstructionSourceKind::ProjectInstruction)) + ", config="@
        + dec(count_kind(docs, InstructionSourceKind::ProjectConfig)) + ", plan="@ + dec(
        count_kind(docs, InstructionSourceKind::ProjectPlan),
    ) + ")"@
}

impl InstructionLoadReport {
    /// Whether the workspace follows `.gitignore`: yes unless the project's configuration
    /// says no.
    pub fn workspace_respect_gitignore(&self) -> (r: bool)
        ensures
            r == match self.project_config {
                Some(c) => c.workspace.respect_gitignore,
                None => true,
            },
    {
        match &self.project_config {
            Some(c) => c.workspace.respect_gitignore,
            None => true,
        }
    }

    /// How many sources of each kind were loaded.
    pub fn summary_message(&self) -> (r: String)
        ensures
            r@ == summary_message_spec(self.docs@),
    {
        let mut global: usize = 0;
        let mut project: usize = 0;
        let mut config: usize = 0;
        let mut plan: usize = 0;
        let mut i: usize = 0;
        while i < self.docs.len()
            invariant
                i <= self.docs.len(),
                global == count_kind(self.docs@.take(i as int), InstructionSourceKind::Global),
                project == count_kind(self.docs@.take(i as int), InstructionSourceKind::ProjectInstruction),
                config == count_kind(self.docs@.take(i as int), InstructionSourceKind::ProjectConfig),
                plan == count_kind(self.docs@.take(i as int), InstructionSourceKind::ProjectPlan),
            decreases self.docs.len() - i,
        {
            proof {
                let t = self.docs@.take(i + 1);
                assert(t.drop_last() =~= self.docs@.take(i as int));
                lemma_count_kind_bound(self.docs@.take(i as int), InstructionSourceKind::Global);
                lemma_count_kind_bound(self.docs@.take(i as int), InstructionSourceKind::ProjectInstruction);
                lemma_count_kind_bound(self.docs@.take(i as int), InstructionSourceKind::ProjectConfig);
                lemma_count_kind_bound(self.docs@.take(i as int), InstructionSourceKind::ProjectPlan);
            }
            match self.docs[i].kind {
                InstructionSourceKind::Global => global = global + 1,
                InstructionSourceKind::ProjectInstruction => project = project + 1,
                InstructionSourceKind::ProjectConfig => config = config + 1,
                InstructionSourceKind::ProjectPlan => plan = plan + 1,
            }
            i = i + 1;
        }
        assert(self.docs@.take(self.docs.len() as int) =~= self.docs@);
        let mut m = cat("Instruction sources loaded: total=", usize_to_string(self.docs.len()).as_str());
        push_str(&mut m, " (global=");
        push_str(&mut m, usize_to_string(global).as_str());
        push_str(&mut m, ", project=");
        push_str(&mut m, usize_to_string(project).as_str());
        push_str(&mut m, ", config=");
        push_str(&mut m, usize_to_string(config).as_str());
        push_str(&mut m, ", plan=");
        push_str(&mut m, usize_to_string(plan).as_str());
        push_str(&mut m, ")");
        m
    }
}

/// Whether some earlier event already reported the instruction sources.
pub open spec fn reports_instructions(content: Seq<char>) -> bool {
    "Loaded instruction source"@.is_prefix_of(content) || "Instruction sources loaded:"@.is_prefix_of(content)
}

/// Whether a history already told the user about its instruction sources: some system event
/// reports a loaded source or the count of them.
pub fn instruction_sources_already_loaded(events: &[crate::event::Event]) -> (r: bool)
    ensures
        r == exists|i: int|
            0 <= i < events@.len() && (#[trigger] events@[i]).msg is SystemMessage && reports_instructions(
                events@[i].msg.content_spec(),
            ),
{
    let mut i: usize = 0;
    while i < events.len()
        invariant
            i <= events@.len(),
            forall|j: int|
                0 <= j < i ==> !((#[trigger] events@[j]).msg is SystemMessage && reports_instructions(
                    events@[j].msg.content_spec(),
                )),
        decreases events.len() - i,
    {
        if let crate::event::EventMsg::SystemMessage(m) = &events[i].msg {
            let c = m.content.as_str();
            if crate::text::starts_with(c, "Loaded instruction source") || crate::text::starts_with(
                c,
                "Instruction sources loaded:",
            ) {
                assert(events@[i as int].msg.content_spec() == c@);
                return true;
            }
        }
        i = i + 1;
    }
    false
}

/// The places instructions are read from, in the order they are read: the global directory,
/// when there is one; each directory of the chain (the file system's root first, the project
/// last); then the project's configuration and its plan, both in the project's root.
pub open spec fn search_order(home: Option<Seq<char>>, chain: Seq<Seq<char>>, root: Seq<char>) -> Seq<
    (Seq<char>, InstructionSourceKind),
> {
    let global: Seq<(Seq<char>, InstructionSourceKind)> = match home {
        Some(h) => seq![(h, InstructionSourceKind::Global)],
        None => Seq::empty(),
    };
    global + chain.map_values(|d: Seq<char>| (d, InstructionSourceKind::ProjectInstruction)) + seq![
        (root, InstructionSourceKind::ProjectConfig),
        (root, InstructionSourceKind::ProjectPlan),
    ]
}

pub open spec fn place_views(v: Seq<(String, InstructionSourceKind)>) -> Seq<(Seq<char>, InstructionSourceKind)> {
    v.map_values(|p: (String, InstructionSourceKind)| (p.0@, p.1))
}

/// The places instructions are read from, in order (see `search_order`).
pub fn instruction_search_order(home: Option<String>, chain: Vec<String>, root: &str) -> (r: Vec<(String, InstructionSourceKind)>)
    ensures
        place_views(r@) == search_order(
            match home {
                Some(h) => Some(h@),
                None => None,
            },
            views(chain@),
            root@,
        ),
{
    let mut out: Vec<(String, InstructionSourceKind)> = Vec::new();
    let ghost g: Seq<(Seq<char>, InstructionSourceKind)> = if home is Some {
        seq![(home->0@, InstructionSourceKind::Global)]
    } else {
        Seq::empty()
    };
    match home {
        Some(h) => out.push((h, InstructionSourceKind::Global)),
        None => {},
    }
    assert(place_views(out@) =~= g);
    let mut i: usize = 0;
    while i < chain.len()
        invariant
            i <= chain@.len(),
            place_views(out@) == g + views(chain@).take(i as int).map_values(
                |d: Seq<char>| (d, InstructionSourceKind::ProjectInstruction),
            ),
        decreases chain@.len() - i,
    {
        let ghost before = place_views(out@);
        let d = chain[i].clone();
        out.push((d, InstructionSourceKind::ProjectInstruction));
        assert(place_views(out@) =~= before.push((chain@[i as int]@, InstructionSourceKind::ProjectInstruction)));
        assert(views(chain@).take(i + 1) =~= views(chain@).take(i as int).push(chain@[i as int]@));
        i = i + 1;
        assert(place_views(out@) =~= g + views(chain@).take(i as int).map_values(
            |d: Seq<char>| (d, InstructionSourceKind::ProjectInstruction),
        ));
    }
    assert(views(chain@).take(i as int) =~= views(chain@));
    out.push((to_owned_str(root), InstructionSourceKind::ProjectConfig));
    out.push((to_owned_str(root), InstructionSourceKind::ProjectPlan));
    assert(place_views(out@) =~= search_order(
        match home {
            Some(h) => Some(h@),
            None => None,
        },
        views(chain@),
        root@,
    ));
    out
}

} // verus!
