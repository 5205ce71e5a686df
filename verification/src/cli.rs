//! The command line: the project directory, and the command the other arguments name.
use vstd::prelude::*;
use crate::text::{parse_usize, parses_as_usize, str_eq, to_owned_str, views};

verus! {

#[derive(Debug, Clone, PartialEq, Eq)]
pub struct CliArgs {
    pub project_root: String,
    pub args: Vec<String>,
}

/// The project directory (`.` unless `--project <path>` names one, the last one winning) and the
/// arguments that remain, in order. A trailing `--project` without a path stays an argument.
pub open spec fn cli_split(args: Seq<Seq<char>>, i: nat, root: Seq<char>, rest: Seq<Seq<char>>) -> (
    Seq<char>,
    Seq<Seq<char>>,
)
    decreases args.len() - i,
{
    if i >= args.len() {
        (root, rest)
    } else if args[i as int] == "--project"@ && i + 1 < args.len() {
        cli_split(args, i + 2, args[i + 1int], rest)
    } else {
        cli_split(args, i + 1, root, rest.push(args[i as int]))
    }
}

impl CliArgs {
    pub fn parse(args: Vec<String>) -> (r: Self)
        ensures
            (r.project_root@, views(r.args@)) == cli_split(views(args@), 0, "."@, Seq::empty()),
    {
        let mut project_root = to_owned_str(".");
        let mut remaining: Vec<String> = Vec::new();
        let mut index: usize = 0;
        let ghost a = views(args@);
        assert(views(remaining@) =~= Seq::<Seq<char>>::empty());
        while index < args.len()
            invariant
                a == views(args@),
                index <= args@.len() + 1,
                cli_split(a, index as nat, project_root@, views(remaining@)) == cli_split(
                    a,
                    0,
                    "."@,
                    Seq::empty(),
                ),
            decreases args.len() + 1 - index,
        {
            if str_eq(args[index].as_str(), "--project") && index + 1 < args.len() {
                project_root = args[index + 1].clone();
                index = index + 2;
            } else {
                let ghost old_rest = views(remaining@);
                remaining.push(args[index].clone());
                assert(views(remaining@) =~= old_rest.push(a[index as int]));
                index = index + 1;
            }
        }
        CliArgs { project_root, args: remaining }
    }
}

/// What the program is asked to do.
#[derive(Debug, Clone, PartialEq, Eq)]
pub enum CliCommand {
    /// Continue the latest session, or start one.
    Default,
    New,
    ListSessions,
    ListCapabilities,
    Capability(String),
    CapabilityEnable(String),
    CapabilityDisable(String),
    Skill(String),
    Replay(String),
    /// Pick a session to resume.
    ResumePicker,
    Resume(String),
    /// Pick a session from the tree.
    TreePicker,
    Fork(String),
    Export(String),
    Share(String),
    ToolList,
    ToolLs(String),
    ToolRead(String, usize, usize),
    ToolFindFiles(String, String, usize),
    ToolSearchText(String, String, usize, bool),
    ToolProposeEdit(String, String, String),
    ToolApplyPatch(String, String, String),
    ToolEditBatch(String, String),
    ToolRewindEdit(String),
    ToolRunCommand(String),
    Usage,
}

/// The mathematical value of a command.
pub ghost enum CliView {
    Default,
    New,
    ListSessions,
    ListCapabilities,
    Capability(Seq<char>),
    CapabilityEnable(Seq<char>),
    CapabilityDisable(Seq<char>),
    Skill(Seq<char>),
    Replay(Seq<char>),
    ResumePicker,
    Resume(Seq<char>),
    TreePicker,
    Fork(Seq<char>),
    Export(Seq<char>),
    Share(Seq<char>),
    ToolList,
    ToolLs(Seq<char>),
    ToolRead(Seq<char>, usize, usize),
    ToolFindFiles(Seq<char>, Seq<char>, usize),
    ToolSearchText(Seq<char>, Seq<char>, usize, bool),
    ToolProposeEdit(Seq<char>, Seq<char>, Seq<char>),
    ToolApplyPatch(Seq<char>, Seq<char>, Seq<char>),
    ToolEditBatch(Seq<char>, Seq<char>),
    ToolRewindEdit(Seq<char>),
    ToolRunCommand(Seq<char>),
    Usage,
}

impl CliCommand {
    pub open spec fn view_cli(self) -> CliView {
        match self {
            CliCommand::Default => CliView::Default,
            CliCommand::New => CliView::New,
            CliCommand::ListSessions => CliView::ListSessions,
            CliCommand::ListCapabilities => CliView::ListCapabilities,
            CliCommand::Capability(q) => CliView::Capability(q@),
            CliCommand::CapabilityEnable(q) => CliView::CapabilityEnable(q@),
            CliCommand::CapabilityDisable(q) => CliView::CapabilityDisable(q@),
            CliCommand::Skill(q) => CliView::Skill(q@),
            CliCommand::Replay(id) => CliView::Replay(id@),
            CliCommand::ResumePicker => CliView::ResumePicker,
            CliCommand::Resume(id) => CliView::Resume(id@),
            CliCommand::TreePicker => CliView::TreePicker,
            CliCommand::Fork(id) => CliView::Fork(id@),
            CliCommand::Export(id) => CliView::Export(id@),
            CliCommand::Share(id) => CliView::Share(id@),
            CliCommand::ToolList => CliView::ToolList,
            CliCommand::ToolLs(p) => CliView::ToolLs(p@),
            CliCommand::ToolRead(p, o, l) => CliView::ToolRead(p@, o, l),
            CliCommand::ToolFindFiles(q, p, l) => CliView::ToolFindFiles(q@, p@, l),
            CliCommand::ToolSearchText(q, p, l, i) => CliView::ToolSearchText(q@, p@, l, i),
            CliCommand::ToolProposeEdit(p, f, r) => CliView::ToolProposeEdit(p@, f@, r@),
            CliCommand::ToolApplyPatch(p, f, r) => CliView::ToolApplyPatch(p@, f@, r@),
            CliCommand::ToolEditBatch(n, e) => CliView::ToolEditBatch(n@, e@),
            CliCommand::ToolRewindEdit(p) => CliView::ToolRewindEdit(p@),
            CliCommand::ToolRunCommand(c) => CliView::ToolRunCommand(c@),
            CliCommand::Usage => CliView::Usage,
        }
    }
}

/// A number argument, or `default` when it is not a `usize`.
pub open spec fn number_or(s: Seq<char>, default: usize) -> usize {
    if exists|n: int| parses_as_usize(s, n) {
        (choose|n: int| parses_as_usize(s, n)) as usize
    } else {
        default
    }
}

/// The command that the arguments (after the project directory) name; anything else asks for
/// the usage text.
pub open spec fn command_spec(a: Seq<Seq<char>>) -> CliView {
    let n = a.len();
    if n == 0 {
        CliView::Default
    } else if n == 1 {
        let f = a[0];
        if f == "--continue"@ || f == "-c"@ {
            CliView::Default
        } else if f == "--new"@ {
            CliView::New
        } else if f == "--list-sessions"@ {
            CliView::ListSessions
        } else if f == "--list-capabilities"@ {
            CliView::ListCapabilities
        } else if f == "--resume"@ {
            CliView::ResumePicker
        } else if f == "--tree"@ {
            CliView::TreePicker
        } else {
            CliView::Usage
        }
    } else if n == 2 {
        let f = a[0];
        let x = a[1];
        if f == "--capability"@ {
            CliView::Capability(x)
        } else if f == "--cap-enable"@ {
            CliView::CapabilityEnable(x)
        } else if f == "--cap-disable"@ {
            CliView::CapabilityDisable(x)
        } else if f == "--skill"@ {
            CliView::Skill(x)
        } else if f == "--replay"@ {
            CliView::Replay(x)
        } else if f == "--resume"@ || f == "--session"@ {
            CliView::Resume(x)
        } else if f == "--fork"@ {
            CliView::Fork(x)
        } else if f == "--export"@ {
            CliView::Export(x)
        } else if f == "--share"@ {
            CliView::Share(x)
        } else if f == "--tool"@ && x == "list"@ {
            CliView::ToolList
        } else if f == "--tool"@ && x == "ls"@ {
            CliView::ToolLs("."@)
        } else {
            CliView::Usage
        }
    } else if a[0] != "--tool"@ {
        CliView::Usage
    } else {
        let name = a[1];
        let is_find = name == "find_files"@ || name == "find"@;
        let is_search = name == "search_text"@ || name == "grep"@;
        if n == 3 {
            if name == "ls"@ {
                CliView::ToolLs(a[2])
            } else if name == "read"@ {
                CliView::ToolRead(a[2], 0, 200)
            } else if is_find {
                CliView::ToolFindFiles(a[2], "."@, 100)
            } else if is_search {
                CliView::ToolSearchText(a[2], "."@, 100, false)
            } else if name == "propose_edit_batch"@ || name == "apply_patch_batch"@ {
                CliView::ToolEditBatch(name, a[2])
            } else if name == "rewind_edit"@ || name == "rollback_edit"@ {
                CliView::ToolRewindEdit(a[2])
            } else if name == "run_command"@ {
                CliView::ToolRunCommand(a[2])
            } else {
                CliView::Usage
            }
        } else if n == 4 {
            if is_find {
                CliView::ToolFindFiles(a[2], a[3], 100)
            } else if is_search {
                CliView::ToolSearchText(a[2], a[3], 100, false)
            } else {
                CliView::Usage
            }
        } else if n == 5 {
            if name == "read"@ {
                CliView::ToolRead(a[2], number_or(a[3], 0), number_or(a[4], 200))
            } else if is_find {
                CliView::ToolFindFiles(a[2], a[3], number_or(a[4], 100))
            } else if is_search {
                CliView::ToolSearchText(a[2], a[3], number_or(a[4], 100), false)
            } else if name == "propose_edit"@ {
                CliView::ToolProposeEdit(a[2], a[3], a[4])
            } else if name == "apply_patch"@ {
                CliView::ToolApplyPatch(a[2], a[3], a[4])
            } else {
                CliView::Usage
            }
        } else if n == 6 && is_search {
            CliView::ToolSearchText(a[2], a[3], number_or(a[4], 100), a[5] == "true"@)
        } else {
            CliView::Usage
        }
    }
}

proof fn lemma_parse_unique(s: Seq<char>, a: int, b: int)
    requires
        parses_as_usize(s, a),
        parses_as_usize(s, b),
    ensures
        a == b,
{
}

fn number_arg(s: &str, default: usize) -> (r: usize)
    ensures
        r == number_or(s@, default),
{
    match parse_usize(s) {
        Some(n) => {
            proof {
                let m = choose|m: int| parses_as_usize(s@, m);
                lemma_parse_unique(s@, m, n as int);
            }
            n
        },
        None => default,
    }
}

fn owned(s: &String) -> (r: String)
    ensures
        r@ == s@,
{
    s.clone()
}

/// The command that the arguments name.
pub fn cli_command(args: &Vec<String>) -> (r: CliCommand)
    ensures
        r.view_cli() == command_spec(views(args@)),
{
    let n = args.len();
    let ghost a = views(args@);
    if n == 0 {
        return CliCommand::Default;
    }
    assert(a[0] == args@[0]@);
    let f = args[0].as_str();
    if n == 1 {
        return if str_eq(f, "--continue") || str_eq(f, "-c") {
            CliCommand::Default
        } else if str_eq(f, "--new") {
            CliCommand::New
        } else if str_eq(f, "--list-sessions") {
            CliCommand::ListSessions
        } else if str_eq(f, "--list-capabilities") {
            CliCommand::ListCapabilities
        } else if str_eq(f, "--resume") {
            CliCommand::ResumePicker
        } else if str_eq(f, "--tree") {
            CliCommand::TreePicker
        } else {
            CliCommand::Usage
        };
    }
    assert(a[1] == args@[1]@);
    let x = &args[1];
    if n == 2 {
        return if str_eq(f, "--capability") {
            CliCommand::Capability(owned(x))
        } else if str_eq(f, "--cap-enable") {
            CliCommand::CapabilityEnable(owned(x))
        } else if str_eq(f, "--cap-disable") {
            CliCommand::CapabilityDisable(owned(x))
        } else if str_eq(f, "--skill") {
            CliCommand::Skill(owned(x))
        } else if str_eq(f, "--replay") {
            CliCommand::Replay(owned(x))
        } else if str_eq(f, "--resume") || str_eq(f, "--session") {
            CliCommand::Resume(owned(x))
        } else if str_eq(f, "--fork") {
            CliCommand::Fork(owned(x))
        } else if str_eq(f, "--export") {
            CliCommand::Export(owned(x))
        } else if str_eq(f, "--share") {
            CliCommand::Share(owned(x))
        } else if str_eq(f, "--tool") && str_eq(x.as_str(), "list") {
            CliCommand::ToolList
        } else if str_eq(f, "--tool") && str_eq(x.as_str(), "ls") {
            CliCommand::ToolLs(to_owned_str("."))
        } else {
            CliCommand::Usage
        };
    }
    if !str_eq(f, "--tool") {
        return CliCommand::Usage;
    }
    let name = x.as_str();
    assert(a[2] == args@[2]@);
    let is_find = str_eq(name, "find_files") || str_eq(name, "find");
    let is_search = str_eq(name, "search_text") || str_eq(name, "grep");
    let p = &args[2];
    if n == 3 {
        return if str_eq(name, "ls") {
            CliCommand::ToolLs(owned(p))
        } else if str_eq(name, "read") {
            CliCommand::ToolRead(owned(p), 0, 200)
        } else if is_find {
            CliCommand::ToolFindFiles(owned(p), to_owned_str("."), 100)
        } else if is_search {
            CliCommand::ToolSearchText(owned(p), to_owned_str("."), 100, false)
        } else if str_eq(name, "propose_edit_batch") || str_eq(name, "apply_patch_batch") {
            CliCommand::ToolEditBatch(owned(x), owned(p))
        } else if str_eq(name, "rewind_edit") || str_eq(name, "rollback_edit") {
            CliCommand::ToolRewindEdit(owned(p))
        } else if str_eq(name, "run_command") {
            CliCommand::ToolRunCommand(owned(p))
        } else {
            CliCommand::Usage
        };
    }
    assert(a[3] == args@[3]@);
    let q = &args[3];
    if n == 4 {
        return if is_find {
            CliCommand::ToolFindFiles(owned(p), owned(q), 100)
        } else if is_search {
            CliCommand::ToolSearchText(owned(p), owned(q), 100, false)
        } else {
            CliCommand::Usage
        };
    }
    assert(a[4] == args@[4]@);
    let l = args[4].as_str();
    if n == 5 {
        return if str_eq(name, "read") {
            CliCommand::ToolRead(owned(p), number_arg(q.as_str(), 0), number_arg(l, 200))
        } else if is_find {
            CliCommand::ToolFindFiles(owned(p), owned(q), number_arg(l, 100))
        } else if is_search {
            CliCommand::ToolSearchText(owned(p), owned(q), number_arg(l, 100), false)
        } else if str_eq(name, "propose_edit") {
            CliCommand::ToolProposeEdit(owned(p), owned(q), owned(&args[4]))
        } else if str_eq(name, "apply_patch") {
            CliCommand::ToolApplyPatch(owned(p), owned(q), owned(&args[4]))
        } else {
            CliCommand::Usage
        };
    }
    if n == 6 && is_search {
        assert(a[5] == args@[5]@);
        return CliCommand::ToolSearchText(
            owned(p),
            owned(q),
            number_arg(l, 100),
            str_eq(args[5].as_str(), "true"),
        );
    }
    CliCommand::Usage
}

} // verus!
