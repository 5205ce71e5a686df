//! Workspace data: directory entries, search results, edit previews and checkpoints,
//! together with the text logic of edits, diffs, content hashes and ignore rules.
use vstd::prelude::*;
use vstd::string::StringSliceAdditionalSpecFns;
use crate::config::{index_range, index_vec};
use crate::order::{keep, keep_indices, lex_lt, sort_by, sort_indices, str_lt};
use crate::text::{
    cat, cat3, chars_of, line_scan, contains, contains_seq, dec, ends_with, is_suffix_seq, join, join_seq, lines,
    lines_seq, push_str, starts_with, str_eq, string_of, subrange_string, to_lowercase, to_owned_str,
    trim, trim_seq, u128_to_string, unicode_lowercase, usize_to_string, views,
};

verus! {

/// A reversible record of one file edit.
#[derive(Debug, Clone, PartialEq, Eq)]
pub struct EditCheckpoint {
    pub path: String,
    pub checkpoint_id: String,
    pub base_hash: String,
    pub result_hash: String,
    pub before_content: String,
    pub after_content: String,
    pub diff: String,
}

#[derive(Debug, Clone, PartialEq, Eq)]
pub struct EditApplyResult {
    pub checkpoint: EditCheckpoint,
}

#[derive(Debug, Clone, PartialEq, Eq)]
pub struct EditRewindResult {
    pub rewound_checkpoint_id: String,
    pub checkpoint: EditCheckpoint,
}

#[derive(Debug, Clone, PartialEq, Eq)]
pub struct WorkspaceEntry {
    pub path: String,
    pub name: String,
    pub is_dir: bool,
}

impl WorkspaceEntry {
    pub open spec fn display_spec(self) -> Seq<char> {
        if self.is_dir {
            self.name@ + "/"@
        } else {
            self.name@
        }
    }

    /// The name, with a slash after a directory's.
    pub fn display_name(&self) -> (r: String)
        ensures
            r@ == self.display_spec(),
    {
        if self.is_dir {
            cat(self.name.as_str(), "/")
        } else {
            self.name.clone()
        }
    }
}

#[derive(Debug, Clone, PartialEq, Eq)]
pub struct ListResult {
    pub path: String,
    pub entries: Vec<WorkspaceEntry>,
    pub truncated: bool,
    pub entry_limit: usize,
}

#[derive(Debug, Clone, PartialEq, Eq)]
pub struct ReadResult {
    pub path: String,
    pub content: String,
    pub truncated: bool,
    pub next_offset: Option<usize>,
}

#[derive(Debug, Clone, PartialEq, Eq)]
pub struct FindResult {
    pub path: String,
    pub matches: Vec<WorkspaceEntry>,
    pub truncated: bool,
    pub match_limit: usize,
}

#[derive(Debug, Clone, PartialEq, Eq)]
pub struct GrepMatch {
    pub path: String,
    pub line_number: usize,
    pub line: String,
}

#[derive(Debug, Clone, PartialEq, Eq)]
pub struct GrepResult {
    pub path: String,
    pub matches: Vec<GrepMatch>,
    pub truncated: bool,
    pub match_limit: usize,
}

#[derive(Debug, Clone, PartialEq, Eq)]
pub struct EditPreviewResult {
    pub path: String,
    pub base_hash: String,
    pub diff: String,
}

#[derive(Debug, Clone, PartialEq, Eq)]
pub struct EditRequest {
    pub path: String,
    pub find: String,
    pub replace: String,
    pub expected_hash: Option<String>,
}

#[derive(Debug, Clone, PartialEq, Eq)]
pub struct EditBatchPreviewResult {
    pub previews: Vec<EditPreviewResult>,
}

#[derive(Debug, Clone, PartialEq, Eq)]
pub struct EditBatchApplyResult {
    pub edits: Vec<EditCheckpoint>,
}

#[derive(Debug, Clone, Copy, PartialEq, Eq)]
pub struct WorkspaceOptions {
    pub respect_gitignore: bool,
}

impl Default for WorkspaceOptions {
    fn default() -> (r: Self)
        ensures
            r.respect_gitignore,
    {
        WorkspaceOptions { respect_gitignore: true }
    }
}

/// `value`, or `default` for 0.
pub fn nonzero_or_default(value: usize, default: usize) -> (r: usize)
    ensures
        r == if value == 0 {
            default
        } else {
            value
        },
{
    if value == 0 {
        default
    } else {
        value
    }
}

// ---------------------------------------------------------------------------
// Content hashes

pub open spec fn fnv_offset() -> u64 {
    0xcbf29ce484222325u64
}

pub open spec fn fnv_prime() -> u64 {
    0x100000001b3u64
}

/// The 64-bit FNV-1a hash of some bytes.
pub open spec fn fnv1a(bytes: Seq<u8>) -> u64
    decreases bytes.len(),
{
    if bytes.len() == 0 {
        fnv_offset()
    } else {
        let h = fnv1a(bytes.drop_last()) ^ (bytes.last() as u64);
        ((h as nat * fnv_prime() as nat) % 0x1_0000_0000_0000_0000nat) as u64
    }
}

/// The sixteen lower-case hexadecimal digits of a `u64`, most significant first.
pub open spec fn hex16(h: u64) -> Seq<char> {
    Seq::new(16, |i: int| crate::ai::hex_digit(((h as nat) / pow16((15 - i) as nat)) % 16))
}

pub open spec fn pow16(k: nat) -> nat
    decreases k,
{
    if k == 0 {
        1
    } else {
        16 * pow16((k - 1) as nat)
    }
}

proof fn lemma_pow16_pos(k: nat)
    ensures
        pow16(k) >= 1,
    decreases k,
{
    if k > 0 {
        lemma_pow16_pos((k - 1) as nat);
    }
}

fn hex_char16(d: u64) -> (c: char)
    requires
        d < 16,
    ensures
        c == crate::ai::hex_digit(d as nat),
{
    if d < 10 {
        if d == 0 {
            '0'
        } else if d == 1 {
            '1'
        } else if d == 2 {
            '2'
        } else if d == 3 {
            '3'
        } else if d == 4 {
            '4'
        } else if d == 5 {
            '5'
        } else if d == 6 {
            '6'
        } else if d == 7 {
            '7'
        } else if d == 8 {
            '8'
        } else {
            '9'
        }
    } else if d == 10 {
        'a'
    } else if d == 11 {
        'b'
    } else if d == 12 {
        'c'
    } else if d == 13 {
        'd'
    } else if d == 14 {
        'e'
    } else {
        'f'
    }
}

/// The content hash of a text: FNV-1a over its UTF-8 bytes, in sixteen hexadecimal digits.
pub open spec fn hash_spec(content: Seq<char>) -> Seq<char> {
    hex16(fnv1a(vstd::utf8::encode_utf8(content)))
}

/// The content hash of a file, by which an edit checks that the file is as it was read.
pub fn content_hash(content: &str) -> (r: String)
    ensures
        r@ == hash_spec(content@),
{
    let bytes = content.as_bytes();
    let mut hash: u64 = 0xcbf29ce484222325;
    let mut i: usize = 0;
    while i < bytes.len()
        invariant
            i <= bytes@.len(),
            bytes@ == content.spec_bytes(),
            hash == fnv1a(bytes@.take(i as int)),
        decreases bytes.len() - i,
    {
        assert(bytes@.take(i + 1).drop_last() =~= bytes@.take(i as int));
        hash = hash ^ (bytes[i] as u64);
        hash = hash.wrapping_mul(0x100000001b3);
        i = i + 1;
    }
    assert(bytes@.take(bytes@.len() as int) =~= bytes@);
    let mut digits: Vec<char> = Vec::new();
    let mut k: usize = 0;
    let mut div: u64 = 0x1000_0000_0000_0000;
    assert(pow16(15) == 0x1000_0000_0000_0000) by {
        reveal_with_fuel(pow16, 16);
    }
    while k < 16
        invariant
            k <= 16,
            k < 16 ==> div as nat == pow16((15 - k) as nat),
            div > 0,
            digits@ =~= hex16(hash).take(k as int),
        decreases 16 - k,
    {
        let d = (hash / div) % 16;
        digits.push(hex_char16(d));
        proof {
            assert(hex16(hash)[k as int] == crate::ai::hex_digit(((hash as nat) / pow16((15 - k) as nat)) % 16));
        }
        k = k + 1;
        if k < 16 {
            proof {
                assert(pow16((16 - k) as nat) == 16 * pow16((15 - k) as nat));
                lemma_pow16_pos((15 - k) as nat);
            }
            div = div / 16;
        }
        assert(digits@ =~= hex16(hash).take(k as int));
    }
    assert(hex16(hash).take(16) =~= hex16(hash));
    string_of(digits.as_slice())
}


// ---------------------------------------------------------------------------
// Errors

/// Why a workspace request failed. An I/O failure carries the system's message.
#[derive(Debug, Clone, PartialEq, Eq)]
pub enum WorkspaceError {
    Io(String),
    PathEscapesRoot(String),
    NotFound(String),
    NotDirectory(String),
    NotFile(String),
    Ignored(String),
    NonUtf8(String),
    Binary(String),
    EditPatternEmpty,
    EditTargetNotFound(String),
    EditCheckpointMismatch { path: String, expected_hash: String, actual_hash: String },
    EditConflict { path: String, reason: String },
}

impl WorkspaceError {
    pub open spec fn message_spec(self) -> Seq<char> {
        match self {
            WorkspaceError::Io(e) => "workspace io failed: "@ + e@,
            WorkspaceError::PathEscapesRoot(p) => "path escapes workspace root: "@ + p@,
            WorkspaceError::NotFound(p) => "path not found: "@ + p@,
            WorkspaceError::NotDirectory(p) => "path is not a directory: "@ + p@,
            WorkspaceError::NotFile(p) => "path is not a file: "@ + p@,
            WorkspaceError::Ignored(p) => "path is ignored: "@ + p@,
            WorkspaceError::NonUtf8(p) => "file is not valid UTF-8: "@ + p@,
            WorkspaceError::Binary(p) => "file appears to be binary: "@ + p@,
            WorkspaceError::EditPatternEmpty => "edit preview pattern must not be empty"@,
            WorkspaceError::EditTargetNotFound(p) => "edit preview target not found in: "@ + p@,
            WorkspaceError::EditCheckpointMismatch { path, expected_hash, actual_hash } =>
                "edit checkpoint mismatch for "@ + path@ + ": expected "@ + expected_hash@
                    + ", found "@ + actual_hash@,
            WorkspaceError::EditConflict { path, reason } => "edit conflict for "@ + path@ + ": "@
                + reason@,
        }
    }

    /// The error's text, as it is shown to the user and the model.
    pub fn message(&self) -> (r: String)
        ensures
            r@ == self.message_spec(),
    {
        match self {
            WorkspaceError::Io(e) => cat("workspace io failed: ", e.as_str()),
            WorkspaceError::PathEscapesRoot(p) => cat("path escapes workspace root: ", p.as_str()),
            WorkspaceError::NotFound(p) => cat("path not found: ", p.as_str()),
            WorkspaceError::NotDirectory(p) => cat("path is not a directory: ", p.as_str()),
            WorkspaceError::NotFile(p) => cat("path is not a file: ", p.as_str()),
            WorkspaceError::Ignored(p) => cat("path is ignored: ", p.as_str()),
            WorkspaceError::NonUtf8(p) => cat("file is not valid UTF-8: ", p.as_str()),
            WorkspaceError::Binary(p) => cat("file appears to be binary: ", p.as_str()),
            WorkspaceError::EditPatternEmpty => to_owned_str("edit preview pattern must not be empty"),
            WorkspaceError::EditTargetNotFound(p) => cat("edit preview target not found in: ", p.as_str()),
            WorkspaceError::EditCheckpointMismatch { path, expected_hash, actual_hash } => {
                let mut r = cat("edit checkpoint mismatch for ", path.as_str());
                push_str(&mut r, ": expected ");
                push_str(&mut r, expected_hash.as_str());
                push_str(&mut r, ", found ");
                push_str(&mut r, actual_hash.as_str());
                r
            },
            WorkspaceError::EditConflict { path, reason } => cat3(
                "edit conflict for ",
                path.as_str(),
                ": ",
            ).concat(reason.as_str()),
        }
    }
}

// ---------------------------------------------------------------------------
// Paths

/// `s` without the leading run of `c`.
pub open spec fn strip_leading(s: Seq<char>, c: char) -> Seq<char>
    decreases s.len(),
{
    if s.len() > 0 && s[0] == c {
        strip_leading(s.drop_first(), c)
    } else {
        s
    }
}

/// `s` without its leading run of `./`.
pub open spec fn strip_leading_dot_slash(s: Seq<char>) -> Seq<char>
    decreases s.len(),
{
    if s.len() >= 2 && s[0] == '.' && s[1] == '/' {
        strip_leading_dot_slash(s.skip(2))
    } else {
        s
    }
}

/// A path as the user typed it, made plain: trimmed, without a leading `@` or `./`.
pub open spec fn clean_input_spec(s: Seq<char>) -> Seq<char> {
    strip_leading_dot_slash(strip_leading(trim_seq(s), '@'))
}

fn strip_leading_vec(v: &Vec<char>, c: char) -> (r: usize)
    ensures
        r <= v.len(),
        v@.skip(r as int) == strip_leading(v@, c),
{
    let mut i: usize = 0;
    assert(v@.skip(0) =~= v@);
    while i < v.len() && v[i] == c
        invariant
            i <= v.len(),
            strip_leading(v@.skip(i as int), c) == strip_leading(v@, c),
        decreases v.len() - i,
    {
        assert(v@.skip(i as int).drop_first() =~= v@.skip(i + 1));
        i = i + 1;
    }
    i
}

/// `str::trim_start_matches` with one character.
pub fn trim_start_char(s: &str, c: char) -> (r: String)
    ensures
        r@ == strip_leading(s@, c),
{
    let v = chars_of(s);
    let i = strip_leading_vec(&v, c);
    subrange_string(&v, i, v.len())
}

pub fn clean_input(input: &str) -> (r: String)
    ensures
        r@ == clean_input_spec(input@),
{
    let t = trim(input);
    let u = trim_start_char(t.as_str(), '@');
    let v = chars_of(u.as_str());
    let mut i: usize = 0;
    assert(v@.skip(0) =~= v@);
    while i < v.len() && i + 1 < v.len() && v[i] == '.' && v[i + 1] == '/'
        invariant
            i <= v.len(),
            strip_leading_dot_slash(v@.skip(i as int)) == strip_leading_dot_slash(v@),
        decreases v.len() - i,
    {
        assert(v@.skip(i as int).skip(2) =~= v@.skip(i + 2));
        i = i + 2;
    }
    proof {
        let w = v@.skip(i as int);
        if w.len() >= 2 {
            assert(w[0] == v@[i as int] && w[1] == v@[i + 1]);
        }
    }
    subrange_string(&v, i, v.len())
}

/// `..` stands in `s` as a whole segment between slashes.
pub open spec fn parent_segment_at(s: Seq<char>, i: int) -> bool {
    &&& 0 <= i && i + 2 <= s.len()
    &&& s[i] == '.' && s[i + 1] == '.'
    &&& (i == 0 || s[i - 1] == '/')
    &&& (i + 2 == s.len() || s[i + 2] == '/')
}

pub open spec fn has_parent_segment(s: Seq<char>) -> bool {
    exists|i: int| parent_segment_at(s, i)
}

/// Refuses a path with a `..` segment, which could lead out of the workspace.
pub fn reject_parent_segments(path: &str) -> (r: Result<(), WorkspaceError>)
    ensures
        r is Ok <==> !has_parent_segment(path@),
        r matches Err(e) ==> (e matches WorkspaceError::PathEscapesRoot(p) && p@ == path@),
{
    let v = chars_of(path);
    let mut i: usize = 0;
    while i < v.len() && i + 1 < v.len()
        invariant
            v@ == path@,
            forall|j: int| 0 <= j < i ==> !parent_segment_at(v@, j),
        decreases v.len() - i,
    {
        if v[i] == '.' && v[i + 1] == '.' && (i == 0 || v[i - 1] == '/') && (i + 2 == v.len() || v[i + 2] == '/') {
            assert(parent_segment_at(v@, i as int));
            let p = to_owned_str(path);
            return Err(WorkspaceError::PathEscapesRoot(p));
        }
        i = i + 1;
    }
    proof {
        assert forall|j: int| !parent_segment_at(v@, j) by {
            if 0 <= j && j >= i {
            }
        }
    }
    Ok(())
}


// ---------------------------------------------------------------------------
// Ignore rules

/// The pieces of `s` between slashes, as `str::split('/')` yields them.
pub open spec fn segments(s: Seq<char>) -> Seq<Seq<char>>
    decreases s.len(),
{
    if s.len() == 0 {
        seq![Seq::empty()]
    } else {
        let p = segments(s.drop_last());
        if s.last() == '/' {
            p.push(Seq::empty())
        } else {
            p.update(p.len() - 1, p.last().push(s.last()))
        }
    }
}

pub proof fn lemma_segments_len(s: Seq<char>)
    ensures
        segments(s).len() >= 1,
    decreases s.len(),
{
    if s.len() > 0 {
        lemma_segments_len(s.drop_last());
    }
}

/// The pieces of `s` between slashes.
pub fn split_slash(s: &str) -> (r: Vec<String>)
    ensures
        views(r@) == segments(s@),
        r@.len() >= 1,
{
    let v = chars_of(s);
    let mut done: Vec<String> = Vec::new();
    let mut cur: Vec<char> = Vec::new();
    let mut i: usize = 0;
    assert(v@.take(0) =~= Seq::<char>::empty());
    assert(views(done@).push(cur@) =~= segments(v@.take(0)));
    while i < v.len()
        invariant
            v@ == s@,
            i <= v.len(),
            views(done@).push(cur@) == segments(v@.take(i as int)),
        decreases v.len() - i,
    {
        let ghost t = v@.take(i + 1);
        assert(t.drop_last() =~= v@.take(i as int));
        proof {
            lemma_segments_len(v@.take(i as int));
        }
        if v[i] == '/' {
            let piece = string_of(&cur);
            done.push(piece);
            cur = Vec::new();
            assert(views(done@).push(cur@) =~= segments(t));
        } else {
            cur.push(v[i]);
            assert(views(done@).push(cur@) =~= segments(t));
        }
        i = i + 1;
    }
    assert(v@.take(v.len() as int) =~= v@);
    let last = string_of(&cur);
    done.push(last);
    assert(views(done@) =~= segments(s@));
    done
}

/// What a set of ignore rules holds: names ignored wherever they stand, path prefixes, and
/// file name endings.
pub ghost struct IgnoreView {
    pub exact: Seq<Seq<char>>,
    pub prefixes: Seq<Seq<char>>,
    pub suffixes: Seq<Seq<char>>,
}

/// The paths that a workspace leaves out of listings, searches and edits.
#[derive(Debug, Clone, Default)]
pub struct IgnoreRules {
    pub exact: Vec<String>,
    pub prefixes: Vec<String>,
    pub suffixes: Vec<String>,
}

impl View for IgnoreRules {
    type V = IgnoreView;

    open spec fn view(&self) -> IgnoreView {
        IgnoreView { exact: views(self.exact@), prefixes: views(self.prefixes@), suffixes: views(self.suffixes@) }
    }
}

/// The rules after one more rule: a rule that ends with `/` is a prefix, `*.ext` a file
/// ending, anything else a name; a leading `/` is dropped.
pub open spec fn add_rule_spec(v: IgnoreView, rule: Seq<char>) -> IgnoreView {
    let r = strip_leading(rule, '/');
    if r.len() > 0 && r.last() == '/' {
        IgnoreView { prefixes: v.prefixes.push(r), ..v }
    } else if "*."@.is_prefix_of(r) {
        IgnoreView { suffixes: v.suffixes.push("."@ + r.skip(2)), ..v }
    } else if v.exact.contains(r) {
        v
    } else {
        IgnoreView { exact: v.exact.push(r), ..v }
    }
}

/// A line of a `.gitignore` that makes a rule: not blank, not a comment, not a negation.
pub open spec fn is_rule_line(line: Seq<char>) -> bool {
    let t = trim_seq(line);
    t.len() > 0 && t[0] != '#' && t[0] != '!'
}

/// The rules after the lines of a `.gitignore`, in order.
pub open spec fn gitignore_spec(v: IgnoreView, lines: Seq<Seq<char>>) -> IgnoreView
    decreases lines.len(),
{
    if lines.len() == 0 {
        v
    } else {
        let w = gitignore_spec(v, lines.drop_last());
        if is_rule_line(lines.last()) {
            add_rule_spec(w, trim_seq(lines.last()))
        } else {
            w
        }
    }
}

/// `p` with a slash after it when it names a directory.
pub open spec fn dir_form(p: Seq<char>, is_dir: bool) -> Seq<char> {
    if is_dir {
        p + "/"@
    } else {
        p
    }
}

/// Whether the rules leave out the path, relative to the workspace root.
pub open spec fn ignores(v: IgnoreView, path: Seq<char>, is_dir: bool) -> bool {
    let p = strip_leading(path, '/');
    &&& p.len() > 0
    &&& {
        ||| v.exact.contains(p)
        ||| exists|k: int| 0 <= k < segments(p).len() && v.exact.contains(#[trigger] segments(p)[k])
        ||| exists|k: int| 0 <= k < v.prefixes.len() && (#[trigger] v.prefixes[k]).is_prefix_of(dir_form(p, is_dir))
        ||| exists|k: int| 0 <= k < v.suffixes.len() && is_suffix_seq(#[trigger] v.suffixes[k], p)
    }
}

/// The rules that every workspace has: version control data, build output and the
/// application's own directory.
pub open spec fn default_rules() -> IgnoreView {
    IgnoreView {
        exact: Seq::empty(),
        prefixes: seq![".git/"@, "target/"@, ".picocode/"@],
        suffixes: Seq::empty(),
    }
}

fn contains_string(v: &Vec<String>, s: &str) -> (r: bool)
    ensures
        r == views(v@).contains(s@),
{
    let mut i: usize = 0;
    while i < v.len()
        invariant
            i <= v.len(),
            forall|j: int| 0 <= j < i ==> v@[j]@ != s@,
        decreases v.len() - i,
    {
        if str_eq(v[i].as_str(), s) {
            assert(views(v@)[i as int] == s@);
            return true;
        }
        i = i + 1;
    }
    proof {
        if views(v@).contains(s@) {
            let j = choose|j: int| 0 <= j < views(v@).len() && views(v@)[j] == s@;
            assert(v@[j]@ == s@);
        }
    }
    false
}

impl IgnoreRules {
    /// The default rules alone.
    pub fn with_defaults() -> (r: Self)
        ensures
            r@ == default_rules(),
    {
        let mut prefixes: Vec<String> = Vec::new();
        prefixes.push(to_owned_str(".git/"));
        prefixes.push(to_owned_str("target/"));
        prefixes.push(to_owned_str(".picocode/"));
        let r = IgnoreRules { exact: Vec::new(), prefixes, suffixes: Vec::new() };
        assert(r@.prefixes =~= default_rules().prefixes);
        assert(r@.exact =~= default_rules().exact);
        assert(r@.suffixes =~= default_rules().suffixes);
        r
    }

    /// The rules of a workspace: the defaults, then those of its `.gitignore` when it has one
    /// and they are respected.
    pub fn load(respect_gitignore: bool, gitignore: Option<&str>) -> (r: Self)
        ensures
            r@ == (match gitignore {
                Some(text) if respect_gitignore => gitignore_spec(default_rules(), lines_seq(text@)),
                _ => default_rules(),
            }),
    {
        let mut rules = Self::with_defaults();
        if respect_gitignore {
            if let Some(text) = gitignore {
                rules.add_gitignore(text);
            }
        }
        rules
    }

    /// Adds the rules of a `.gitignore`'s text.
    pub fn add_gitignore(&mut self, text: &str)
        ensures
            final(self)@ == gitignore_spec(old(self)@, lines_seq(text@)),
    {
        let ls = lines(text);
        let ghost start = self@;
        let mut i: usize = 0;
        while i < ls.len()
            invariant
                i <= ls.len(),
                views(ls@) == lines_seq(text@),
                self@ == gitignore_spec(start, views(ls@).take(i as int)),
            decreases ls.len() - i,
        {
            assert(views(ls@).take(i + 1).drop_last() =~= views(ls@).take(i as int));
            assert(views(ls@).take(i + 1).last() == ls@[i as int]@);
            let t = trim(ls[i].as_str());
            let tv = chars_of(t.as_str());
            if tv.len() > 0 && tv[0] != '#' && tv[0] != '!' {
                self.add_rule(t.as_str());
            }
            i = i + 1;
        }
        assert(views(ls@).take(ls.len() as int) =~= views(ls@));
    }

    /// Adds one rule.
    pub fn add_rule(&mut self, rule: &str)
        ensures
            final(self)@ == add_rule_spec(old(self)@, rule@),
    {
        let r = trim_start_char(rule, '/');
        let rv = chars_of(r.as_str());
        if rv.len() > 0 && rv[rv.len() - 1] == '/' {
            self.prefixes.push(r);
            assert(self@.prefixes =~= old(self)@.prefixes.push(r@));
        } else if starts_with(r.as_str(), "*.") {
            proof {
                reveal_strlit("*.");
            }
            let rest = subrange_string(&rv, 2, rv.len());
            let suffix = cat(".", rest.as_str());
            self.suffixes.push(suffix);
            assert(self@.suffixes =~= old(self)@.suffixes.push("."@ + r@.skip(2)));
        } else if contains_string(&self.exact, r.as_str()) {
        } else {
            self.exact.push(r);
            assert(self@.exact =~= old(self)@.exact.push(r@));
        }
    }

    /// Whether the rules leave out `relative_path`.
    pub fn is_ignored(&self, relative_path: &str, is_dir: bool) -> (r: bool)
        ensures
            r == ignores(self@, relative_path@, is_dir),
    {
        let p = trim_start_char(relative_path, '/');
        if p.as_str().unicode_len() == 0 {
            return false;
        }
        if contains_string(&self.exact, p.as_str()) {
            return true;
        }
        let segs = split_slash(p.as_str());
        let mut k: usize = 0;
        while k < segs.len()
            invariant
                k <= segs.len(),
                p@ == strip_leading(relative_path@, '/'),
                p@.len() > 0,
                views(segs@) == segments(p@),
                forall|j: int| 0 <= j < k ==> !views(self.exact@).contains(#[trigger] segments(p@)[j]),
            decreases segs.len() - k,
        {
            if contains_string(&self.exact, segs[k].as_str()) {
                assert(segments(p@)[k as int] == segs@[k as int]@);
                return true;
            }
            assert(segments(p@)[k as int] == segs@[k as int]@);
            k = k + 1;
        }
        let dir_path = if is_dir {
            cat(p.as_str(), "/")
        } else {
            p.clone()
        };
        let mut k: usize = 0;
        while k < self.prefixes.len()
            invariant
                k <= self.prefixes.len(),
                p@ == strip_leading(relative_path@, '/'),
                p@.len() > 0,
                dir_path@ == dir_form(p@, is_dir),
                forall|j: int| 0 <= j < k ==> !(#[trigger] views(self.prefixes@)[j]).is_prefix_of(dir_form(p@, is_dir)),
            decreases self.prefixes.len() - k,
        {
            if starts_with(dir_path.as_str(), self.prefixes[k].as_str()) {
                assert(views(self.prefixes@)[k as int] == self.prefixes@[k as int]@);
                assert(self@.prefixes[k as int].is_prefix_of(dir_form(p@, is_dir)));
                assert(0 <= k < self@.prefixes.len());
                return true;
            }
            assert(views(self.prefixes@)[k as int] == self.prefixes@[k as int]@);
            k = k + 1;
        }
        let mut k: usize = 0;
        while k < self.suffixes.len()
            invariant
                k <= self.suffixes.len(),
                p@ == strip_leading(relative_path@, '/'),
                p@.len() > 0,
                forall|j: int| 0 <= j < k ==> !is_suffix_seq(#[trigger] views(self.suffixes@)[j], p@),
            decreases self.suffixes.len() - k,
        {
            if ends_with(p.as_str(), self.suffixes[k].as_str()) {
                assert(views(self.suffixes@)[k as int] == self.suffixes@[k as int]@);
                assert(is_suffix_seq(self@.suffixes[k as int], p@));
                assert(0 <= k < self@.suffixes.len());
                return true;
            }
            assert(views(self.suffixes@)[k as int] == self.suffixes@[k as int]@);
            k = k + 1;
        }
        false
    }
}


// ---------------------------------------------------------------------------
// Listing, reading and finding

pub const DEFAULT_ENTRY_LIMIT: usize = 200;
pub const DEFAULT_READ_LIMIT: usize = 4000;
pub const DEFAULT_FIND_LIMIT: usize = 100;
pub const DEFAULT_GREP_LIMIT: usize = 100;

impl EditCheckpoint {
    pub fn copy(&self) -> (r: Self)
        ensures
            r == *self,
    {
        EditCheckpoint {
            path: self.path.clone(),
            checkpoint_id: self.checkpoint_id.clone(),
            base_hash: self.base_hash.clone(),
            result_hash: self.result_hash.clone(),
            before_content: self.before_content.clone(),
            after_content: self.after_content.clone(),
            diff: self.diff.clone(),
        }
    }
}

impl WorkspaceEntry {
    pub fn copy(&self) -> (r: Self)
        ensures
            r == *self,
    {
        WorkspaceEntry { path: self.path.clone(), name: self.name.clone(), is_dir: self.is_dir }
    }
}

/// Whether the text holds a NUL character, the sign of a binary file.
pub fn has_nul(content: &str) -> (r: bool)
    ensures
        r == content@.contains('\0'),
{
    let v = chars_of(content);
    let mut i: usize = 0;
    while i < v.len()
        invariant
            v@ == content@,
            i <= v.len(),
            forall|j: int| 0 <= j < i ==> v@[j] != '\0',
        decreases v.len() - i,
    {
        if v[i] == '\0' {
            assert(content@[i as int] == '\0');
            return true;
        }
        i = i + 1;
    }
    false
}

pub open spec fn window_start(len: nat, offset: nat) -> nat {
    if offset < len {
        offset
    } else {
        len
    }
}

pub open spec fn window_end(len: nat, offset: nat, limit: nat) -> nat {
    let s = window_start(len, offset);
    if limit < len - s {
        s + limit
    } else {
        len
    }
}

pub open spec fn saturating_add(a: nat, b: nat) -> nat {
    if a + b <= usize::MAX {
        a + b
    } else {
        usize::MAX as nat
    }
}

/// What a read of `limit` characters from character `offset` gives: the characters, whether
/// more follow, and where the next read starts.
pub open spec fn read_spec(path: Seq<char>, content: Seq<char>, offset: nat, limit: nat, r: ReadResult) -> bool {
    let lim = if limit == 0 { DEFAULT_READ_LIMIT as nat } else { limit };
    let s = window_start(content.len(), offset);
    let e = window_end(content.len(), offset, lim);
    let next = saturating_add(offset, (e - s) as nat);
    &&& r.path@ == path
    &&& r.content@ == content.subrange(s as int, e as int)
    &&& r.truncated == (next < content.len())
    &&& r.next_offset == if next < content.len() { Some(next as usize) } else { None }
}

/// A read of a text file's content: refused for a binary file, else the characters from
/// `offset` on, at most `limit` of them (0 stands for the default).
pub fn read_result(path: String, content: &str, offset: usize, limit: usize) -> (r: Result<ReadResult, WorkspaceError>)
    ensures
        content@.contains('\0') ==> (r matches Err(WorkspaceError::Binary(p)) && p@ == path@),
        !content@.contains('\0') ==> (r matches Ok(res) && read_spec(path@, content@, offset as nat, limit as nat, res)),
{
    if has_nul(content) {
        return Err(WorkspaceError::Binary(path));
    }
    let lim = nonzero_or_default(limit, DEFAULT_READ_LIMIT);
    let v = chars_of(content);
    let len = v.len();
    let start = if offset < len {
        offset
    } else {
        len
    };
    let end = if lim < len - start {
        start + lim
    } else {
        len
    };
    let taken = subrange_string(&v, start, end);
    let count = end - start;
    let next = if offset <= usize::MAX - count {
        offset + count
    } else {
        usize::MAX
    };
    let truncated = next < len;
    let next_offset = if truncated {
        Some(next)
    } else {
        None
    };
    Ok(ReadResult { path, content: taken, truncated, next_offset })
}

/// Entries ordered by path.
pub open spec fn entry_before(d: Seq<WorkspaceEntry>) -> spec_fn(usize, usize) -> bool {
    |a: usize, b: usize| a < d.len() && b < d.len() && lex_lt(d[a as int].path@, d[b as int].path@)
}

/// The entries at the first `limit` of the indices `idx`.
pub open spec fn gather(d: Seq<WorkspaceEntry>, idx: Seq<usize>, limit: nat) -> Seq<WorkspaceEntry> {
    let n = if idx.len() < limit { idx.len() } else { limit };
    idx.take(n as int).map_values(|i: usize| d[i as int])
}

fn gather_exec(d: &Vec<WorkspaceEntry>, idx: &Vec<usize>, limit: usize) -> (r: Vec<WorkspaceEntry>)
    requires
        forall|j: int| 0 <= j < idx@.len() ==> idx@[j] < d@.len(),
    ensures
        r@ == gather(d@, idx@, limit as nat),
{
    let n = if idx.len() < limit {
        idx.len()
    } else {
        limit
    };
    let mut out: Vec<WorkspaceEntry> = Vec::new();
    let mut k: usize = 0;
    while k < n
        invariant
            n <= idx@.len(),
            k <= n,
            forall|j: int| 0 <= j < idx@.len() ==> idx@[j] < d@.len(),
            out@ == idx@.take(k as int).map_values(|i: usize| d@[i as int]),
        decreases n - k,
    {
        out.push(d[idx[k]].copy());
        k = k + 1;
        assert(out@ =~= idx@.take(k as int).map_values(|i: usize| d@[i as int]));
    }
    out
}

proof fn lemma_sorted_in_range(s: Seq<usize>, n: nat, before: spec_fn(usize, usize) -> bool)
    requires
        forall|j: int| 0 <= j < s.len() ==> s[j] < n,
    ensures
        forall|j: int| 0 <= j < sort_by(s, before).len() ==> sort_by(s, before)[j] < n,
{
    assert forall|j: int| 0 <= j < sort_by(s, before).len() implies sort_by(s, before)[j] < n by {
        let x = sort_by(s, before)[j];
        crate::order::lemma_sort_by_contains(s, before, x);
        assert(sort_by(s, before).contains(x));
    }
}

/// A directory listing: the entries ordered by path, at most `limit` of them (0 stands for the
/// default), and whether some were left out.
pub fn list_result(path: String, entries: Vec<WorkspaceEntry>, limit: usize) -> (r: ListResult)
    ensures
        r.path == path,
        r.entry_limit == nonzero_or_default_spec(limit, DEFAULT_ENTRY_LIMIT),
        r.truncated == (entries@.len() > r.entry_limit),
        r.entries@ == gather(entries@, sort_by(index_range(entries@.len()), entry_before(entries@)), r.entry_limit as nat),
{
    let lim = nonzero_or_default(limit, DEFAULT_ENTRY_LIMIT);
    let d = &entries;
    let before = |a: usize, b: usize| -> (r: bool)
        ensures
            r == (a < d@.len() && b < d@.len() && lex_lt(d@[a as int].path@, d@[b as int].path@)),
        { a < d.len() && b < d.len() && str_lt(d[a].path.as_str(), d[b].path.as_str()) };
    let idx = sort_indices(index_vec(d.len()), &before, Ghost(entry_before(d@)));
    proof {
        lemma_sorted_in_range(index_range(d@.len()), d@.len(), entry_before(d@));
    }
    let out = gather_exec(d, &idx, lim);
    let truncated = entries.len() > lim;
    ListResult { path, entries: out, truncated, entry_limit: lim }
}

pub open spec fn nonzero_or_default_spec(value: usize, default: usize) -> usize {
    if value == 0 {
        default
    } else {
        value
    }
}

/// The last piece of a path after its last slash.
pub open spec fn basename(p: Seq<char>) -> Seq<char> {
    segments(p).last()
}

/// How well a path answers a search, lower being better: its base name is the query, holds
/// it, or the whole path holds it; a directory ranks one lower than a file.
pub open spec fn find_score_spec(relative_path: Seq<char>, is_dir: bool, query: Seq<char>) -> nat {
    let normalized = unicode_lowercase(relative_path);
    let b = basename(normalized);
    let base: nat = if b == query {
        0
    } else if contains_seq(b, query) {
        1
    } else if contains_seq(normalized, query) {
        2
    } else {
        3
    };
    if is_dir {
        base + 1
    } else {
        base
    }
}

pub fn find_score(relative_path: &str, is_dir: bool, query: &str) -> (r: usize)
    ensures
        r == find_score_spec(relative_path@, is_dir, query@),
{
    let normalized = to_lowercase(relative_path);
    let segs = split_slash(normalized.as_str());
    let b = &segs[segs.len() - 1];
    assert(b@ == basename(normalized@));
    let mut score: usize = if str_eq(b.as_str(), query) {
        0
    } else if contains(b.as_str(), query) {
        1
    } else if contains(normalized.as_str(), query) {
        2
    } else {
        3
    };
    if is_dir {
        score = score + 1;
    }
    score
}

/// Whether a path answers a search (the query trimmed and in lower case).
pub open spec fn find_matches(relative_path: Seq<char>, query: Seq<char>) -> bool {
    query.len() == 0 || contains_seq(unicode_lowercase(relative_path), query)
}

pub open spec fn find_keep(d: Seq<WorkspaceEntry>, q: Seq<char>) -> spec_fn(usize) -> bool {
    |i: usize| i < d.len() && find_matches(d[i as int].path@, q)
}

/// Search hits ordered by score, then by path.
pub open spec fn find_before(d: Seq<WorkspaceEntry>, q: Seq<char>) -> spec_fn(usize, usize) -> bool {
    |a: usize, b: usize|
        a < d.len() && b < d.len() && {
            let sa = find_score_spec(d[a as int].path@, d[a as int].is_dir, q);
            let sb = find_score_spec(d[b as int].path@, d[b as int].is_dir, q);
            sa < sb || (sa == sb && lex_lt(d[a as int].path@, d[b as int].path@))
        }
}

/// The query of a search: trimmed and in lower case.
pub open spec fn find_query(query: Seq<char>) -> Seq<char> {
    unicode_lowercase(trim_seq(query))
}

/// The hits of a path search among the entries of a walk (in walk order, ignored paths
/// already left out): those whose path holds the query, best first, at most `limit` of them
/// (0 stands for the default).
pub fn find_result(path: String, candidates: Vec<WorkspaceEntry>, query: &str, limit: usize) -> (r: FindResult)
    ensures
        ({
            let q = find_query(query@);
            let hits = keep(index_range(candidates@.len()), find_keep(candidates@, q));
            let order = sort_by(hits, find_before(candidates@, q));
            &&& r.path == path
            &&& r.match_limit == nonzero_or_default_spec(limit, DEFAULT_FIND_LIMIT)
            &&& r.truncated == (hits.len() > r.match_limit)
            &&& r.matches@ == gather(candidates@, order, r.match_limit as nat)
        }),
{
    let lim = nonzero_or_default(limit, DEFAULT_FIND_LIMIT);
    let t = trim(query);
    let q = to_lowercase(t.as_str());
    let d = &candidates;
    let ghost qv = q@;
    let qr = &q;
    let keep_fn = |i: usize| -> (r: bool)
        ensures
            r == (i < d@.len() && find_matches(d@[i as int].path@, qr@)),
        {
            if i < d.len() {
                let qs = qr.as_str();
                if qs.unicode_len() == 0 {
                    true
                } else {
                    let lower = to_lowercase(d[i].path.as_str());
                    contains(lower.as_str(), qs)
                }
            } else {
                false
            }
        };
    let hits = keep_indices(&index_vec(d.len()), &keep_fn, Ghost(find_keep(d@, qv)));
    let mut scores: Vec<usize> = Vec::new();
    let mut i: usize = 0;
    while i < d.len()
        invariant
            i <= d@.len(),
            q@ == qv,
            scores@.len() == i,
            forall|j: int| 0 <= j < i ==> scores@[j] == find_score_spec(d@[j].path@, d@[j].is_dir, qv),
        decreases d.len() - i,
    {
        scores.push(find_score(d[i].path.as_str(), d[i].is_dir, q.as_str()));
        i = i + 1;
    }
    let sc = &scores;
    let before = |a: usize, b: usize| -> (r: bool)
        ensures
            r == find_before(d@, qr@)(a, b),
        {
            if a < d.len() && b < d.len() {
                let sa = sc[a];
                let sb = sc[b];
                sa < sb || (sa == sb && str_lt(d[a].path.as_str(), d[b].path.as_str()))
            } else {
                false
            }
        };
    proof {
        assert forall|j: int| 0 <= j < hits@.len() implies hits@[j] < d@.len() by {
            lemma_keep_in_range(index_range(d@.len()), find_keep(d@, qv), j);
        }
    }
    let order = sort_indices(hits.clone(), &before, Ghost(find_before(d@, qv)));
    proof {
        lemma_sorted_in_range(hits@, d@.len(), find_before(d@, qv));
    }
    let out = gather_exec(d, &order, lim);
    let truncated = hits.len() > lim;
    FindResult { path, matches: out, truncated, match_limit: lim }
}

proof fn lemma_keep_in_range(s: Seq<usize>, p: spec_fn(usize) -> bool, j: int)
    requires
        0 <= j < keep(s, p).len(),
    ensures
        p(keep(s, p)[j]),
        s.contains(keep(s, p)[j]),
    decreases s.len(),
{
    if s.len() > 0 {
        let k = keep(s.drop_last(), p);
        if p(s.last()) && j == k.len() {
            assert(s[s.len() - 1] == s.last());
        } else {
            lemma_keep_in_range(s.drop_last(), p, j);
            let x = keep(s, p)[j];
            let w = choose|w: int| 0 <= w < s.drop_last().len() && s.drop_last()[w] == x;
            assert(s[w] == x);
        }
    }
}


// ---------------------------------------------------------------------------
// Text search

proof fn lemma_line_scan_len(s: Seq<char>, n: nat)
    requires
        n <= s.len(),
    ensures
        line_scan(s, n).0.len() + line_scan(s, n).1.len() <= n,
    decreases n,
{
    if n > 0 {
        lemma_line_scan_len(s, (n - 1) as nat);
    }
}

/// A text has no more lines than characters.
pub proof fn lemma_lines_len(s: Seq<char>)
    ensures
        lines_seq(s).len() <= s.len(),
{
    lemma_line_scan_len(s, s.len());
}

/// The needle of a text search: the query, in lower case when case is ignored.
pub open spec fn grep_needle_spec(query: Seq<char>, ignore_case: bool) -> Seq<char> {
    if ignore_case {
        unicode_lowercase(query)
    } else {
        query
    }
}

pub fn grep_needle(query: &str, ignore_case: bool) -> (r: String)
    ensures
        r@ == grep_needle_spec(query@, ignore_case),
{
    if ignore_case {
        to_lowercase(query)
    } else {
        to_owned_str(query)
    }
}

/// A line answers a text search when it holds the needle, compared in lower case when case
/// is ignored.
pub open spec fn grep_hit(line: Seq<char>, needle: Seq<char>, ignore_case: bool) -> bool {
    contains_seq(grep_needle_spec(line, ignore_case), needle)
}

pub open spec fn grep_keep(ls: Seq<Seq<char>>, needle: Seq<char>, ignore_case: bool) -> spec_fn(usize) -> bool {
    |i: usize| i < ls.len() && grep_hit(ls[i as int], needle, ignore_case)
}

/// The indices of the lines of `content` that answer the search.
pub open spec fn grep_hits(content: Seq<char>, needle: Seq<char>, ignore_case: bool) -> Seq<usize> {
    let ls = lines_seq(content);
    keep(index_range(ls.len()), grep_keep(ls, needle, ignore_case))
}

/// The `k`th match of a search in a file is its line, numbered from 1.
pub open spec fn is_grep_match(m: GrepMatch, path: Seq<char>, content: Seq<char>, line_index: usize) -> bool {
    &&& m.path@ == path
    &&& m.line_number == line_index + 1
    &&& m.line@ == lines_seq(content)[line_index as int]
}

/// Searches one file's text, adding its matching lines to `matches` as long as fewer than
/// `limit` are there. Returns whether a match was left out for want of room. A binary file
/// (one that holds a NUL) is skipped.
pub fn grep_file_lines(
    path: &str,
    content: &str,
    needle: &str,
    ignore_case: bool,
    limit: usize,
    matches: &mut Vec<GrepMatch>,
) -> (full: bool)
    ensures
        content@.contains('\0') ==> !full && final(matches)@ == old(matches)@,
        !content@.contains('\0') ==> ({
            let hits = grep_hits(content@, needle@, ignore_case);
            let room: nat = if old(matches)@.len() < limit { (limit - old(matches)@.len()) as nat } else { 0 };
            let n: nat = if hits.len() < room { hits.len() } else { room };
            &&& full == (hits.len() > room)
            &&& final(matches)@.len() == old(matches)@.len() + n
            &&& final(matches)@.take(old(matches)@.len() as int) == old(matches)@
            &&& forall|k: int| 0 <= k < n ==> is_grep_match(
                #[trigger] final(matches)@[old(matches)@.len() + k],
                path@,
                content@,
                hits[k],
            )
        }),
{
    if has_nul(content) {
        return false;
    }
    let ls = lines(content);
    proof {
        lemma_lines_len(content@);
    }
    let cv = chars_of(content);
    let ghost old_m = matches@;
    let ghost lsv = lines_seq(content@);
    let ghost p = grep_keep(lsv, needle@, ignore_case);
    let ghost all = keep(index_range(lsv.len()), p);
    let ghost room: nat = if old_m.len() < limit { (limit - old_m.len()) as nat } else { 0 };
    let mut i: usize = 0;
    while i < ls.len()
        invariant
            views(ls@) == lsv,
            !content@.contains('\0'),
            lsv == lines_seq(content@),
            lsv.len() <= cv@.len(),
            cv@ == content@,
            p == grep_keep(lsv, needle@, ignore_case),
            all == keep(index_range(lsv.len()), p),
            room == (if old_m.len() < limit { (limit - old_m.len()) as nat } else { 0nat }),
            i <= ls.len(),
            old_m == old(matches)@,
            keep(index_range(i as nat), p).len() <= room,
            matches@.len() == old_m.len() + keep(index_range(i as nat), p).len(),
            matches@.take(old_m.len() as int) == old_m,
            forall|k: int| 0 <= k < keep(index_range(i as nat), p).len() ==> is_grep_match(
                #[trigger] matches@[old_m.len() + k],
                path@,
                content@,
                keep(index_range(i as nat), p)[k],
            ),
        decreases ls.len() - i,
    {
        assert(index_range((i + 1) as nat).drop_last() =~= index_range(i as nat));
        assert(index_range((i + 1) as nat).last() == i);
        let line = &ls[i];
        assert(line@ == lsv[i as int]);
        let hay = if ignore_case {
            to_lowercase(line.as_str())
        } else {
            line.clone()
        };
        if contains(hay.as_str(), needle) {
            assert(p(i));
            if matches.len() >= limit {
                proof {
                    lemma_keep_prefix(index_range(lsv.len()), (i + 1) as int, p);
                    assert(index_range(lsv.len()).take(i + 1) =~= index_range((i + 1) as nat));
                    let ki = keep(index_range(i as nat), p);
                    let k1 = keep(index_range((i + 1) as nat), p);
                    assert(k1 == ki.push(i));
                    assert(ki.len() == room);
                    assert forall|k: int| 0 <= k < ki.len() implies all[k] == ki[k] by {
                        assert(k1[k] == ki[k]);
                        assert(all.take(k1.len() as int)[k] == all[k]);
                    }
                    assert(all == grep_hits(content@, needle@, ignore_case));
                    assert(all.len() > room);
                    assert forall|k: int| 0 <= k < room implies is_grep_match(
                        #[trigger] matches@[old_m.len() + k],
                        path@,
                        content@,
                        all[k],
                    ) by {
                        assert(ki[k] == all[k]);
                    }
                }
                return true;
            }
            let m = GrepMatch { path: to_owned_str(path), line_number: i + 1, line: line.clone() };
            let ghost before = matches@;
            matches.push(m);
            proof {
                let kk = keep(index_range((i + 1) as nat), p);
                assert(kk == keep(index_range(i as nat), p).push(i));
                assert forall|k: int| 0 <= k < kk.len() implies is_grep_match(
                    #[trigger] matches@[old_m.len() + k],
                    path@,
                    content@,
                    kk[k],
                ) by {
                    if k < kk.len() - 1 {
                        assert(matches@[old_m.len() + k] == before[old_m.len() + k]);
                    }
                }
                assert(matches@.take(old_m.len() as int) =~= old_m);
            }
        } else {
            assert(!p(i));
        }
        i = i + 1;
    }
    proof {
        assert(index_range(lsv.len()) =~= index_range(i as nat));
    }
    false
}

/// A prefix of a sequence keeps a prefix of what the whole keeps.
pub proof fn lemma_keep_prefix(s: Seq<usize>, i: int, p: spec_fn(usize) -> bool)
    requires
        0 <= i <= s.len(),
    ensures
        keep(s.take(i), p).len() <= keep(s, p).len(),
        keep(s.take(i), p) == keep(s, p).take(keep(s.take(i), p).len() as int),
    decreases s.len(),
{
    if i == s.len() {
        assert(s.take(i) =~= s);
        assert(keep(s, p).take(keep(s, p).len() as int) =~= keep(s, p));
    } else {
        assert(s.drop_last().take(i) =~= s.take(i));
        lemma_keep_prefix(s.drop_last(), i, p);
        let a = keep(s.take(i), p);
        let b = keep(s.drop_last(), p);
        if p(s.last()) {
            assert(b.push(s.last()).take(a.len() as int) =~= b.take(a.len() as int));
        }
    }
}


// ---------------------------------------------------------------------------
// Edits

/// The line and column (both from 0) reached after reading `t`.
pub open spec fn line_col(t: Seq<char>) -> (nat, nat)
    decreases t.len(),
{
    if t.len() == 0 {
        (0, 0)
    } else {
        let lc = line_col(t.drop_last());
        if t.last() == '\n' {
            (lc.0 + 1, 0)
        } else {
            (lc.0, lc.1 + 1)
        }
    }
}

pub proof fn lemma_line_col_bound(t: Seq<char>)
    ensures
        line_col(t).0 + line_col(t).1 <= t.len(),
    decreases t.len(),
{
    if t.len() > 0 {
        lemma_line_col_bound(t.drop_last());
    }
}

pub open spec fn min_nat(a: nat, b: nat) -> nat {
    if a < b {
        a
    } else {
        b
    }
}

/// The line and column of character index `k` of `content`.
pub open spec fn position_of(content: Seq<char>, k: nat) -> (nat, nat) {
    line_col(content.take(min_nat(k, content.len()) as int))
}

fn line_and_column_at(v: &Vec<char>, k: usize) -> (r: (usize, usize))
    ensures
        (r.0 as nat, r.1 as nat) == position_of(v@, k as nat),
{
    let n = if k < v.len() {
        k
    } else {
        v.len()
    };
    let mut line: usize = 0;
    let mut column: usize = 0;
    let mut i: usize = 0;
    assert(v@.take(0) =~= Seq::<char>::empty());
    while i < n
        invariant
            n <= v.len(),
            i <= n,
            (line as nat, column as nat) == line_col(v@.take(i as int)),
        decreases n - i,
    {
        proof {
            assert(v@.take(i + 1).drop_last() =~= v@.take(i as int));
            lemma_line_col_bound(v@.take(i as int));
        }
        if v[i] == '\n' {
            line = line + 1;
            column = 0;
        } else {
            column = column + 1;
        }
        i = i + 1;
    }
    (line, column)
}

/// The lines numbered `start` to `end` (from 0, both included) that exist.
pub open spec fn line_block(ls: Seq<Seq<char>>, start: nat, end: nat) -> Seq<Seq<char>> {
    let hi = min_nat(end + 1, ls.len());
    if start < hi {
        ls.subrange(start as int, hi as int)
    } else {
        Seq::empty()
    }
}

fn extract_line_block(content: &str, start: usize, end: usize) -> (r: Vec<String>)
    ensures
        views(r@) == line_block(lines_seq(content@), start as nat, end as nat),
{
    let ls = lines(content);
    let hi = if end < ls.len() {
        end + 1
    } else {
        ls.len()
    };
    let mut out: Vec<String> = Vec::new();
    if start < hi {
        let mut i = start;
        while i < hi
            invariant
                start <= i <= hi <= ls.len(),
                views(out@) == views(ls@).subrange(start as int, i as int),
            decreases hi - i,
        {
            let c = ls[i].clone();
            assert(c@ == views(ls@)[i as int]);
            let ghost prev = out@;
            out.push(c);
            assert(views(out@) =~= views(prev).push(c@));
            i = i + 1;
            assert(views(out@) =~= views(ls@).subrange(start as int, i as int));
        }
    }
    assert(views(out@) =~= line_block(lines_seq(content@), start as nat, end as nat));
    out
}

/// Each line with `p` before it.
pub open spec fn prefixed(p: Seq<char>, ls: Seq<Seq<char>>) -> Seq<Seq<char>> {
    ls.map_values(|l: Seq<char>| p + l)
}

fn push_prefixed(out: &mut Vec<String>, p: &str, ls: &Vec<String>)
    ensures
        views(final(out)@) == views(old(out)@) + prefixed(p@, views(ls@)),
{
    let mut i: usize = 0;
    while i < ls.len()
        invariant
            i <= ls.len(),
            views(out@) == views(old(out)@) + prefixed(p@, views(ls@).take(i as int)),
        decreases ls.len() - i,
    {
        let c = cat(p, ls[i].as_str());
        assert(c@ == p@ + views(ls@)[i as int]);
        let ghost prev = out@;
        out.push(c);
        assert(views(out@) =~= views(prev).push(c@));
        assert(prefixed(p@, views(ls@).take(i + 1)) =~= prefixed(p@, views(ls@).take(i as int)).push(c@));
        i = i + 1;
        assert(views(out@) =~= views(old(out)@) + prefixed(p@, views(ls@).take(i as int)));
    }
    assert(views(ls@).take(ls.len() as int) =~= views(ls@));
}

pub open spec fn at_least_one(n: nat) -> nat {
    if n == 0 {
        1
    } else {
        n
    }
}

/// The lines of the preview of an edit that replaces the occurrence of `find` at character
/// `k` of `content` with `replace`: a header, the position of the match, the lines that the
/// match touches with `-`, and the new text's lines with `+`.
pub open spec fn edit_preview_lines(
    content: Seq<char>,
    find: Seq<char>,
    replace: Seq<char>,
    path: Seq<char>,
    k: nat,
) -> Seq<Seq<char>> {
    let start = position_of(content, k);
    let end = position_of(content, k + find.len());
    let old = line_block(lines_seq(content), start.0, end.0);
    let new = lines_seq(replace);
    seq![
        "--- a/"@ + path,
        "+++ b/"@ + path,
        "@@ -"@ + dec(start.0 + 1) + ","@ + dec(at_least_one(old.len())) + " +"@ + dec(start.0 + 1)
            + ","@ + dec(at_least_one(new.len())) + " @@"@,
        "match: line "@ + dec(start.0 + 1) + ", column "@ + dec(start.1 + 1),
    ] + prefixed("-"@, old) + if new.len() == 0 {
        seq!["+"@]
    } else {
        prefixed("+"@, new)
    }
}

pub open spec fn edit_preview_spec(
    content: Seq<char>,
    find: Seq<char>,
    replace: Seq<char>,
    path: Seq<char>,
    k: nat,
) -> Seq<char> {
    join_seq(edit_preview_lines(content, find, replace, path, k), "\n"@)
}

/// The unified-diff style preview of an edit at character `match_index`.
pub fn build_edit_preview(content: &str, find: &str, replace: &str, path: &str, match_index: usize) -> (r: String)
    ensures
        r@ == edit_preview_spec(content@, find@, replace@, path@, match_index as nat),
{
    let v = chars_of(content);
    let flen = find.unicode_len();
    let start = line_and_column_at(&v, match_index);
    let end_index = if match_index <= v.len() && flen <= v.len() - match_index {
        match_index + flen
    } else {
        v.len()
    };
    let end = line_and_column_at(&v, end_index);
    proof {
        assert(position_of(v@, end_index as nat) == position_of(content@, (match_index + find@.len()) as nat));
    }
    let old_lines = extract_line_block(content, start.0, end.0);
    let new_lines = lines(replace);
    let old_count = if old_lines.len() == 0 {
        1
    } else {
        old_lines.len()
    };
    let new_count = if new_lines.len() == 0 {
        1
    } else {
        new_lines.len()
    };
    let line_no = u128_to_string(start.0 as u128 + 1);
    let col_no = u128_to_string(start.1 as u128 + 1);
    let ghost start_pos = position_of(content@, match_index as nat);
    let ghost ov = line_block(lines_seq(content@), start_pos.0, position_of(content@, (match_index + find@.len()) as nat).0);
    let ghost nv = lines_seq(replace@);
    let mut out: Vec<String> = Vec::new();
    out.push(cat("--- a/", path));
    out.push(cat("+++ b/", path));
    let mut h = cat("@@ -", line_no.as_str());
    push_str(&mut h, ",");
    push_str(&mut h, usize_to_string(old_count).as_str());
    push_str(&mut h, " +");
    push_str(&mut h, line_no.as_str());
    push_str(&mut h, ",");
    push_str(&mut h, usize_to_string(new_count).as_str());
    push_str(&mut h, " @@");
    out.push(h);
    let mut m = cat("match: line ", line_no.as_str());
    push_str(&mut m, ", column ");
    push_str(&mut m, col_no.as_str());
    out.push(m);
    let ghost head = seq![
        "--- a/"@ + path@,
        "+++ b/"@ + path@,
        "@@ -"@ + dec(start_pos.0 + 1) + ","@ + dec(at_least_one(ov.len())) + " +"@ + dec(start_pos.0 + 1)
            + ","@ + dec(at_least_one(nv.len())) + " @@"@,
        "match: line "@ + dec(start_pos.0 + 1) + ", column "@ + dec(start_pos.1 + 1),
    ];
    assert(views(out@) =~= head);
    assert(views(old_lines@) == ov);
    push_prefixed(&mut out, "-", &old_lines);
    assert(views(out@) == head + prefixed("-"@, ov));
    if new_lines.len() == 0 {
        let ghost prev = out@;
        out.push(to_owned_str("+"));
        proof {
            assert(views(out@) =~= views(prev).push("+"@));
            assert(views(out@) =~= head + prefixed("-"@, ov) + seq!["+"@]);
            assert(views(out@) =~= edit_preview_lines(content@, find@, replace@, path@, match_index as nat));
        }
    } else {
        push_prefixed(&mut out, "+", &new_lines);
        proof {
            assert(views(out@) =~= edit_preview_lines(content@, find@, replace@, path@, match_index as nat));
        }
    }
    join(&out, "\n")
}

/// The rows of a line-by-line comparison of two texts' lines.
pub open spec fn diff_rows(b: Seq<Seq<char>>, a: Seq<Seq<char>>, n: nat) -> Seq<Seq<char>>
    decreases n,
{
    if n == 0 {
        Seq::empty()
    } else {
        let prev = diff_rows(b, a, (n - 1) as nat);
        let i = n - 1;
        if i < b.len() && i < a.len() {
            if b[i] == a[i] {
                prev.push(" "@ + b[i])
            } else {
                prev.push("-"@ + b[i]).push("+"@ + a[i])
            }
        } else if i < b.len() {
            prev.push("-"@ + b[i])
        } else if i < a.len() {
            prev.push("+"@ + a[i])
        } else {
            prev
        }
    }
}

pub open spec fn content_diff_spec(before: Seq<char>, after: Seq<char>, path: Seq<char>) -> Seq<char> {
    let b = lines_seq(before);
    let a = lines_seq(after);
    let n = if b.len() < a.len() { a.len() } else { b.len() };
    join_seq(seq!["--- a/"@ + path, "+++ b/"@ + path, "@@"@] + diff_rows(b, a, n), "\n"@)
}

/// A line-by-line comparison of a file's text before and after a change.
pub fn build_content_diff(before: &str, after: &str, path: &str) -> (r: String)
    ensures
        r@ == content_diff_spec(before@, after@, path@),
{
    let b = lines(before);
    let a = lines(after);
    let n = if b.len() < a.len() {
        a.len()
    } else {
        b.len()
    };
    let mut out: Vec<String> = Vec::new();
    out.push(cat("--- a/", path));
    out.push(cat("+++ b/", path));
    out.push(to_owned_str("@@"));
    let ghost head = views(out@);
    let mut i: usize = 0;
    while i < n
        invariant
            i <= n,
            views(b@) == lines_seq(before@),
            views(a@) == lines_seq(after@),
            n == if b@.len() < a@.len() { a@.len() } else { b@.len() },
            views(out@) == head + diff_rows(views(b@), views(a@), i as nat),
        decreases n - i,
    {
        let ghost prev = out@;
        assert(i < b@.len() ==> views(b@)[i as int] == b@[i as int]@);
        assert(i < a@.len() ==> views(a@)[i as int] == a@[i as int]@);
        let ghost rows = diff_rows(views(b@), views(a@), i as nat);
        if i < b.len() && i < a.len() {
            if str_eq(b[i].as_str(), a[i].as_str()) {
                let x = cat(" ", b[i].as_str());
                out.push(x);
                assert(views(out@) =~= views(prev).push(x@));
            } else {
                let x = cat("-", b[i].as_str());
                let y = cat("+", a[i].as_str());
                out.push(x);
                out.push(y);
                assert(views(out@) =~= views(prev).push(x@).push(y@));
            }
        } else if i < b.len() {
            let x = cat("-", b[i].as_str());
            out.push(x);
            assert(views(out@) =~= views(prev).push(x@));
        } else {
            let x = cat("+", a[i].as_str());
            out.push(x);
            assert(views(out@) =~= views(prev).push(x@));
        }
        assert(views(out@) =~= head + diff_rows(views(b@), views(a@), (i + 1) as nat));
        i = i + 1;
    }
    assert(head =~= seq!["--- a/"@ + path@, "+++ b/"@ + path@, "@@"@]);
    join(&out, "\n")
}

/// `str::replacen(find, replace, 1)`: the text with its first occurrence of `find` replaced.
pub open spec fn replace_first_spec(content: Seq<char>, find: Seq<char>, replace: Seq<char>) -> Seq<char> {
    match crate::text::find_seq(content, find) {
        Some(k) => content.take(k) + replace + content.skip(k + find.len()),
        None => content,
    }
}

pub fn replace_first(content: &str, find: &str, replace: &str) -> (r: String)
    ensures
        r@ == replace_first_spec(content@, find@, replace@),
{
    let v = chars_of(content);
    let f = chars_of(find);
    match crate::text::find_chars(&v, &f) {
        Some(k) => {
            assert(crate::text::occurs_at(v@, f@, k as int));
            let n = v.len();
            let head = subrange_string(&v, 0, k);
            let tail = subrange_string(&v, k + f.len(), n);
            let mut r = cat(head.as_str(), replace);
            push_str(&mut r, tail.as_str());
            proof {
                assert(v@.subrange(0, k as int) =~= content@.take(k as int));
                assert(v@.subrange(k + f@.len(), v@.len() as int) =~= content@.skip(k + find@.len()));
            }
            r
        },
        None => to_owned_str(content),
    }
}

/// A file that an edit is about to change: its path, its text, where the edit's pattern first
/// occurs (a character index), and the hash of the text.
#[derive(Debug, Clone, PartialEq, Eq)]
pub struct EditTarget {
    pub relative_path: String,
    pub content: String,
    pub match_index: usize,
    pub base_hash: String,
}

/// Refuses an edit whose pattern is blank.
pub fn check_edit_pattern(find: &str) -> (r: Result<(), WorkspaceError>)
    ensures
        r is Ok <==> trim_seq(find@).len() > 0,
        r matches Err(e) ==> e == WorkspaceError::EditPatternEmpty,
{
    if crate::text::is_blank(find) {
        Err(WorkspaceError::EditPatternEmpty)
    } else {
        Ok(())
    }
}

/// The target of an edit in a file's text: refused for a binary file and for one that does
/// not hold the pattern.
pub fn load_edit_target(relative_path: String, content: String, find: &str) -> (r: Result<EditTarget, WorkspaceError>)
    ensures
        content@.contains('\0') ==> (r matches Err(WorkspaceError::Binary(p)) && p@ == relative_path@),
        !content@.contains('\0') && !contains_seq(content@, find@) ==> (r matches Err(
            WorkspaceError::EditTargetNotFound(p),
        ) && p@ == relative_path@),
        !content@.contains('\0') && contains_seq(content@, find@) ==> (r matches Ok(t) && {
            &&& t.relative_path@ == relative_path@
            &&& t.content@ == content@
            &&& crate::text::find_seq(content@, find@) == Some(t.match_index as int)
            &&& t.base_hash@ == hash_spec(content@)
        }),
{
    if has_nul(content.as_str()) {
        return Err(WorkspaceError::Binary(relative_path));
    }
    let v = chars_of(content.as_str());
    let f = chars_of(find);
    match crate::text::find_chars(&v, &f) {
        Some(k) => {
            let base_hash = content_hash(content.as_str());
            Ok(EditTarget { relative_path, content, match_index: k, base_hash })
        },
        None => Err(WorkspaceError::EditTargetNotFound(relative_path)),
    }
}

/// Refuses to go on when a file's text no longer has the hash that was expected of it.
pub fn check_unchanged(path: &str, expected_hash: &str, current_content: &str) -> (r: Result<(), WorkspaceError>)
    ensures
        r is Ok <==> hash_spec(current_content@) == expected_hash@,
        r matches Err(e) ==> (e matches WorkspaceError::EditCheckpointMismatch { path: p, expected_hash: x, actual_hash: a }
            && p@ == path@ && x@ == expected_hash@ && a@ == hash_spec(current_content@)),
{
    let actual = content_hash(current_content);
    if str_eq(actual.as_str(), expected_hash) {
        Ok(())
    } else {
        Err(WorkspaceError::EditCheckpointMismatch {
            path: to_owned_str(path),
            expected_hash: to_owned_str(expected_hash),
            actual_hash: actual,
        })
    }
}

/// The checkpoint of an edit: the text before and after the first occurrence of `find` is
/// replaced, their hashes, and the preview of the change.
pub open spec fn checkpoint_spec(
    c: EditCheckpoint,
    id: Seq<char>,
    path: Seq<char>,
    content: Seq<char>,
    find: Seq<char>,
    replace: Seq<char>,
    match_index: nat,
) -> bool {
    let updated = replace_first_spec(content, find, replace);
    &&& c.checkpoint_id@ == id
    &&& c.path@ == path
    &&& c.base_hash@ == hash_spec(content)
    &&& c.result_hash@ == hash_spec(updated)
    &&& c.before_content@ == content
    &&& c.after_content@ == updated
    &&& c.diff@ == edit_preview_spec(content, find, replace, path, match_index)
}

/// The checkpoint of the edit of a target.
pub fn edit_checkpoint(target: &EditTarget, find: &str, replace: &str, checkpoint_id: String) -> (r: EditCheckpoint)
    ensures
        checkpoint_spec(r, checkpoint_id@, target.relative_path@, target.content@, find@, replace@, target.match_index as nat),
{
    let updated = replace_first(target.content.as_str(), find, replace);
    let diff = build_edit_preview(target.content.as_str(), find, replace, target.relative_path.as_str(), target.match_index);
    let base_hash = content_hash(target.content.as_str());
    let result_hash = content_hash(updated.as_str());
    EditCheckpoint {
        path: target.relative_path.clone(),
        checkpoint_id,
        base_hash,
        result_hash,
        before_content: target.content.clone(),
        after_content: updated,
        diff,
    }
}

/// The hash that a batch edit expects of its file: the one it names, else the one it read.
pub fn expected_hash_for(edit: &EditRequest, target: &EditTarget) -> (r: String)
    ensures
        r@ == (match edit.expected_hash {
            Some(h) => h@,
            None => target.base_hash@,
        }),
{
    match &edit.expected_hash {
        Some(h) => h.clone(),
        None => target.base_hash.clone(),
    }
}

/// The edit at `i` names a file that an earlier edit of the batch names too.
pub fn repeats_earlier_path(edits: &Vec<EditRequest>, i: usize) -> (r: bool)
    requires
        i < edits@.len(),
    ensures
        r == exists|j: int| 0 <= j < i && edits@[j].path@ == edits@[i as int].path@,
{
    let mut j: usize = 0;
    while j < i
        invariant
            j <= i < edits@.len(),
            forall|k: int| 0 <= k < j ==> edits@[k].path@ != edits@[i as int].path@,
        decreases i - j,
    {
        if str_eq(edits[j].path.as_str(), edits[i].path.as_str()) {
            return true;
        }
        j = j + 1;
    }
    false
}

/// The refusal of a batch that edits one file twice.
pub fn duplicate_edit_conflict(path: &str) -> (r: WorkspaceError)
    ensures
        r matches WorkspaceError::EditConflict { path: p, reason } && p@ == path@
            && reason@ == "duplicate edit for the same file in one batch"@,
{
    WorkspaceError::EditConflict {
        path: to_owned_str(path),
        reason: to_owned_str("duplicate edit for the same file in one batch"),
    }
}

/// What undoing an edit gives: refused unless the file still holds what the edit wrote; else
/// the text from before the edit comes back, with a checkpoint of its own.
pub open spec fn rewind_outcome(
    checkpoint: EditCheckpoint,
    relative_path: Seq<char>,
    current: Seq<char>,
    checkpoint_id: Seq<char>,
    r: Result<EditRewindResult, WorkspaceError>,
) -> bool {
    if hash_spec(current) != checkpoint.result_hash@ {
        r matches Err(e) && e matches WorkspaceError::EditCheckpointMismatch { path: p, expected_hash: x, actual_hash: a }
            && p@ == relative_path && x@ == checkpoint.result_hash@ && a@ == hash_spec(current)
    } else {
        r matches Ok(res) && {
            let c = res.checkpoint;
            &&& res.rewound_checkpoint_id@ == checkpoint.checkpoint_id@
            &&& c.checkpoint_id@ == checkpoint_id
            &&& c.path@ == checkpoint.path@
            &&& c.base_hash@ == checkpoint.result_hash@
            &&& c.result_hash@ == hash_spec(checkpoint.before_content@)
            &&& c.before_content@ == current
            &&& c.after_content@ == checkpoint.before_content@
            &&& c.diff@ == content_diff_spec(checkpoint.after_content@, checkpoint.before_content@, checkpoint.path@)
        }
    }
}

/// Undoing an edit, given the file's text now.
pub fn rewind_result(
    checkpoint: &EditCheckpoint,
    relative_path: &str,
    current_content: String,
    checkpoint_id: String,
) -> (r: Result<EditRewindResult, WorkspaceError>)
    ensures
        rewind_outcome(*checkpoint, relative_path@, current_content@, checkpoint_id@, r),
{
    match check_unchanged(relative_path, checkpoint.result_hash.as_str(), current_content.as_str()) {
        Err(e) => Err(e),
        Ok(()) => {
            let restored = checkpoint.before_content.clone();
            let diff = build_content_diff(checkpoint.after_content.as_str(), restored.as_str(), checkpoint.path.as_str());
            let result_hash = content_hash(restored.as_str());
            let c = EditCheckpoint {
                path: checkpoint.path.clone(),
                checkpoint_id,
                base_hash: checkpoint.result_hash.clone(),
                result_hash,
                before_content: current_content,
                after_content: restored,
                diff,
            };
            Ok(EditRewindResult { rewound_checkpoint_id: checkpoint.checkpoint_id.clone(), checkpoint: c })
        },
    }
}

/// Undoing an edit while the file still holds what the edit wrote succeeds and gives back the
/// file's text from before the edit; undoing that undo gives back the edited text.
pub proof fn law_rewind_restores_edit(
    c: EditCheckpoint,
    id: Seq<char>,
    path: Seq<char>,
    content: Seq<char>,
    find: Seq<char>,
    replace: Seq<char>,
    match_index: nat,
    relative_path: Seq<char>,
    rewind_id: Seq<char>,
    r: Result<EditRewindResult, WorkspaceError>,
    redo_id: Seq<char>,
    r2: Result<EditRewindResult, WorkspaceError>,
)
    requires
        checkpoint_spec(c, id, path, content, find, replace, match_index),
        rewind_outcome(c, relative_path, replace_first_spec(content, find, replace), rewind_id, r),
        r matches Ok(res) ==> rewind_outcome(res.checkpoint, relative_path, content, redo_id, r2),
    ensures
        r matches Ok(res) && res.rewound_checkpoint_id@ == id && res.checkpoint.after_content@ == content
            && res.checkpoint.before_content@ == replace_first_spec(content, find, replace)
            && res.checkpoint.path@ == path,
        r2 matches Ok(res2) && res2.checkpoint.after_content@ == replace_first_spec(content, find, replace)
            && res2.checkpoint.before_content@ == content,
{
}

// ---------------------------------------------------------------------------
// Writing a batch of edits

/// What a batch of edits needs next.
pub enum BatchStep {
    /// Load and check the target of the edit at this index.
    Load(usize),
    /// Check that the file of the edit at this index is unchanged, and write the edit.
    Write(usize),
    /// Put back the files of these edits, already written, and fail with the error.
    Restore(Vec<EditCheckpoint>, WorkspaceError),
    /// Fail with the error; nothing was written.
    Fail(WorkspaceError),
    /// Every edit was written; these are their checkpoints, in order.
    Done(Vec<EditCheckpoint>),
}

/// A batch of edits on its way: every target is loaded before any file is written, and a
/// failure while writing puts back what the batch already wrote.
pub struct BatchApply {
    pub edits: Vec<EditRequest>,
    pub loaded: usize,
    pub written: Vec<EditCheckpoint>,
}

impl BatchApply {
    pub open spec fn wf(self) -> bool {
        &&& self.loaded <= self.edits@.len()
        &&& self.written@.len() <= self.edits@.len()
        &&& self.written@.len() > 0 ==> self.loaded == self.edits@.len()
    }

    pub fn new(edits: Vec<EditRequest>) -> (r: Self)
        ensures
            r.wf(),
            r.edits@ == edits@,
            r.loaded == 0,
            r.written@.len() == 0,
    {
        BatchApply { edits, loaded: 0, written: Vec::new() }
    }

    /// The step after the targets loaded so far: the next load, unless its file already
    /// has an edit in the batch; the first write once every target is loaded.
    pub fn next_load(&self) -> (r: BatchStep)
        requires
            self.wf(),
            self.written@.len() == 0,
        ensures
            self.loaded < self.edits@.len() ==> if exists|j: int|
                0 <= j < self.loaded && (#[trigger] self.edits@[j]).path@ == self.edits@[self.loaded as int].path@ {
                r matches BatchStep::Fail(e) && (e matches WorkspaceError::EditConflict { path, reason }
                    && path@ == self.edits@[self.loaded as int].path@
                    && reason@ == "duplicate edit for the same file in one batch"@)
            } else {
                r == BatchStep::Load(self.loaded)
            },
            self.loaded == self.edits@.len() && self.edits@.len() > 0 ==> r == BatchStep::Write(0),
            self.edits@.len() == 0 ==> (r matches BatchStep::Done(v) && v@.len() == 0),
    {
        if self.loaded < self.edits.len() {
            if repeats_earlier_path(&self.edits, self.loaded) {
                return BatchStep::Fail(duplicate_edit_conflict(self.edits[self.loaded].path.as_str()));
            }
            BatchStep::Load(self.loaded)
        } else if self.edits.len() > 0 {
            BatchStep::Write(0)
        } else {
            BatchStep::Done(Vec::new())
        }
    }

    /// A target was loaded, or could not be: a failure ends the batch before any write.
    pub fn after_load(&mut self, outcome: Result<(), WorkspaceError>) -> (r: BatchStep)
        requires
            old(self).wf(),
            old(self).written@.len() == 0,
            old(self).loaded < old(self).edits@.len(),
        ensures
            final(self).wf(),
            final(self).edits@ == old(self).edits@,
            final(self).written@.len() == 0,
            match outcome {
                Ok(()) => final(self).loaded == old(self).loaded + 1,
                Err(e) => r == BatchStep::Fail(e) && final(self).loaded == old(self).loaded,
            },
            r is Write ==> final(self).loaded == final(self).edits@.len() && r == BatchStep::Write(0),
            r matches BatchStep::Load(i) ==> i == final(self).loaded,
            !(r is Restore),
    {
        match outcome {
            Ok(()) => {
                assert(self.loaded < self.edits.len());
                self.loaded = self.loaded + 1;
                self.next_load()
            },
            Err(e) => BatchStep::Fail(e),
        }
    }

    /// An edit was written, or could not be: a failure puts back every edit written before
    /// it; after the last one the batch is done.
    pub fn after_write(&mut self, outcome: Result<EditCheckpoint, WorkspaceError>) -> (r: BatchStep)
        requires
            old(self).wf(),
            old(self).loaded == old(self).edits@.len(),
            old(self).written@.len() < old(self).edits@.len(),
        ensures
            final(self).wf(),
            final(self).edits@ == old(self).edits@,
            final(self).loaded == old(self).loaded,
            match outcome {
                Ok(c) => {
                    &&& final(self).written@ == old(self).written@.push(c)
                    &&& if final(self).written@.len() == final(self).edits@.len() {
                        r matches BatchStep::Done(v) && v@ == final(self).written@
                    } else {
                        r == BatchStep::Write(final(self).written@.len() as usize)
                    }
                },
                Err(e) => r matches BatchStep::Restore(v, x) && v@ == old(self).written@ && x == e
                    && final(self).written@ == old(self).written@,
            },
    {
        match outcome {
            Ok(c) => {
                self.written.push(c);
                if self.written.len() == self.edits.len() {
                    let mut done: Vec<EditCheckpoint> = Vec::new();
                    let mut k: usize = 0;
                    while k < self.written.len()
                        invariant
                            k <= self.written@.len(),
                            done@ == self.written@.take(k as int),
                        decreases self.written@.len() - k,
                    {
                        done.push(self.written[k].copy());
                        k = k + 1;
                        assert(done@ =~= self.written@.take(k as int));
                    }
                    assert(self.written@.take(k as int) =~= self.written@);
                    BatchStep::Done(done)
                } else {
                    BatchStep::Write(self.written.len())
                }
            },
            Err(e) => {
                let mut back: Vec<EditCheckpoint> = Vec::new();
                let mut k: usize = 0;
                while k < self.written.len()
                    invariant
                        k <= self.written@.len(),
                        back@ == self.written@.take(k as int),
                    decreases self.written@.len() - k,
                {
                    back.push(self.written[k].copy());
                    k = k + 1;
                    assert(back@ =~= self.written@.take(k as int));
                }
                assert(self.written@.take(k as int) =~= self.written@);
                BatchStep::Restore(back, e)
            },
        }
    }
}


proof fn lemma_keep_contains(s: Seq<usize>, p: spec_fn(usize) -> bool, x: usize)
    ensures
        keep(s, p).contains(x) == (s.contains(x) && p(x)),
    decreases s.len(),
{
    if s.len() > 0 {
        let s0 = s.drop_last();
        lemma_keep_contains(s0, p, x);
        let k0 = keep(s0, p);
        if s.contains(x) && p(x) {
            let j = choose|j: int| 0 <= j < s.len() && s[j] == x;
            if j < s0.len() {
                assert(s0[j] == x);
                if p(s.last()) {
                    let w = choose|w: int| 0 <= w < k0.len() && k0[w] == x;
                    assert(k0.push(s.last())[w] == x);
                }
            } else {
                assert(keep(s, p)[keep(s, p).len() - 1] == x);
            }
        }
        if keep(s, p).contains(x) {
            let w = choose|w: int| 0 <= w < keep(s, p).len() && keep(s, p)[w] == x;
            if p(s.last()) && w == k0.len() {
                assert(s[s.len() - 1] == x);
            } else {
                assert(k0[w] == x);
                let j = choose|j: int| 0 <= j < s0.len() && s0[j] == x;
                assert(s[j] == x);
            }
        }
    }
}

/// A path search finds exactly the entries whose whole path, in lower case, holds the query
/// (every entry when the query is empty): a file under a directory whose name matches is found.
pub proof fn law_find_hits_are_path_matches(d: Seq<WorkspaceEntry>, q: Seq<char>, i: int)
    requires
        0 <= i < d.len(),
        d.len() <= usize::MAX,
    ensures
        keep(index_range(d.len()), find_keep(d, q)).contains(i as usize) == (q.len() == 0 || contains_seq(
            unicode_lowercase(d[i].path@),
            q,
        )),
{
    lemma_keep_contains(index_range(d.len()), find_keep(d, q), i as usize);
    assert(index_range(d.len())[i] == i as usize);
}

/// Every hit of a path search is an entry whose whole path, in lower case, holds the query.
pub proof fn law_find_hit_holds_query(d: Seq<WorkspaceEntry>, q: Seq<char>, k: int)
    requires
        0 <= k < keep(index_range(d.len()), find_keep(d, q)).len(),
    ensures
        ({
            let i = keep(index_range(d.len()), find_keep(d, q))[k];
            i < d.len() && (q.len() == 0 || contains_seq(unicode_lowercase(d[i as int].path@), q))
        }),
{
    lemma_keep_in_range(index_range(d.len()), find_keep(d, q), k);
}


/// An edit replaces the first occurrence of its pattern, and only that one: the text before
/// it and after it stays as it was.
pub proof fn law_edit_replaces_first_occurrence(content: Seq<char>, find: Seq<char>, replace: Seq<char>, k: int)
    requires
        crate::text::occurs_at(content, find, k),
        forall|j: int| 0 <= j < k ==> !crate::text::occurs_at(content, find, j),
    ensures
        replace_first_spec(content, find, replace) == content.take(k) + replace + content.skip(k + find.len()),
{
    assert(contains_seq(content, find));
    let i = choose|i: int|
        crate::text::occurs_at(content, find, i) && forall|j: int| 0 <= j < i ==> !crate::text::occurs_at(content, find, j);
    assert(crate::text::occurs_at(content, find, i) && forall|j: int| 0 <= j < i ==> !crate::text::occurs_at(content, find, j));
    if i < k {
        assert(!crate::text::occurs_at(content, find, i));
    }
    if k < i {
        assert(!crate::text::occurs_at(content, find, k));
    }
    assert(i == k);
}

/// An edit whose pattern does not occur leaves the text as it was.
pub proof fn law_edit_without_occurrence_changes_nothing(content: Seq<char>, find: Seq<char>, replace: Seq<char>)
    requires
        !contains_seq(content, find),
    ensures
        replace_first_spec(content, find, replace) == content,
{
}

/// A read from a character offset inside the text gives the characters from that offset on,
/// as many as the limit allows (the default when it is 0) or up to the end; when more
/// follow, the next read starts right after the last character given.
pub proof fn law_read_gives_window(path: Seq<char>, content: Seq<char>, offset: nat, limit: nat, r: ReadResult)
    requires
        read_spec(path, content, offset, limit, r),
        offset <= content.len(),
        content.len() <= usize::MAX,
    ensures
        ({
            let lim = if limit == 0 { DEFAULT_READ_LIMIT as nat } else { limit };
            let n = if lim < content.len() - offset { lim } else { (content.len() - offset) as nat };
            &&& r.content@ == content.subrange(offset as int, (offset + n) as int)
            &&& r.next_offset == if offset + n < content.len() { Some((offset + n) as usize) } else { None::<usize> }
        }),
{
}

/// Reading on from where a read said the next one starts continues the text without gap or
/// overlap: the two pages together are the text from the first offset on.
pub proof fn law_next_read_continues(
    path: Seq<char>,
    content: Seq<char>,
    offset: nat,
    limit: nat,
    first: ReadResult,
    next: ReadResult,
    n: usize,
)
    requires
        read_spec(path, content, offset, limit, first),
        first.next_offset == Some(n),
        read_spec(path, content, n as nat, limit, next),
        offset <= content.len(),
        content.len() <= usize::MAX,
    ensures
        first.content@ + next.content@ == content.subrange(offset as int, n + next.content@.len()),
{
    law_read_gives_window(path, content, offset, limit, first);
    law_read_gives_window(path, content, n as nat, limit, next);
    assert(first.content@ + next.content@ =~= content.subrange(offset as int, n + next.content@.len()));
}

} // verus!
