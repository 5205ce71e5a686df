//! Capabilities (extensions and skills found under the global and project `.picocode`
//! directories), how they are matched, described and switched on or off.
use vstd::prelude::*;
use crate::config::{index_range, index_vec};
use crate::order::{lex_lt, sort_by, sort_indices, str_lt};
use crate::text::{
    cat, cat3, chars_of, contains, contains_seq, is_blank_seq, join, join_seq, lines, lines_seq,
    push_str, str_eq, to_lowercase, to_owned_str, trim, trim_end, trim_seq, trim_end_seq,
    unicode_lowercase, views,
};

verus! {

#[derive(Debug, Clone, Copy, PartialEq, Eq)]
pub enum CapabilityKind {
    Extension,
    Skill,
}

impl CapabilityKind {
    pub open spec fn label_spec(self) -> Seq<char> {
        match self {
            CapabilityKind::Extension => "extension"@,
            CapabilityKind::Skill => "skill"@,
        }
    }

    pub fn label(self) -> (r: &'static str)
        ensures
            r@ == self.label_spec(),
    {
        match self {
            CapabilityKind::Extension => "extension",
            CapabilityKind::Skill => "skill",
        }
    }
}

#[derive(Debug, Clone, Copy, PartialEq, Eq)]
pub enum CapabilitySource {
    Global,
    Project,
}

impl CapabilitySource {
    pub open spec fn label_spec(self) -> Seq<char> {
        match self {
            CapabilitySource::Global => "global"@,
            CapabilitySource::Project => "project"@,
        }
    }

    pub fn label(self) -> (r: &'static str)
        ensures
            r@ == self.label_spec(),
    {
        match self {
            CapabilitySource::Global => "global",
            CapabilitySource::Project => "project",
        }
    }
}

/// An extension or a skill: where it comes from, its name and summary, and its directory.
#[derive(Debug, Clone, PartialEq, Eq)]
pub struct CapabilityEntry {
    pub kind: CapabilityKind,
    pub source: CapabilitySource,
    pub name: String,
    pub summary: Option<String>,
    pub path: String,
}

pub open spec fn opt_text(s: Option<String>, d: Seq<char>) -> Seq<char> {
    match s {
        Some(t) => t@,
        None => d,
    }
}

/// At most `limit` lines of a text, and the marker when it had more, joined by line breaks.
pub open spec fn limit_preview_spec(content: Seq<char>, limit: nat) -> Seq<char> {
    let ls = lines_seq(content);
    join_seq(
        if ls.len() > limit {
            ls.take(limit as int).push("... (collapsed)"@)
        } else {
            ls
        },
        "\n"@,
    )
}

pub fn limit_preview(content: &str, limit: usize) -> (r: String)
    ensures
        r@ == limit_preview_spec(content@, limit as nat),
{
    let mut ls = lines(content);
    if ls.len() > limit {
        let ghost all = views(ls@);
        ls.truncate(limit);
        ls.push(to_owned_str("... (collapsed)"));
        assert(views(ls@) =~= all.take(limit as int).push("... (collapsed)"@));
    }
    join(&ls, "\n")
}

impl CapabilityEntry {
    pub open spec fn stable_id_spec(self) -> Seq<char> {
        self.source.label_spec() + "|"@ + self.kind.label_spec() + "|"@ + self.path@
    }

    /// The id by which the preferences name the entry: source, kind and directory.
    pub fn stable_id(&self) -> (r: String)
        ensures
            r@ == self.stable_id_spec(),
    {
        let mut r = cat3(self.source.label(), "|", self.kind.label());
        push_str(&mut r, "|");
        push_str(&mut r, self.path.as_str());
        r
    }

    pub open spec fn compact_label_spec(self) -> Seq<char> {
        self.source.label_spec() + " "@ + self.kind.label_spec() + " "@ + self.name@ + " - "@ + opt_text(
            self.summary,
            "-"@,
        )
    }

    /// The entry in one line: source, kind, name and summary.
    pub fn compact_label(&self) -> (r: String)
        ensures
            r@ == self.compact_label_spec(),
    {
        let mut r = cat3(self.source.label(), " ", self.kind.label());
        push_str(&mut r, " ");
        push_str(&mut r, self.name.as_str());
        push_str(&mut r, " - ");
        match &self.summary {
            Some(s) => push_str(&mut r, s.as_str()),
            None => push_str(&mut r, "-"),
        }
        r
    }

    /// Whether the entry answers a search: the query, in lower case, is in its name, summary
    /// or path (each in lower case), or in its source or kind.
    pub open spec fn matches_spec(self, query: Seq<char>) -> bool {
        let q = unicode_lowercase(query);
        ||| contains_seq(unicode_lowercase(self.name@), q)
        ||| contains_seq(unicode_lowercase(opt_text(self.summary, Seq::empty())), q)
        ||| contains_seq(unicode_lowercase(self.path@), q)
        ||| contains_seq(self.source.label_spec(), q)
        ||| contains_seq(self.kind.label_spec(), q)
    }

    pub fn matches_query(&self, query: &str) -> (r: bool)
        ensures
            r == self.matches_spec(query@),
    {
        let q = to_lowercase(query);
        let qs = q.as_str();
        if contains(to_lowercase(self.name.as_str()).as_str(), qs) {
            return true;
        }
        let summary = match &self.summary {
            Some(s) => s.clone(),
            None => String::new(),
        };
        proof {
            assert(summary@ == opt_text(self.summary, Seq::empty()));
        }
        if contains(to_lowercase(summary.as_str()).as_str(), qs) {
            return true;
        }
        if contains(to_lowercase(self.path.as_str()).as_str(), qs) {
            return true;
        }
        contains(self.source.label(), qs) || contains(self.kind.label(), qs)
    }

    pub open spec fn detail_spec(self, file: Option<Seq<char>>) -> Seq<char> {
        match file {
            None => self.compact_label_spec(),
            Some(content) => "path: "@ + self.path@ + "\nkind: "@ + self.kind.label_spec() + "\nsource: "@
                + self.source.label_spec() + "\nname: "@ + self.name@ + "\n"@ + match self.summary {
                Some(s) => "summary: "@ + s@,
                None => "summary: -"@,
            } + "\n"@ + limit_preview_spec(
                content,
                match self.kind {
                    CapabilityKind::Extension => 12nat,
                    CapabilityKind::Skill => 16nat,
                },
            ) + "\n"@,
        }
    }

    /// The entry in detail, given the text of its file (`manifest.toml` of an extension,
    /// `SKILL.md` of a skill) when it has one: its fields and the file's first lines.
    pub fn detail_text(&self, file: Option<&str>) -> (r: String)
        ensures
            r@ == self.detail_spec(match file {
                Some(c) => Some(c@),
                None => None,
            }),
    {
        match file {
            None => self.compact_label(),
            Some(content) => {
                let mut r = cat("path: ", self.path.as_str());
                push_str(&mut r, "\nkind: ");
                push_str(&mut r, self.kind.label());
                push_str(&mut r, "\nsource: ");
                push_str(&mut r, self.source.label());
                push_str(&mut r, "\nname: ");
                push_str(&mut r, self.name.as_str());
                push_str(&mut r, "\n");
                match &self.summary {
                    Some(s) => {
                        push_str(&mut r, "summary: ");
                        push_str(&mut r, s.as_str());
                    },
                    None => push_str(&mut r, "summary: -"),
                }
                push_str(&mut r, "\n");
                let limit: usize = match self.kind {
                    CapabilityKind::Extension => 12,
                    CapabilityKind::Skill => 16,
                };
                push_str(&mut r, limit_preview(content, limit).as_str());
                push_str(&mut r, "\n");
                r
            },
        }
    }

    /// The detail, said to be enabled or disabled.
    pub fn detail_text_with_enabled(&self, enabled: bool, file: Option<&str>) -> (r: String)
        ensures
            r@ == "enabled: "@ + (if enabled { "enabled"@ } else { "disabled"@ }) + "\n"@ + self.detail_spec(
                match file {
                    Some(c) => Some(c@),
                    None => None,
                },
            ),
    {
        let status = if enabled {
            "enabled"
        } else {
            "disabled"
        };
        let mut r = cat3("enabled: ", status, "\n");
        push_str(&mut r, self.detail_text(file).as_str());
        r
    }

    pub open spec fn skill_context_spec(self, enabled: bool, file: Option<Seq<char>>) -> Seq<char> {
        let status = if enabled { "enabled"@ } else { "disabled"@ };
        match (self.kind, file) {
            (CapabilityKind::Skill, Some(content)) => "skill loaded: "@ + self.name@ + "\nenabled: "@ + status
                + "\npath: "@ + self.path@ + "\nsource: "@ + self.source.label_spec() + "\nname: "@ + self.name@
                + "\n"@ + trim_end_seq(content) + "\n"@,
            _ => "enabled: "@ + status + "\n"@ + self.detail_spec(file),
        }
    }

    /// The text that loads a skill into the conversation: its whole `SKILL.md`. For an
    /// extension, or a skill without its file, the detail.
    pub fn skill_context_text(&self, enabled: bool, file: Option<&str>) -> (r: String)
        ensures
            r@ == self.skill_context_spec(enabled, match file {
                Some(c) => Some(c@),
                None => None,
            }),
    {
        match (self.kind, file) {
            (CapabilityKind::Skill, Some(content)) => {
                let status = if enabled {
                    "enabled"
                } else {
                    "disabled"
                };
                let mut r = cat("skill loaded: ", self.name.as_str());
                push_str(&mut r, "\nenabled: ");
                push_str(&mut r, status);
                push_str(&mut r, "\npath: ");
                push_str(&mut r, self.path.as_str());
                push_str(&mut r, "\nsource: ");
                push_str(&mut r, self.source.label());
                push_str(&mut r, "\nname: ");
                push_str(&mut r, self.name.as_str());
                push_str(&mut r, "\n");
                push_str(&mut r, trim_end(content).as_str());
                push_str(&mut r, "\n");
                r
            },
            _ => self.detail_text_with_enabled(enabled, file),
        }
    }

    pub fn copy(&self) -> (r: Self)
        ensures
            r == *self,
    {
        CapabilityEntry {
            kind: self.kind,
            source: self.source,
            name: self.name.clone(),
            summary: match &self.summary {
                Some(s) => Some(s.clone()),
                None => None,
            },
            path: self.path.clone(),
        }
    }
}

/// The summary of a skill: the first line of its `SKILL.md` that is not blank, trimmed, and
/// without a leading `# ` of a heading.
pub open spec fn skill_summary_spec(ls: Seq<Seq<char>>) -> Option<Seq<char>>
    decreases ls.len(),
{
    if ls.len() == 0 {
        None
    } else {
        let t = trim_seq(ls[0]);
        if t.len() == 0 {
            skill_summary_spec(ls.drop_first())
        } else if "# "@.is_prefix_of(t) {
            Some(trim_seq(t.skip(2)))
        } else {
            Some(t)
        }
    }
}

pub fn read_skill_summary(content: &str) -> (r: Option<String>)
    ensures
        match skill_summary_spec(lines_seq(content@)) {
            Some(s) => r matches Some(x) && x@ == s,
            None => r is None,
        },
{
    let ls = lines(content);
    let mut i: usize = 0;
    assert(views(ls@).skip(0) =~= views(ls@));
    while i < ls.len()
        invariant
            i <= ls.len(),
            views(ls@) == lines_seq(content@),
            skill_summary_spec(lines_seq(content@)) == skill_summary_spec(views(ls@).skip(i as int)),
        decreases ls.len() - i,
    {
        assert(views(ls@).skip(i as int)[0] == ls@[i as int]@);
        assert(views(ls@).skip(i as int).drop_first() =~= views(ls@).skip(i + 1));
        let t = trim(ls[i].as_str());
        if t.as_str().unicode_len() > 0 {
            proof {
                reveal_strlit("# ");
            }
            match crate::text::strip_prefix(t.as_str(), "# ") {
                Some(rest) => {
                    return Some(trim(rest.as_str()));
                },
                None => {
                    return Some(t);
                },
            }
        }
        i = i + 1;
    }
    None
}

/// The entry of an extension directory: the name and description of its manifest when it
/// has them, else the directory's name.
pub fn extension_entry(
    source: CapabilitySource,
    dir_name: String,
    path: String,
    manifest_name: Option<String>,
    manifest_description: Option<String>,
) -> (r: CapabilityEntry)
    ensures
        r.kind == CapabilityKind::Extension,
        r.source == source,
        r.name == match manifest_name {
            Some(n) => n,
            None => dir_name,
        },
        r.summary == manifest_description,
        r.path == path,
{
    CapabilityEntry {
        kind: CapabilityKind::Extension,
        source,
        name: match manifest_name {
            Some(n) => n,
            None => dir_name,
        },
        summary: manifest_description,
        path,
    }
}

/// The entry of a skill directory, summarised from its `SKILL.md`.
pub fn skill_entry(source: CapabilitySource, dir_name: String, path: String, skill_text: &str) -> (r: CapabilityEntry)
    ensures
        r.kind == CapabilityKind::Skill,
        r.source == source,
        r.name == dir_name,
        match skill_summary_spec(lines_seq(skill_text@)) {
            Some(s) => r.summary matches Some(x) && x@ == s,
            None => r.summary is None,
        },
        r.path == path,
{
    CapabilityEntry { kind: CapabilityKind::Skill, source, name: dir_name, summary: read_skill_summary(skill_text), path }
}

/// Entries ordered by source, kind, name and path.
pub open spec fn entry_lt(a: CapabilityEntry, b: CapabilityEntry) -> bool {
    let ka = seq![a.source.label_spec(), a.kind.label_spec(), a.name@, a.path@];
    let kb = seq![b.source.label_spec(), b.kind.label_spec(), b.name@, b.path@];
    keys_lt(ka, kb)
}

/// Lexicographic order of sequences of strings.
pub open spec fn keys_lt(a: Seq<Seq<char>>, b: Seq<Seq<char>>) -> bool
    decreases a.len(),
{
    if a.len() == 0 || b.len() == 0 {
        a.len() < b.len()
    } else if a[0] != b[0] {
        lex_lt(a[0], b[0])
    } else {
        keys_lt(a.drop_first(), b.drop_first())
    }
}

pub open spec fn capability_before(d: Seq<CapabilityEntry>) -> spec_fn(usize, usize) -> bool {
    |a: usize, b: usize| a < d.len() && b < d.len() && entry_lt(d[a as int], d[b as int])
}

pub open spec fn sorted_entries(d: Seq<CapabilityEntry>) -> Seq<CapabilityEntry> {
    sort_by(index_range(d.len()), capability_before(d)).map_values(|i: usize| d[i as int])
}

fn entry_lt_exec(a: &CapabilityEntry, b: &CapabilityEntry) -> (r: bool)
    ensures
        r == entry_lt(*a, *b),
{
    let ghost ka = seq![a.source.label_spec(), a.kind.label_spec(), a.name@, a.path@];
    let ghost kb = seq![b.source.label_spec(), b.kind.label_spec(), b.name@, b.path@];
    assert(ka.drop_first() =~= seq![a.kind.label_spec(), a.name@, a.path@]);
    assert(kb.drop_first() =~= seq![b.kind.label_spec(), b.name@, b.path@]);
    assert(ka.drop_first().drop_first() =~= seq![a.name@, a.path@]);
    assert(kb.drop_first().drop_first() =~= seq![b.name@, b.path@]);
    assert(ka.drop_first().drop_first().drop_first() =~= seq![a.path@]);
    assert(kb.drop_first().drop_first().drop_first() =~= seq![b.path@]);
    assert(seq![a.path@].drop_first() =~= Seq::<Seq<char>>::empty());
    assert(seq![b.path@].drop_first() =~= Seq::<Seq<char>>::empty());
    proof {
        reveal_with_fuel(keys_lt, 5);
    }
    if !str_eq(a.source.label(), b.source.label()) {
        return str_lt(a.source.label(), b.source.label());
    }
    if !str_eq(a.kind.label(), b.kind.label()) {
        return str_lt(a.kind.label(), b.kind.label());
    }
    if !str_eq(a.name.as_str(), b.name.as_str()) {
        return str_lt(a.name.as_str(), b.name.as_str());
    }
    if !str_eq(a.path.as_str(), b.path.as_str()) {
        return str_lt(a.path.as_str(), b.path.as_str());
    }
    false
}

pub open spec fn enabled_by(p: CapabilityPreferences) -> spec_fn(CapabilityEntry) -> bool {
    |e: CapabilityEntry| p.enabled_spec(e)
}

pub open spec fn answers(query: Seq<char>) -> spec_fn(CapabilityEntry) -> bool {
    |e: CapabilityEntry| e.matches_spec(query)
}

pub open spec fn skill_answers(query: Seq<char>) -> spec_fn(CapabilityEntry) -> bool {
    |e: CapabilityEntry| e.kind == CapabilityKind::Skill && e.matches_spec(query)
}

pub open spec fn other_than(id: Seq<char>) -> spec_fn(Seq<char>) -> bool {
    |x: Seq<char>| x != id
}

/// The capabilities found, in order.
#[derive(Debug, Default, Clone, PartialEq, Eq)]
pub struct CapabilityIndex {
    pub entries: Vec<CapabilityEntry>,
}

impl CapabilityIndex {
    /// The index of the entries found, ordered by source, kind, name and path.
    pub fn from_entries(entries: Vec<CapabilityEntry>) -> (r: Self)
        ensures
            r.entries@ == sorted_entries(entries@),
    {
        let d = &entries;
        let before = |a: usize, b: usize| -> (r: bool)
            ensures
                r == (a < d@.len() && b < d@.len() && entry_lt(d@[a as int], d@[b as int])),
            { a < d.len() && b < d.len() && entry_lt_exec(&d[a], &d[b]) };
        let idx = sort_indices(index_vec(d.len()), &before, Ghost(capability_before(d@)));
        proof {
            crate::order::lemma_sort_by_permutes(index_range(d@.len()), capability_before(d@));
            assert forall|k: int| 0 <= k < idx@.len() implies idx@[k] < d@.len() by {
                crate::order::lemma_sort_by_contains(index_range(d@.len()), capability_before(d@), idx@[k]);
                assert(idx@.contains(idx@[k]));
            }
        }
        let mut out: Vec<CapabilityEntry> = Vec::new();
        let mut k: usize = 0;
        while k < idx.len()
            invariant
                k <= idx@.len(),
                forall|j: int| 0 <= j < idx@.len() ==> idx@[j] < d@.len(),
                out@ == idx@.take(k as int).map_values(|i: usize| d@[i as int]),
            decreases idx.len() - k,
        {
            out.push(d[idx[k]].copy());
            k = k + 1;
            assert(out@ =~= idx@.take(k as int).map_values(|i: usize| d@[i as int]));
        }
        assert(idx@.take(idx@.len() as int) =~= idx@);
        CapabilityIndex { entries: out }
    }

    /// The entries that the preferences leave enabled, in order.
    pub fn enabled_entries(&self, preferences: &CapabilityPreferences) -> (r: Vec<CapabilityEntry>)
        ensures
            r@ == self.entries@.filter(enabled_by(*preferences)),
    {
        let mut out: Vec<CapabilityEntry> = Vec::new();
        let mut i: usize = 0;
        while i < self.entries.len()
            invariant
                i <= self.entries.len(),
                out@ == self.entries@.take(i as int).filter(enabled_by(*preferences)),
            decreases self.entries.len() - i,
        {
            assert(self.entries@.take(i + 1).drop_last() =~= self.entries@.take(i as int));
            reveal(Seq::filter);
            if preferences.is_enabled(&self.entries[i]) {
                out.push(self.entries[i].copy());
            }
            i = i + 1;
        }
        assert(self.entries@.take(self.entries.len() as int) =~= self.entries@);
        out
    }

    /// The entries that answer a search, in order.
    pub fn matching(&self, query: &str) -> (r: Vec<CapabilityEntry>)
        ensures
            r@ == self.entries@.filter(answers(query@)),
    {
        let mut out: Vec<CapabilityEntry> = Vec::new();
        let mut i: usize = 0;
        while i < self.entries.len()
            invariant
                i <= self.entries.len(),
                out@ == self.entries@.take(i as int).filter(answers(query@)),
            decreases self.entries.len() - i,
        {
            assert(self.entries@.take(i + 1).drop_last() =~= self.entries@.take(i as int));
            reveal(Seq::filter);
            if self.entries[i].matches_query(query) {
                out.push(self.entries[i].copy());
            }
            i = i + 1;
        }
        assert(self.entries@.take(self.entries.len() as int) =~= self.entries@);
        out
    }

    /// The skills that answer a search, in order.
    pub fn matching_skills(&self, query: &str) -> (r: Vec<CapabilityEntry>)
        ensures
            r@ == self.entries@.filter(skill_answers(query@)),
    {
        let mut out: Vec<CapabilityEntry> = Vec::new();
        let mut i: usize = 0;
        while i < self.entries.len()
            invariant
                i <= self.entries.len(),
                out@ == self.entries@.take(i as int).filter(skill_answers(query@)),
            decreases self.entries.len() - i,
        {
            assert(self.entries@.take(i + 1).drop_last() =~= self.entries@.take(i as int));
            reveal(Seq::filter);
            let is_skill = match self.entries[i].kind {
                CapabilityKind::Skill => true,
                CapabilityKind::Extension => false,
            };
            if is_skill && self.entries[i].matches_query(query) {
                out.push(self.entries[i].copy());
            }
            i = i + 1;
        }
        assert(self.entries@.take(self.entries.len() as int) =~= self.entries@);
        out
    }
}

/// Which capabilities are switched off globally or in the project, and which the project
/// switches on; each list holds an id at most once.
#[derive(Debug, Default, Clone, PartialEq, Eq)]
pub struct CapabilityPreferences {
    pub global_disabled: Vec<String>,
    pub project_disabled: Vec<String>,
    pub project_enabled: Vec<String>,
    pub project_settings_path: String,
}

pub open spec fn no_repeats(v: Seq<Seq<char>>) -> bool {
    forall|i: int, j: int| 0 <= i < j < v.len() ==> v[i] != v[j]
}

fn contains_id(v: &Vec<String>, id: &str) -> (r: bool)
    ensures
        r == views(v@).contains(id@),
{
    let mut i: usize = 0;
    while i < v.len()
        invariant
            i <= v.len(),
            forall|j: int| 0 <= j < i ==> v@[j]@ != id@,
        decreases v.len() - i,
    {
        if str_eq(v[i].as_str(), id) {
            assert(views(v@)[i as int] == id@);
            return true;
        }
        i = i + 1;
    }
    proof {
        if views(v@).contains(id@) {
            let j = choose|j: int| 0 <= j < views(v@).len() && views(v@)[j] == id@;
            assert(v@[j]@ == id@);
        }
    }
    false
}

fn remove_id(v: &mut Vec<String>, id: &str)
    ensures
        views(final(v)@).to_set() == views(old(v)@).to_set().remove(id@),
        no_repeats(views(old(v)@)) ==> no_repeats(views(final(v)@)),
{
    let ghost start = views(v@);
    let mut out: Vec<String> = Vec::new();
    let mut i: usize = 0;
    while i < v.len()
        invariant
            i <= v.len(),
            views(v@) == start,
            views(out@) == start.take(i as int).filter(other_than(id@)),
        decreases v.len() - i,
    {
        assert(start.take(i + 1).drop_last() =~= start.take(i as int));
        reveal(Seq::filter);
        if !str_eq(v[i].as_str(), id) {
            let x = v[i].clone();
            let ghost prev = out@;
            out.push(x);
            assert(views(out@) =~= views(prev).push(x@));
        }
        i = i + 1;
    }
    assert(start.take(start.len() as int) =~= start);
    proof {
        lemma_filter_out(start, id@);
    }
    *v = out;
}

proof fn lemma_filter_out(s: Seq<Seq<char>>, id: Seq<char>)
    ensures
        s.filter(other_than(id)).to_set() == s.to_set().remove(id),
        no_repeats(s) ==> no_repeats(s.filter(other_than(id))),
    decreases s.len(),
{
    reveal(Seq::filter);
    broadcast use vstd::seq_lib::group_seq_properties;
    let f = s.filter(other_than(id));
    assert forall|x: Seq<char>| f.contains(x) <==> s.contains(x) && x != id by {
        if f.contains(x) {
            s.lemma_filter_contains_rev(other_than(id), x);
        }
        if s.contains(x) && x != id {
            let k = choose|k: int| 0 <= k < s.len() && s[k] == x;
            s.lemma_filter_contains(other_than(id), k);
        }
    }
    assert(f.to_set() =~= s.to_set().remove(id));
    if no_repeats(s) {
        if s.len() > 0 {
            lemma_filter_out(s.drop_last(), id);
            assert(no_repeats(s.drop_last()));
            let g = s.drop_last().filter(other_than(id));
            assert(s.drop_last().push(s.last()) =~= s);
            if s.last() != id {
                assert(f =~= g.push(s.last()));
                assert forall|k: int| 0 <= k < g.len() implies g[k] != s.last() by {
                    s.drop_last().lemma_filter_contains_rev(other_than(id), g[k]);
                    assert(g.contains(g[k]));
                    let m = choose|m: int| 0 <= m < s.drop_last().len() && s.drop_last()[m] == g[k];
                    assert(s[m] != s[s.len() - 1]);
                }
            } else {
                assert(f =~= g);
            }
        } else {
            assert(f =~= Seq::<Seq<char>>::empty());
        }
    }
}

fn insert_id(v: &mut Vec<String>, id: String)
    ensures
        views(final(v)@).to_set() == views(old(v)@).to_set().insert(id@),
        no_repeats(views(old(v)@)) ==> no_repeats(views(final(v)@)),
{
    broadcast use vstd::seq_lib::group_seq_properties;
    if !contains_id(v, id.as_str()) {
        let ghost start = views(v@);
        v.push(id);
        proof {
            assert(views(v@) =~= start.push(id@));
            assert(views(v@).to_set() =~= start.to_set().insert(id@));
        }
    } else {
        assert(views(v@).to_set() =~= views(v@).to_set().insert(id@));
    }
}

impl CapabilityPreferences {
    pub open spec fn wf(self) -> bool {
        &&& no_repeats(views(self.global_disabled@))
        &&& no_repeats(views(self.project_disabled@))
        &&& no_repeats(views(self.project_enabled@))
    }

    /// A capability is enabled when the project switches it on, or when neither the global
    /// nor the project settings switch it off.
    pub open spec fn enabled_spec(self, entry: CapabilityEntry) -> bool {
        let id = entry.stable_id_spec();
        views(self.project_enabled@).contains(id) || (!views(self.global_disabled@).contains(id)
            && !views(self.project_disabled@).contains(id))
    }

    pub fn is_enabled(&self, entry: &CapabilityEntry) -> (r: bool)
        ensures
            r == self.enabled_spec(*entry),
    {
        let id = entry.stable_id();
        contains_id(&self.project_enabled, id.as_str()) || (!contains_id(&self.global_disabled, id.as_str())
            && !contains_id(&self.project_disabled, id.as_str()))
    }

    /// Switches a capability on or off in the project's settings; whether it is then enabled
    /// is what was asked, and no other capability changes.
    pub fn set_enabled(&mut self, entry: &CapabilityEntry, enabled: bool)
        ensures
            final(self).enabled_spec(*entry) == enabled,
            final(self).global_disabled == old(self).global_disabled,
            final(self).project_settings_path == old(self).project_settings_path,
            old(self).wf() ==> final(self).wf(),
            ({
                let id = entry.stable_id_spec();
                &&& enabled ==> views(final(self).project_enabled@).to_set() == views(old(self).project_enabled@).to_set().insert(id)
                    && views(final(self).project_disabled@).to_set() == views(old(self).project_disabled@).to_set().remove(id)
                &&& !enabled ==> views(final(self).project_enabled@).to_set() == views(old(self).project_enabled@).to_set().remove(id)
                    && views(final(self).project_disabled@).to_set() == views(old(self).project_disabled@).to_set().insert(id)
            }),
    {
        broadcast use vstd::seq_lib::group_seq_properties;
        let id = entry.stable_id();
        if enabled {
            remove_id(&mut self.project_disabled, id.as_str());
            insert_id(&mut self.project_enabled, id.clone());
            assert(views(self.project_enabled@).to_set().contains(id@));
        } else {
            remove_id(&mut self.project_enabled, id.as_str());
            insert_id(&mut self.project_disabled, id.clone());
            assert(!views(self.project_enabled@).to_set().contains(id@));
            assert(views(self.project_disabled@).to_set().contains(id@));
        }
    }

    /// The project's lists as the settings file holds them, each sorted.
    pub fn project_settings_lists(&self) -> (r: (Vec<String>, Vec<String>))
        ensures
            r.0@ == sort_by(index_range(self.project_disabled@.len()), string_before(self.project_disabled@)).map_values(
                |i: usize| self.project_disabled@[i as int],
            ),
            r.1@ == sort_by(index_range(self.project_enabled@.len()), string_before(self.project_enabled@)).map_values(
                |i: usize| self.project_enabled@[i as int],
            ),
    {
        (sort_strings(&self.project_disabled), sort_strings(&self.project_enabled))
    }
}

pub open spec fn string_before(d: Seq<String>) -> spec_fn(usize, usize) -> bool {
    |a: usize, b: usize| a < d.len() && b < d.len() && lex_lt(d[a as int]@, d[b as int]@)
}

/// The strings in order.
pub fn sort_strings(v: &Vec<String>) -> (r: Vec<String>)
    ensures
        r@ == sort_by(index_range(v@.len()), string_before(v@)).map_values(|i: usize| v@[i as int]),
{
    let before = |a: usize, b: usize| -> (r: bool)
        ensures
            r == (a < v@.len() && b < v@.len() && lex_lt(v@[a as int]@, v@[b as int]@)),
        { a < v.len() && b < v.len() && str_lt(v[a].as_str(), v[b].as_str()) };
    let idx = sort_indices(index_vec(v.len()), &before, Ghost(string_before(v@)));
    proof {
        crate::order::lemma_sort_by_permutes(index_range(v@.len()), string_before(v@));
        assert forall|k: int| 0 <= k < idx@.len() implies idx@[k] < v@.len() by {
            crate::order::lemma_sort_by_contains(index_range(v@.len()), string_before(v@), idx@[k]);
            assert(idx@.contains(idx@[k]));
        }
    }
    let mut out: Vec<String> = Vec::new();
    let mut k: usize = 0;
    while k < idx.len()
        invariant
            k <= idx@.len(),
            forall|j: int| 0 <= j < idx@.len() ==> idx@[j] < v@.len(),
            out@ == idx@.take(k as int).map_values(|i: usize| v@[i as int]),
        decreases idx.len() - k,
    {
        let x = v[idx[k]].clone();
        out.push(x);
        k = k + 1;
        assert(out@ =~= idx@.take(k as int).map_values(|i: usize| v@[i as int]));
    }
    assert(idx@.take(idx@.len() as int) =~= idx@);
    out
}

} // verus!
