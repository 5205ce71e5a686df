//! The session tree: sessions under the sessions they were forked from, filtered by a query that
//! keeps the ancestors of what matches.
use vstd::prelude::*;
use crate::config::{index_range, index_vec};
use crate::keys::{clamp_index, clamp_selection, is_movement, move_index, move_selection, sat_sub, KeyCode, KeyInput};
use crate::model_picker::search_text;
use crate::order::{keep, keep_indices, sort_by};
use crate::session::SessionSummary;
use crate::session_picker::{
    opt_str, opt_text, prompt_input_after, query_after, sort_summary_indices, summary_before,
};
use crate::text::{
    cat3, contains, contains_seq, dec, pop_char, push_char, push_str, to_lowercase, trim,
    trim_seq, unicode_lowercase, usize_to_string,
};

verus! {

#[derive(Debug, Clone, PartialEq, Eq)]
pub struct SessionTreeState {
    pub summaries: Vec<SessionSummary>,
    pub query: String,
    pub selected: usize,
    pub show_paths: bool,
    pub newest_first: bool,
    pub prompt: Option<TreePrompt>,
}

#[derive(Debug, Clone, PartialEq, Eq)]
pub enum SessionTreeAction {
    Continue,
    Selected(String),
    Cancelled,
    RenameRequested { session_id: String, new_id: String },
    DeleteRequested { session_id: String },
    ForkRequested { session_id: String },
}

#[derive(Debug, Clone, PartialEq, Eq)]
pub enum TreePrompt {
    Rename { session_id: String, input: String },
    DeleteConfirm { session_id: String },
}

/// A row of the tree: a session and the drawing that places it.
#[derive(Debug, Clone)]
pub struct TreeRow<'a> {
    pub summary: &'a SessionSummary,
    pub prefix: String,
}

/// Some listed session has the id `p`.
pub open spec fn is_listed(s: Seq<SessionSummary>, p: Seq<char>) -> bool {
    exists|j: int| 0 <= j < s.len() && #[trigger] s[j].session.id@ == p
}

/// The session a summary is drawn under: its parent when that parent is listed, else none
/// (a root).
pub open spec fn parent_key(s: Seq<SessionSummary>, i: int) -> Option<Seq<char>> {
    match s[i].parent_session_id {
        Some(p) => if is_listed(s, p@) {
            Some(p@)
        } else {
            None
        },
        None => None,
    }
}

pub open spec fn child_filter(s: Seq<SessionSummary>, key: Option<Seq<char>>) -> spec_fn(
    usize,
) -> bool {
    |i: usize| i < s.len() && parent_key(s, i as int) == key
}

/// The sessions drawn under `key` (the roots for none), sorted by recency.
pub open spec fn children_of(s: Seq<SessionSummary>, key: Option<Seq<char>>, newest_first: bool) -> Seq<
    usize,
> {
    sort_by(keep(index_range(s.len()), child_filter(s, key)), summary_before(s, newest_first))
}

/// The sessions drawn under one parent come in order of recency: newest first, or oldest
/// first.
pub proof fn lemma_children_sorted(s: Seq<SessionSummary>, key: Option<Seq<char>>, newest_first: bool)
    ensures
        crate::order::sorted_by(children_of(s, key, newest_first), summary_before(s, newest_first)),
{
    let kept = keep(index_range(s.len()), child_filter(s, key));
    crate::model_picker::lemma_keep_in(index_range(s.len()), child_filter(s, key));
    assert forall|k: int| 0 <= k < kept.len() implies crate::order::below(s.len())(#[trigger] kept[k]) by {
        assert(index_range(s.len()).contains(kept[k]));
        let j = choose|j: int| 0 <= j < s.len() && index_range(s.len())[j] == kept[k];
    }
    crate::session_picker::lemma_summary_before_strict_weak(s, newest_first);
    crate::order::lemma_sort_by_sorted(kept, summary_before(s, newest_first), crate::order::below(s.len()));
}

/// A summary matches a search text when it is empty, or when one of its text fields (lower
/// cased), its event count or its statistics label contains it.
pub open spec fn tree_matches(s: SessionSummary, q: Seq<char>) -> bool {
    ||| q.len() == 0
    ||| contains_seq(unicode_lowercase(s.session.id@), q)
    ||| contains_seq(unicode_lowercase(opt_text(s.parent_session_id)), q)
    ||| contains_seq(unicode_lowercase(opt_text(s.cwd)), q)
    ||| contains_seq(unicode_lowercase(opt_text(s.app_version)), q)
    ||| contains_seq(unicode_lowercase(opt_text(s.ai_provider)), q)
    ||| contains_seq(unicode_lowercase(opt_text(s.ai_model)), q)
    ||| contains_seq(dec(s.event_count as nat), q)
    ||| contains_seq(unicode_lowercase(s.stats.compact_spec()), q)
}

fn session_matches(summary: &SessionSummary, query: &str) -> (r: bool)
    ensures
        r == tree_matches(*summary, query@),
{
    if query.is_empty() {
        return true;
    }
    contains(to_lowercase(summary.session.id.as_str()).as_str(), query) || contains(
        to_lowercase(opt_str(&summary.parent_session_id)).as_str(),
        query,
    ) || contains(to_lowercase(opt_str(&summary.cwd)).as_str(), query) || contains(
        to_lowercase(opt_str(&summary.app_version)).as_str(),
        query,
    ) || contains(to_lowercase(opt_str(&summary.ai_provider)).as_str(), query) || contains(
        to_lowercase(opt_str(&summary.ai_model)).as_str(),
        query,
    ) || contains(usize_to_string(summary.event_count).as_str(), query) || contains(
        to_lowercase(summary.stats.compact_label().as_str()).as_str(),
        query,
    )
}

/// The drawing before a row: a rail or a gap for each ancestor level, then a branch.
pub open spec fn prefix_spec(ancestors: Seq<bool>, is_last: bool) -> Seq<char>
    decreases ancestors.len(),
{
    if ancestors.len() == 0 {
        Seq::empty()
    } else {
        let rails = rails_spec(ancestors);
        rails + if is_last {
            "└─ "@
        } else {
            "├─ "@
        }
    }
}

pub open spec fn rails_spec(ancestors: Seq<bool>) -> Seq<char>
    decreases ancestors.len(),
{
    if ancestors.len() == 0 {
        Seq::empty()
    } else {
        rails_spec(ancestors.drop_last()) + if ancestors.last() {
            "│  "@
        } else {
            "   "@
        }
    }
}

pub fn tree_prefix(ancestors: &Vec<bool>, is_last: bool) -> (r: String)
    ensures
        r@ == prefix_spec(ancestors@, is_last),
{
    let mut prefix = String::new();
    let mut i: usize = 0;
    while i < ancestors.len()
        invariant
            i <= ancestors@.len(),
            prefix@ == rails_spec(ancestors@.take(i as int)),
        decreases ancestors.len() - i,
    {
        assert(ancestors@.take(i + 1).drop_last() =~= ancestors@.take(i as int));
        if ancestors[i] {
            push_str(&mut prefix, "│  ");
        } else {
            push_str(&mut prefix, "   ");
        }
        i = i + 1;
    }
    assert(ancestors@.take(ancestors@.len() as int) =~= ancestors@);
    if ancestors.len() > 0 {
        if is_last {
            push_str(&mut prefix, "└─ ");
        } else {
            push_str(&mut prefix, "├─ ");
        }
    }
    prefix
}

/// The rows of the subtree at `i`, when it shows: the session itself, then the rows of its
/// children. A subtree shows when the query is empty, the session matches, or some child's
/// subtree shows. `fuel` bounds the depth.
pub open spec fn block_spec(
    s: Seq<SessionSummary>,
    i: usize,
    ancestors: Seq<bool>,
    is_last: bool,
    q: Seq<char>,
    newest_first: bool,
    fuel: nat,
) -> Option<Seq<(usize, Seq<char>)>>
    decreases fuel, 0nat,
{
    if fuel == 0 || i >= s.len() {
        None
    } else {
        let children = children_of(s, Some(s[i as int].session.id@), newest_first);
        let (rows, any) = rows_spec(
            s,
            children,
            children.len(),
            ancestors.push(!is_last),
            q,
            newest_first,
            (fuel - 1) as nat,
        );
        if q.len() == 0 || tree_matches(s[i as int], q) || any {
            Some(seq![(i, prefix_spec(ancestors, is_last))] + rows)
        } else {
            None
        }
    }
}

/// The rows of the first `m` of `children`, and whether any of them shows.
pub open spec fn rows_spec(
    s: Seq<SessionSummary>,
    children: Seq<usize>,
    m: nat,
    ancestors: Seq<bool>,
    q: Seq<char>,
    newest_first: bool,
    fuel: nat,
) -> (Seq<(usize, Seq<char>)>, bool)
    decreases fuel, m,
{
    if m == 0 || m > children.len() {
        (Seq::empty(), false)
    } else {
        let (rows, any) = rows_spec(s, children, (m - 1) as nat, ancestors, q, newest_first, fuel);
        match block_spec(s, children[m - 1], ancestors, m == children.len(), q, newest_first, fuel) {
            Some(b) => (rows + b, true),
            None => (rows, any),
        }
    }
}

/// The rows of the whole tree: the roots' subtrees in order.
pub open spec fn tree_rows_spec(s: Seq<SessionSummary>, newest_first: bool, q: Seq<char>) -> Seq<
    (usize, Seq<char>),
> {
    let roots = children_of(s, None, newest_first);
    rows_spec(s, roots, roots.len(), Seq::empty(), q, newest_first, s.len()).0
}

pub open spec fn row_views(v: Seq<(usize, String)>) -> Seq<(usize, Seq<char>)> {
    v.map_values(|r: (usize, String)| (r.0, r.1@))
}

/// Whether some listed session has the id `p`.
fn is_listed_exec(s: &Vec<SessionSummary>, p: &str) -> (r: bool)
    ensures
        r == is_listed(s@, p@),
{
    let mut j: usize = 0;
    while j < s.len()
        invariant
            j <= s@.len(),
            forall|k: int| 0 <= k < j ==> s@[k].session.id@ != p@,
        decreases s.len() - j,
    {
        if crate::text::str_eq(s[j].session.id.as_str(), p) {
            return true;
        }
        j = j + 1;
    }
    false
}

/// Whether summary `i` is drawn under `key`.
fn has_parent_key(s: &Vec<SessionSummary>, i: usize, key: &Option<String>) -> (r: bool)
    ensures
        r == (i < s@.len() && parent_key(s@, i as int) == match key {
            Some(k) => Some(k@),
            None => None::<Seq<char>>,
        }),
{
    if i >= s.len() {
        return false;
    }
    let parent: Option<&str> = match &s[i].parent_session_id {
        Some(p) => if is_listed_exec(s, p.as_str()) {
            Some(p.as_str())
        } else {
            None
        },
        None => None,
    };
    match (parent, key) {
        (Some(p), Some(k)) => crate::text::str_eq(p, k.as_str()),
        (None, None) => true,
        _ => false,
    }
}

fn children_exec(s: &Vec<SessionSummary>, key: &Option<String>, newest_first: bool) -> (r: Vec<usize>)
    ensures
        r@ == children_of(
            s@,
            match key {
                Some(k) => Some(k@),
                None => None::<Seq<char>>,
            },
            newest_first,
        ),
{
    let ghost kv = match key {
        Some(k) => Some(k@),
        None => None::<Seq<char>>,
    };
    let f = |i: usize| -> (r: bool)
        ensures
            r == (i < s@.len() && parent_key(s@, i as int) == match key {
                Some(k) => Some(k@),
                None => None::<Seq<char>>,
            }),
        { has_parent_key(s, i, key) };
    let kept = keep_indices(&index_vec(s.len()), &f, Ghost(child_filter(s@, kv)));
    sort_summary_indices(kept, s, newest_first)
}

fn build_block(
    s: &Vec<SessionSummary>,
    i: usize,
    ancestors: &Vec<bool>,
    is_last: bool,
    q: &str,
    newest_first: bool,
    fuel: usize,
) -> (r: Option<Vec<(usize, String)>>)
    ensures
        match block_spec(s@, i, ancestors@, is_last, q@, newest_first, fuel as nat) {
            Some(b) => r matches Some(v) && row_views(v@) == b,
            None => r is None,
        },
    decreases fuel, 0nat,
{
    if fuel == 0 || i >= s.len() {
        return None;
    }
    let children = children_exec(s, &Some(s[i].session.id.clone()), newest_first);
    let mut next = ancestors.clone();
    next.push(!is_last);
    assert(next@ =~= ancestors@.push(!is_last));
    let (rows, any) = build_rows(s, &children, &next, q, newest_first, fuel - 1);
    if q.is_empty() || session_matches(&s[i], q) || any {
        let mut out: Vec<(usize, String)> = Vec::new();
        out.push((i, tree_prefix(ancestors, is_last)));
        let ghost head = row_views(out@);
        let mut k: usize = 0;
        while k < rows.len()
            invariant
                k <= rows@.len(),
                row_views(out@) == head + row_views(rows@.take(k as int)),
            decreases rows.len() - k,
        {
            let ghost old_out = row_views(out@);
            let item = (rows[k].0, rows[k].1.clone());
            out.push(item);
            assert(row_views(out@) =~= old_out.push((rows@[k as int].0, rows@[k as int].1@)));
            assert(rows@.take(k + 1) =~= rows@.take(k as int).push(rows@[k as int]));
            assert(row_views(rows@.take(k + 1)) =~= row_views(rows@.take(k as int)).push(
                (rows@[k as int].0, rows@[k as int].1@),
            ));
            k = k + 1;
            assert(row_views(out@) =~= head + row_views(rows@.take(k as int)));
        }
        assert(rows@.take(rows@.len() as int) =~= rows@);
        assert(row_views(out@) =~= seq![(i, prefix_spec(ancestors@, is_last))] + row_views(rows@));
        Some(out)
    } else {
        None
    }
}

fn build_rows(
    s: &Vec<SessionSummary>,
    children: &Vec<usize>,
    ancestors: &Vec<bool>,
    q: &str,
    newest_first: bool,
    fuel: usize,
) -> (r: (Vec<(usize, String)>, bool))
    ensures
        (row_views(r.0@), r.1) == rows_spec(
            s@,
            children@,
            children@.len(),
            ancestors@,
            q@,
            newest_first,
            fuel as nat,
        ),
    decreases fuel, 1nat,
{
    let mut out: Vec<(usize, String)> = Vec::new();
    let mut any = false;
    let mut m: usize = 0;
    while m < children.len()
        invariant
            m <= children@.len(),
            (row_views(out@), any) == rows_spec(
                s@,
                children@,
                m as nat,
                ancestors@,
                q@,
                newest_first,
                fuel as nat,
            ),
        decreases children.len() - m,
    {
        let is_last = m + 1 == children.len();
        match build_block(s, children[m], ancestors, is_last, q, newest_first, fuel) {
            Some(block) => {
                let ghost before = row_views(out@);
                let mut k: usize = 0;
                while k < block.len()
                    invariant
                        k <= block@.len(),
                        row_views(out@) == before + row_views(block@.take(k as int)),
                    decreases block.len() - k,
                {
                    let ghost old_out = row_views(out@);
                    let item = (block[k].0, block[k].1.clone());
                    out.push(item);
                    assert(row_views(out@) =~= old_out.push(
                        (block@[k as int].0, block@[k as int].1@),
                    ));
                    assert(block@.take(k + 1) =~= block@.take(k as int).push(block@[k as int]));
                    assert(row_views(block@.take(k + 1)) =~= row_views(block@.take(k as int)).push(
                        (block@[k as int].0, block@[k as int].1@),
                    ));
                    k = k + 1;
                    assert(row_views(out@) =~= before + row_views(block@.take(k as int)));
                }
                assert(block@.take(block@.len() as int) =~= block@);
                any = true;
            },
            None => {},
        }
        m = m + 1;
    }
    (out, any)
}

/// The rows of a tree of `summaries` for a query.
pub fn tree_row_indices(summaries: &Vec<SessionSummary>, query: &str, newest_first: bool) -> (r: Vec<(usize, String)>)
    ensures
        row_views(r@) == tree_rows_spec(summaries@, newest_first, search_text(query@)),
{
    let t = trim(query);
    let q = to_lowercase(t.as_str());
    let roots = children_exec(summaries, &None, newest_first);
    let anc: Vec<bool> = Vec::new();
    assert(anc@ =~= Seq::<bool>::empty());
    let (rows, _) = build_rows(summaries, &roots, &anc, q.as_str(), newest_first, summaries.len());
    rows
}

/// The rows shown after scrolling: `selected` as near the middle as the ends allow.
pub open spec fn window_start(total: int, area_height: int, selected: int) -> int {
    let height = if area_height < total {
        area_height
    } else {
        total
    };
    let start = sat_sub(selected, height / 2);
    if start + height > total {
        sat_sub(total, height)
    } else {
        start
    }
}

pub open spec fn window_end(total: int, area_height: int, selected: int) -> int {
    let height = if area_height < total {
        area_height
    } else {
        total
    };
    window_start(total, area_height, selected) + height
}

impl SessionTreeState {
    pub open spec fn rows(self) -> Seq<(usize, Seq<char>)> {
        tree_rows_spec(self.summaries@, self.newest_first, search_text(self.query@))
    }

    pub open spec fn shown(self) -> Seq<usize> {
        self.rows().map_values(|r: (usize, Seq<char>)| r.0)
    }

    pub open spec fn selected_spec(self) -> Option<SessionSummary> {
        if self.selected < self.shown().len() {
            Some(self.summaries@[self.shown()[self.selected as int] as int])
        } else {
            None
        }
    }

    pub fn new(summaries: Vec<SessionSummary>) -> (r: Self)
        ensures
            r.summaries@ == summaries@,
            r.query@.len() == 0,
            r.selected == 0,
            r.show_paths,
            r.newest_first,
            r.prompt is None,
    {
        SessionTreeState {
            summaries,
            query: String::new(),
            selected: 0,
            show_paths: true,
            newest_first: true,
            prompt: None,
        }
    }

    fn row_indices(&self) -> (r: Vec<(usize, String)>)
        ensures
            row_views(r@) == self.rows(),
            forall|k: int| 0 <= k < r@.len() ==> r@[k].0 < self.summaries@.len(),
    {
        let rows = tree_row_indices(&self.summaries, self.query.as_str(), self.newest_first);
        proof {
            lemma_rows_in_range(
                self.summaries@,
                children_of(self.summaries@, None, self.newest_first),
                Seq::empty(),
                search_text(self.query@),
                self.newest_first,
                self.summaries@.len(),
            );
            assert forall|k: int| 0 <= k < rows@.len() implies rows@[k].0 < self.summaries@.len() by {
                assert(row_views(rows@)[k].0 == rows@[k].0);
            }
        }
        rows
    }

    /// The rows of the tree: each root's subtree in turn, children under their parent, sorted
    /// by recency, with the drawing that places them.
    pub fn tree_rows(&self) -> (r: Vec<TreeRow<'_>>)
        ensures
            r@.len() == self.rows().len(),
            forall|k: int|
                0 <= k < r@.len() ==> *r@[k].summary == self.summaries@[self.rows()[k].0 as int]
                    && r@[k].prefix@ == self.rows()[k].1,
    {
        let rows = self.row_indices();
        let mut out: Vec<TreeRow<'_>> = Vec::new();
        let mut k: usize = 0;
        while k < rows.len()
            invariant
                k <= rows@.len(),
                row_views(rows@) == self.rows(),
                forall|j: int| 0 <= j < rows@.len() ==> rows@[j].0 < self.summaries@.len(),
                out@.len() == k,
                forall|j: int|
                    0 <= j < k ==> *out@[j].summary == self.summaries@[rows@[j].0 as int]
                        && out@[j].prefix@ == rows@[j].1@,
            decreases rows.len() - k,
        {
            out.push(TreeRow { summary: &self.summaries[rows[k].0], prefix: rows[k].1.clone() });
            k = k + 1;
        }
        proof {
            assert forall|j: int| 0 <= j < rows@.len() implies self.rows()[j] == (
                rows@[j].0,
                rows@[j].1@,
            ) by {
                assert(row_views(rows@)[j] == (rows@[j].0, rows@[j].1@));
            }
        }
        out
    }

    fn shown_indices(&self) -> (r: Vec<usize>)
        ensures
            r@ == self.shown(),
            forall|k: int| 0 <= k < r@.len() ==> r@[k] < self.summaries@.len(),
    {
        let rows = self.row_indices();
        let mut out: Vec<usize> = Vec::new();
        let mut k: usize = 0;
        while k < rows.len()
            invariant
                k <= rows@.len(),
                row_views(rows@) == self.rows(),
                forall|j: int| 0 <= j < rows@.len() ==> rows@[j].0 < self.summaries@.len(),
                out@ == row_views(rows@).take(k as int).map_values(|r: (usize, Seq<char>)| r.0),
            decreases rows.len() - k,
        {
            out.push(rows[k].0);
            k = k + 1;
            assert(out@ =~= row_views(rows@).take(k as int).map_values(|r: (usize, Seq<char>)| r.0));
        }
        assert(row_views(rows@).take(rows@.len() as int) =~= row_views(rows@));
        out
    }

    /// The summaries shown, in the order of the tree's rows.
    pub fn filtered_summaries(&self) -> (r: Vec<&SessionSummary>)
        ensures
            r@.len() == self.shown().len(),
            forall|k: int| 0 <= k < r@.len() ==> *r@[k] == self.summaries@[self.shown()[k] as int],
    {
        let idx = self.shown_indices();
        let mut out: Vec<&SessionSummary> = Vec::new();
        let mut k: usize = 0;
        while k < idx.len()
            invariant
                k <= idx@.len(),
                forall|j: int| 0 <= j < idx@.len() ==> idx@[j] < self.summaries@.len(),
                out@.len() == k,
                forall|j: int| 0 <= j < k ==> *out@[j] == self.summaries@[idx@[j] as int],
            decreases idx.len() - k,
        {
            out.push(&self.summaries[idx[k]]);
            k = k + 1;
        }
        out
    }

    pub fn set_summaries(&mut self, summaries: Vec<SessionSummary>)
        ensures
            final(self).summaries@ == summaries@,
            final(self).query == old(self).query,
            final(self).newest_first == old(self).newest_first,
            final(self).show_paths == old(self).show_paths,
            final(self).prompt == old(self).prompt,
            final(self).selected == clamp_index(old(self).selected as int, final(self).shown().len() as int),
    {
        self.summaries = summaries;
        self.clamp_selected();
    }

    pub fn selected_session(&self) -> (r: Option<&SessionSummary>)
        ensures
            match self.selected_spec() {
                Some(s) => r matches Some(x) && *x == s,
                None => r is None,
            },
    {
        let idx = self.shown_indices();
        if self.selected < idx.len() {
            Some(&self.summaries[idx[self.selected]])
        } else {
            None
        }
    }

    /// The line of the open prompt.
    pub fn prompt_label(&self) -> (r: Option<String>)
        ensures
            match self.prompt {
                Some(TreePrompt::Rename { input, .. }) => r matches Some(l) && l@ == "rename: "@
                    + input@ + "  (Enter save, Esc cancel)"@,
                Some(TreePrompt::DeleteConfirm { session_id }) => r matches Some(l) && l@
                    == "delete "@ + session_id@ + "?  (Enter/Y confirm, Esc cancel)"@,
                None => r is None,
            },
    {
        match &self.prompt {
            Some(TreePrompt::Rename { input, .. }) => Some(
                cat3("rename: ", input.as_str(), "  (Enter save, Esc cancel)"),
            ),
            Some(TreePrompt::DeleteConfirm { session_id }) => Some(
                cat3("delete ", session_id.as_str(), "?  (Enter/Y confirm, Esc cancel)"),
            ),
            None => None,
        }
    }

    fn clamp_selected(&mut self)
        ensures
            final(self).selected == clamp_index(old(self).selected as int, old(self).shown().len() as int),
            final(self).summaries@ == old(self).summaries@,
            final(self).query == old(self).query,
            final(self).newest_first == old(self).newest_first,
            final(self).show_paths == old(self).show_paths,
            final(self).prompt == old(self).prompt,
    {
        let len = self.shown_indices().len();
        self.selected = clamp_selection(self.selected, len);
    }

    /// What one key press does: from the tree `o`, `key` leads to the tree `n` and the action `r`.
    pub open spec fn key_step(o: Self, key: KeyInput, n: Self, r: SessionTreeAction) -> bool {
        &&& (n.summaries@ == o.summaries@)
        &&& (({
                match o.prompt {
                    Some(TreePrompt::Rename { session_id, input }) => {
                        &&& n.query == o.query && n.selected == o.selected
                        &&& n.show_paths == o.show_paths && n.newest_first == o.newest_first
                        &&& if key.code == KeyCode::Esc {
                            r == SessionTreeAction::Continue && n.prompt is None
                        } else if key.code == KeyCode::Enter {
                            n.prompt is None && (r matches SessionTreeAction::RenameRequested {
                                session_id: sid,
                                new_id,
                            } && sid@ == session_id@ && new_id@ == trim_seq(input@))
                        } else {
                            r == SessionTreeAction::Continue && (n.prompt matches Some(
                                TreePrompt::Rename { session_id: sid, input: i },
                            ) && sid@ == session_id@ && i@ == prompt_input_after(input@, key))
                        }
                    },
                    Some(TreePrompt::DeleteConfirm { session_id }) => {
                        &&& n.query == o.query && n.selected == o.selected
                        &&& n.show_paths == o.show_paths && n.newest_first == o.newest_first
                        &&& if key.code == KeyCode::Esc {
                            r == SessionTreeAction::Continue && n.prompt is None
                        } else if key.code == KeyCode::Enter || key.code == KeyCode::Char('y')
                            || key.code == KeyCode::Char('Y') {
                            n.prompt is None && (r matches SessionTreeAction::DeleteRequested {
                                session_id: sid,
                            } && sid@ == session_id@)
                        } else {
                            r == SessionTreeAction::Continue && n.prompt == o.prompt
                        }
                    },
                    None => {
                        &&& n.query@ == query_after(o.query@, key)
                        &&& if key.code == KeyCode::Esc || key.is_ctrl_char('c') {
                            r == SessionTreeAction::Cancelled && n.selected == o.selected
                                && n.prompt is None && n.show_paths == o.show_paths
                                && n.newest_first == o.newest_first
                        } else if key.code == KeyCode::Enter {
                            n.selected == o.selected && n.prompt is None && n.show_paths
                                == o.show_paths && n.newest_first == o.newest_first && match o.selected_spec() {
                                Some(s) => r matches SessionTreeAction::Selected(id) && id@
                                    == s.session.id@,
                                None => r == SessionTreeAction::Cancelled,
                            }
                        } else if is_movement(key.code) {
                            r == SessionTreeAction::Continue && n.selected == move_index(
                                o.selected as int,
                                o.shown().len() as int,
                                key.code,
                            ) && n.prompt is None && n.show_paths == o.show_paths
                                && n.newest_first == o.newest_first
                        } else if key.is_ctrl_char('p') {
                            r == SessionTreeAction::Continue && n.selected == o.selected
                                && n.prompt is None && n.show_paths == !o.show_paths
                                && n.newest_first == o.newest_first
                        } else if key.is_ctrl_char('s') {
                            r == SessionTreeAction::Continue && n.prompt is None && n.show_paths
                                == o.show_paths && n.newest_first == !o.newest_first && n.selected
                                == clamp_index(o.selected as int, n.shown().len() as int)
                        } else if key.is_ctrl_char('f') {
                            n.selected == o.selected && n.prompt is None && n.show_paths
                                == o.show_paths && n.newest_first == o.newest_first && match o.selected_spec() {
                                Some(s) => r matches SessionTreeAction::ForkRequested {
                                    session_id,
                                } && session_id@ == s.session.id@,
                                None => r == SessionTreeAction::Continue,
                            }
                        } else if key.is_ctrl_char('r') {
                            r == SessionTreeAction::Continue && n.selected == o.selected
                                && n.show_paths == o.show_paths && n.newest_first == o.newest_first
                                && match o.selected_spec() {
                                Some(s) => n.prompt matches Some(
                                    TreePrompt::Rename { session_id, input },
                                ) && session_id@ == s.session.id@ && input@ == s.session.id@,
                                None => n.prompt is None,
                            }
                        } else if key.is_ctrl_char('d') {
                            r == SessionTreeAction::Continue && n.selected == o.selected
                                && n.show_paths == o.show_paths && n.newest_first == o.newest_first
                                && match o.selected_spec() {
                                Some(s) => n.prompt matches Some(
                                    TreePrompt::DeleteConfirm { session_id },
                                ) && session_id@ == s.session.id@,
                                None => n.prompt is None,
                            }
                        } else if key.code == KeyCode::Backspace || key.typed_char() is Some {
                            r == SessionTreeAction::Continue && n.prompt is None && n.show_paths
                                == o.show_paths && n.newest_first == o.newest_first && n.selected
                                == clamp_index(o.selected as int, n.shown().len() as int)
                        } else {
                            r == SessionTreeAction::Continue && n.selected == o.selected
                                && n.prompt is None && n.show_paths == o.show_paths
                                && n.newest_first == o.newest_first
                        }
                    },
                }
            }))
    }

    /// Handles one key press, as the session picker does, with Control-F asking to fork the
    /// session under the cursor.
    pub fn handle_key(&mut self, key: KeyInput) -> (r: SessionTreeAction)
        ensures
            Self::key_step(*old(self), key, *final(self), r),
    {
        match &mut self.prompt {
            Some(TreePrompt::Rename { session_id, input }) => {
                if key.code == KeyCode::Esc {
                    self.prompt = None;
                    return SessionTreeAction::Continue;
                }
                if key.code == KeyCode::Enter {
                    let sid = session_id.clone();
                    let new_id = trim(input.as_str());
                    self.prompt = None;
                    return SessionTreeAction::RenameRequested { session_id: sid, new_id };
                }
                if key.code == KeyCode::Backspace {
                    pop_char(input);
                } else {
                    match key.typed() {
                        Some(c) => push_char(input, c),
                        None => {},
                    }
                }
                return SessionTreeAction::Continue;
            },
            Some(TreePrompt::DeleteConfirm { session_id }) => {
                if key.code == KeyCode::Esc {
                    self.prompt = None;
                    return SessionTreeAction::Continue;
                }
                if key.code == KeyCode::Enter || key.code == KeyCode::Char('y') || key.code
                    == KeyCode::Char('Y') {
                    let sid = session_id.clone();
                    self.prompt = None;
                    return SessionTreeAction::DeleteRequested { session_id: sid };
                }
                return SessionTreeAction::Continue;
            },
            None => {},
        }
        if key.code == KeyCode::Esc || key.ctrl_char('c') {
            return SessionTreeAction::Cancelled;
        }
        match key.code {
            KeyCode::Enter => {
                match self.selected_session() {
                    Some(s) => SessionTreeAction::Selected(s.session.id.clone()),
                    None => SessionTreeAction::Cancelled,
                }
            },
            KeyCode::Backspace => {
                pop_char(&mut self.query);
                self.clamp_selected();
                SessionTreeAction::Continue
            },
            KeyCode::Up | KeyCode::Down | KeyCode::PageUp | KeyCode::PageDown | KeyCode::Home
            | KeyCode::End => {
                let len = self.shown_indices().len();
                self.selected = move_selection(self.selected, len, key.code);
                SessionTreeAction::Continue
            },
            _ => {
                if key.ctrl_char('p') {
                    self.show_paths = !self.show_paths;
                } else if key.ctrl_char('s') {
                    self.newest_first = !self.newest_first;
                    self.clamp_selected();
                } else if key.ctrl_char('f') {
                    return match self.selected_session() {
                        Some(s) => SessionTreeAction::ForkRequested {
                            session_id: s.session.id.clone(),
                        },
                        None => SessionTreeAction::Continue,
                    };
                } else if key.ctrl_char('r') {
                    match self.selected_session() {
                        Some(s) => {
                            let p = TreePrompt::Rename {
                                session_id: s.session.id.clone(),
                                input: s.session.id.clone(),
                            };
                            self.prompt = Some(p);
                        },
                        None => {},
                    }
                } else if key.ctrl_char('d') {
                    match self.selected_session() {
                        Some(s) => {
                            let p = TreePrompt::DeleteConfirm { session_id: s.session.id.clone() };
                            self.prompt = Some(p);
                        },
                        None => {},
                    }
                } else {
                    match key.typed() {
                        Some(c) => {
                            push_char(&mut self.query, c);
                            self.clamp_selected();
                        },
                        None => {},
                    }
                }
                SessionTreeAction::Continue
            },
        }
    }
}

/// Every row of a subtree is a listed session.
proof fn lemma_block_in_range(
    s: Seq<SessionSummary>,
    i: usize,
    ancestors: Seq<bool>,
    is_last: bool,
    q: Seq<char>,
    newest_first: bool,
    fuel: nat,
)
    ensures
        block_spec(s, i, ancestors, is_last, q, newest_first, fuel) matches Some(b) ==> forall|k: int|
            0 <= k < b.len() ==> b[k].0 < s.len(),
    decreases fuel, 0nat,
{
    if fuel > 0 && i < s.len() {
        let children = children_of(s, Some(s[i as int].session.id@), newest_first);
        let anc2 = ancestors.push(!is_last);
        lemma_rows_in_range(s, children, anc2, q, newest_first, (fuel - 1) as nat);
        let (rows, any) = rows_spec(s, children, children.len(), anc2, q, newest_first, (fuel - 1) as nat);
        if q.len() == 0 || tree_matches(s[i as int], q) || any {
            let b = seq![(i, prefix_spec(ancestors, is_last))] + rows;
            assert(block_spec(s, i, ancestors, is_last, q, newest_first, fuel) == Some(b));
            assert forall|k: int| 0 <= k < b.len() implies b[k].0 < s.len() by {
                if k > 0 {
                    assert(b[k] == rows[k - 1]);
                }
            }
        }
    }
}

/// Every row of the children's subtrees is a listed session.
proof fn lemma_rows_in_range(
    s: Seq<SessionSummary>,
    children: Seq<usize>,
    ancestors: Seq<bool>,
    q: Seq<char>,
    newest_first: bool,
    fuel: nat,
)
    ensures
        forall|k: int|
            0 <= k < rows_spec(s, children, children.len(), ancestors, q, newest_first, fuel).0.len()
                ==> rows_spec(s, children, children.len(), ancestors, q, newest_first, fuel).0[k].0
                < s.len(),
    decreases fuel, 2nat,
{
    lemma_rows_prefix_in_range(s, children, children.len(), ancestors, q, newest_first, fuel);
}

proof fn lemma_rows_prefix_in_range(
    s: Seq<SessionSummary>,
    children: Seq<usize>,
    m: nat,
    ancestors: Seq<bool>,
    q: Seq<char>,
    newest_first: bool,
    fuel: nat,
)
    ensures
        forall|k: int|
            0 <= k < rows_spec(s, children, m, ancestors, q, newest_first, fuel).0.len()
                ==> rows_spec(s, children, m, ancestors, q, newest_first, fuel).0[k].0 < s.len(),
    decreases fuel, 1nat, m,
{
    if m > 0 && m <= children.len() {
        lemma_rows_prefix_in_range(s, children, (m - 1) as nat, ancestors, q, newest_first, fuel);
        lemma_block_in_range(s, children[m - 1], ancestors, m == children.len(), q, newest_first, fuel);
        let (rows, any) = rows_spec(s, children, (m - 1) as nat, ancestors, q, newest_first, fuel);
        match block_spec(s, children[m - 1], ancestors, m == children.len(), q, newest_first, fuel) {
            Some(b) => {
                let all = rows + b;
                assert(rows_spec(s, children, m, ancestors, q, newest_first, fuel).0 == all);
                assert forall|k: int| 0 <= k < all.len() implies all[k].0 < s.len() by {
                    if k >= rows.len() {
                        assert(all[k] == b[k - rows.len()]);
                    } else {
                        assert(all[k] == rows[k]);
                    }
                }
            },
            None => {},
        }
    }
}

/// The rows shown in a window of `area_height` lines, and the index of the first.
pub fn tree_window(state: &SessionTreeState, area_height: usize) -> (r: (usize, Vec<TreeRow<'_>>))
    ensures
        ({
            let total = state.rows().len() as int;
            if total == 0 || area_height == 0 {
                r.0 == 0 && r.1@.len() == 0
            } else {
                let start = window_start(total, area_height as int, state.selected as int);
                let end = window_end(total, area_height as int, state.selected as int);
                &&& r.0 == start
                &&& r.1@.len() == end - start
                &&& forall|k: int|
                    0 <= k < r.1@.len() ==> *r.1@[k].summary == state.summaries@[state.rows()[start + k].0 as int]
                        && r.1@[k].prefix@ == state.rows()[start + k].1
            }
        }),
{
    let rows = state.tree_rows();
    if rows.len() == 0 || area_height == 0 {
        return (0, Vec::new());
    }
    let total = rows.len();
    let height = if area_height < total {
        area_height
    } else {
        total
    };
    let mut start = state.selected.saturating_sub(height / 2);
    if start > total - height {
        start = total - height;
    }
    let mut out: Vec<TreeRow<'_>> = Vec::new();
    let mut k: usize = 0;
    while k < height
        invariant
            k <= height,
            start + height <= total,
            total == rows@.len(),
            out@.len() == k,
            forall|j: int| 0 <= j < k ==> out@[j] == rows@[start + j],
        decreases height - k,
    {
        out.push(TreeRow { summary: rows[start + k].summary, prefix: rows[start + k].prefix.clone() });
        k = k + 1;
    }
    (start, out)
}

} // verus!
