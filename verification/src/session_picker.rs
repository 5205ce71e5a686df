//! The session picker: saved sessions, most recent first, filtered by a query, with prompts to
//! rename or delete the one under the cursor.
use vstd::prelude::*;
use crate::config::{index_range, index_vec};
use crate::keys::{clamp_index, clamp_selection, is_movement, move_index, move_selection, KeyCode, KeyInput};
use crate::model_picker::search_text;
use crate::order::{keep, keep_indices, pair_lt, sort_by, sort_indices, str_lt};
use crate::session::SessionSummary;
use crate::text::{
    cat3, contains, contains_seq, dec, pop_char, push_char, to_lowercase, trim, trim_seq,
    unicode_lowercase, usize_to_string,
};

verus! {

#[derive(Debug, Clone, PartialEq, Eq)]
pub struct SessionPickerState {
    pub summaries: Vec<SessionSummary>,
    pub query: String,
    pub selected: usize,
    pub show_paths: bool,
    pub newest_first: bool,
    pub prompt: Option<PickerPrompt>,
}

#[derive(Debug, Clone, PartialEq, Eq)]
pub enum SessionPickerAction {
    Continue,
    Selected(String),
    Cancelled,
    RenameRequested { session_id: String, new_id: String },
    DeleteRequested { session_id: String },
}

#[derive(Debug, Clone, PartialEq, Eq)]
pub enum PickerPrompt {
    Rename { session_id: String, input: String },
    DeleteConfirm { session_id: String },
}

/// The text of an optional field, empty when absent.
pub open spec fn opt_text(s: Option<String>) -> Seq<char> {
    match s {
        Some(t) => t@,
        None => Seq::empty(),
    }
}

pub fn opt_str(s: &Option<String>) -> (r: &str)
    ensures
        r@ == opt_text(*s),
{
    match s {
        Some(t) => t.as_str(),
        None => {
            proof {
                reveal_strlit("");
            }
            ""
        },
    }
}

/// Summaries are ordered by their last timestamp (empty when unknown), then by session id.
pub open spec fn summary_lt(a: SessionSummary, b: SessionSummary) -> bool {
    pair_lt(opt_text(a.last_timestamp), a.session.id@, opt_text(b.last_timestamp), b.session.id@)
}

pub fn summary_orders_before(a: &SessionSummary, b: &SessionSummary) -> (r: bool)
    ensures
        r == summary_lt(*a, *b),
{
    let at = opt_str(&a.last_timestamp);
    let bt = opt_str(&b.last_timestamp);
    str_lt(at, bt) || (crate::text::str_eq(at, bt) && str_lt(a.session.id.as_str(), b.session.id.as_str()))
}

/// Summaries listed newest first, or oldest first.
pub open spec fn summary_before(s: Seq<SessionSummary>, newest_first: bool) -> spec_fn(
    usize,
    usize,
) -> bool {
    |a: usize, b: usize|
        a < s.len() && b < s.len() && if newest_first {
            summary_lt(s[b as int], s[a as int])
        } else {
            summary_lt(s[a as int], s[b as int])
        }
}

/// Listing by recency, either way, is a strict weak order on the indices of `s`.
pub proof fn lemma_summary_before_strict_weak(s: Seq<SessionSummary>, newest_first: bool)
    ensures
        crate::order::strict_weak_on(summary_before(s, newest_first), crate::order::below(s.len())),
{
    let before = summary_before(s, newest_first);
    let dom = crate::order::below(s.len());
    assert forall|a: usize, b: usize| dom(a) && dom(b) && #[trigger] before(a, b) implies !before(b, a) by {
        crate::order::lemma_pair_lt_order(
            opt_text(s[b as int].last_timestamp),
            s[b as int].session.id@,
            opt_text(s[a as int].last_timestamp),
            s[a as int].session.id@,
            s[a as int].session.id@,
            s[a as int].session.id@,
        );
    }
    assert forall|a: usize, b: usize, c: usize|
        #![trigger before(a, b), before(b, c)]
        dom(a) && dom(b) && dom(c) && !before(a, b) && !before(b, c) implies !before(a, c) by {
        if newest_first {
            crate::order::lemma_pair_not_lt_trans(
                opt_text(s[a as int].last_timestamp),
                s[a as int].session.id@,
                opt_text(s[b as int].last_timestamp),
                s[b as int].session.id@,
                opt_text(s[c as int].last_timestamp),
                s[c as int].session.id@,
            );
        } else {
            crate::order::lemma_pair_not_lt_trans(
                opt_text(s[c as int].last_timestamp),
                s[c as int].session.id@,
                opt_text(s[b as int].last_timestamp),
                s[b as int].session.id@,
                opt_text(s[a as int].last_timestamp),
                s[a as int].session.id@,
            );
        }
    }
}

/// Sorts the indices `v` of `s` by recency.
pub fn sort_summary_indices(v: Vec<usize>, s: &Vec<SessionSummary>, newest_first: bool) -> (r: Vec<usize>)
    ensures
        r@ == sort_by(v@, summary_before(s@, newest_first)),
{
    let before = |a: usize, b: usize| -> (r: bool)
        ensures
            r == (a < s@.len() && b < s@.len() && if newest_first {
                summary_lt(s@[b as int], s@[a as int])
            } else {
                summary_lt(s@[a as int], s@[b as int])
            }),
        {
            a < s.len() && b < s.len() && if newest_first {
                summary_orders_before(&s[b], &s[a])
            } else {
                summary_orders_before(&s[a], &s[b])
            }
        };
    sort_indices(v, &before, Ghost(summary_before(s@, newest_first)))
}

/// A summary matches a search text when its id, directory, version, event count or statistics
/// label contains it (the text fields lower-cased).
pub open spec fn picker_matches(s: SessionSummary, q: Seq<char>) -> bool {
    ||| contains_seq(unicode_lowercase(s.session.id@), q)
    ||| contains_seq(unicode_lowercase(opt_text(s.cwd)), q)
    ||| contains_seq(unicode_lowercase(opt_text(s.app_version)), q)
    ||| contains_seq(dec(s.event_count as nat), q)
    ||| contains_seq(unicode_lowercase(s.stats.compact_spec()), q)
}

/// Whether a summary matches a (lower-cased) search text.
pub fn session_matches(summary: &SessionSummary, query: &str) -> (r: bool)
    ensures
        r == picker_matches(*summary, query@),
{
    contains(to_lowercase(summary.session.id.as_str()).as_str(), query) || contains(
        to_lowercase(opt_str(&summary.cwd)).as_str(),
        query,
    ) || contains(to_lowercase(opt_str(&summary.app_version)).as_str(), query) || contains(
        usize_to_string(summary.event_count).as_str(),
        query,
    ) || contains(to_lowercase(summary.stats.compact_label().as_str()).as_str(), query)
}

pub open spec fn picker_filter(s: Seq<SessionSummary>, q: Seq<char>) -> spec_fn(usize) -> bool {
    |i: usize| i < s.len() && picker_matches(s[i as int], q)
}

/// The indices of the summaries shown: all sorted by recency, those that match kept.
pub open spec fn picker_shown(s: Seq<SessionSummary>, newest_first: bool, q: Seq<char>) -> Seq<
    usize,
> {
    let sorted = sort_by(index_range(s.len()), summary_before(s, newest_first));
    if q.len() == 0 {
        sorted
    } else {
        keep(sorted, picker_filter(s, q))
    }
}

/// Where the prompt goes after a key press, and whether the key finished it.
pub open spec fn prompt_input_after(input: Seq<char>, key: KeyInput) -> Seq<char> {
    if key.code == KeyCode::Backspace {
        if input.len() > 0 {
            input.drop_last()
        } else {
            input
        }
    } else if key.typed_char() is Some {
        input.push(key.typed_char()->0)
    } else {
        input
    }
}

/// The query after a key press outside a prompt.
pub open spec fn query_after(query: Seq<char>, key: KeyInput) -> Seq<char> {
    if key.code == KeyCode::Backspace {
        if query.len() > 0 {
            query.drop_last()
        } else {
            query
        }
    } else if key.typed_char() is Some && !key.is_ctrl_char('c') {
        query.push(key.typed_char()->0)
    } else {
        query
    }
}

impl SessionPickerState {
    pub open spec fn shown(self) -> Seq<usize> {
        picker_shown(self.summaries@, self.newest_first, search_text(self.query@))
    }

    pub open spec fn selected_spec(self) -> Option<SessionSummary> {
        if self.selected < self.shown().len() {
            Some(self.summaries@[self.shown()[self.selected as int] as int])
        } else {
            None
        }
    }

    pub fn new(summaries: Vec<SessionSummary>) -> (r: Self)
        ensures
            r.summaries@ == summaries@,
            r.query@.len() == 0,
            r.selected == 0,
            r.show_paths,
            r.newest_first,
            r.prompt is None,
    {
        SessionPickerState {
            summaries,
            query: String::new(),
            selected: 0,
            show_paths: true,
            newest_first: true,
            prompt: None,
        }
    }

    proof fn lemma_shown_in_range(self)
        ensures
            forall|k: int| 0 <= k < self.shown().len() ==> self.shown()[k] < self.summaries@.len(),
    {
        let s = self.summaries@;
        let sorted = sort_by(index_range(s.len()), summary_before(s, self.newest_first));
        assert forall|k: int| 0 <= k < sorted.len() implies sorted[k] < s.len() by {
            crate::order::lemma_sort_by_contains(
                index_range(s.len()),
                summary_before(s, self.newest_first),
                sorted[k],
            );
            assert(sorted.contains(sorted[k]));
        }
        crate::model_picker::lemma_keep_in(sorted, picker_filter(s, search_text(self.query@)));
    }

    fn shown_indices(&self) -> (r: Vec<usize>)
        ensures
            r@ == self.shown(),
            forall|k: int| 0 <= k < r@.len() ==> r@[k] < self.summaries@.len(),
            trim_seq(self.query@).len() == 0 ==> r@.len() == self.summaries@.len(),
    {
        proof {
            self.lemma_shown_in_range();
        }
        let s = &self.summaries;
        let sorted = sort_summary_indices(index_vec(s.len()), s, self.newest_first);
        assert(sorted@.len() == s@.len()) by {
            crate::order::lemma_sort_by_permutes(index_range(s@.len()), summary_before(s@, self.newest_first));
        }
        let t = trim(self.query.as_str());
        let q = to_lowercase(t.as_str());
        if q.as_str().is_empty() {
            return sorted;
        }
        let qs = q.as_str();
        let matches = |i: usize| -> (r: bool)
            ensures
                r == (i < s@.len() && picker_matches(s@[i as int], qs@)),
            { i < s.len() && session_matches(&s[i], qs) };
        keep_indices(&sorted, &matches, Ghost(picker_filter(s@, qs@)))
    }

    pub fn set_summaries(&mut self, summaries: Vec<SessionSummary>)
        ensures
            final(self).summaries@ == summaries@,
            final(self).query == old(self).query,
            final(self).newest_first == old(self).newest_first,
            final(self).show_paths == old(self).show_paths,
            final(self).prompt == old(self).prompt,
            final(self).selected == clamp_index(old(self).selected as int, final(self).shown().len() as int),
    {
        self.summaries = summaries;
        self.clamp_selected();
    }

    /// The summaries shown, in order: sorted by recency, filtered by the query.
    pub fn filtered_summaries(&self) -> (r: Vec<&SessionSummary>)
        ensures
            r@.len() == self.shown().len(),
            forall|k: int| 0 <= k < r@.len() ==> *r@[k] == self.summaries@[self.shown()[k] as int],
            trim_seq(self.query@).len() == 0 ==> r@.len() == self.summaries@.len(),
            forall|i: int, j: int|
                0 <= i < j < r@.len() ==> if self.newest_first {
                    !summary_lt(*#[trigger] r@[i], *#[trigger] r@[j])
                } else {
                    !summary_lt(*r@[j], *r@[i])
                },
    {
        proof {
            self.lemma_shown_sorted();
        }
        let idx = self.shown_indices();
        let mut out: Vec<&SessionSummary> = Vec::new();
        let mut k: usize = 0;
        while k < idx.len()
            invariant
                k <= idx@.len(),
                forall|j: int| 0 <= j < idx@.len() ==> idx@[j] < self.summaries@.len(),
                out@.len() == k,
                forall|j: int| 0 <= j < k ==> *out@[j] == self.summaries@[idx@[j] as int],
            decreases idx.len() - k,
        {
            out.push(&self.summaries[idx[k]]);
            k = k + 1;
        }
        proof {
            assert forall|i: int, j: int| 0 <= i < j < out@.len() implies (if self.newest_first {
                !summary_lt(*#[trigger] out@[i], *#[trigger] out@[j])
            } else {
                !summary_lt(*out@[j], *out@[i])
            }) by {
                assert(!summary_before(self.summaries@, self.newest_first)(idx@[j], idx@[i]));
            }
        }
        out
    }

    /// The summaries shown are in order of recency.
    proof fn lemma_shown_sorted(self)
        ensures
            crate::order::sorted_by(self.shown(), summary_before(self.summaries@, self.newest_first)),
    {
        let s = self.summaries@;
        let before = summary_before(s, self.newest_first);
        let all = index_range(s.len());
        lemma_summary_before_strict_weak(s, self.newest_first);
        assert forall|k: int| 0 <= k < all.len() implies crate::order::below(s.len())(#[trigger] all[k]) by {}
        crate::order::lemma_sort_by_sorted(all, before, crate::order::below(s.len()));
        crate::order::lemma_keep_sorted(sort_by(all, before), picker_filter(s, search_text(self.query@)), before);
    }

    pub fn selected_session(&self) -> (r: Option<&SessionSummary>)
        ensures
            match self.selected_spec() {
                Some(s) => r matches Some(x) && *x == s,
                None => r is None,
            },
    {
        let idx = self.shown_indices();
        if self.selected < idx.len() {
            Some(&self.summaries[idx[self.selected]])
        } else {
            None
        }
    }

    /// The line of the open prompt.
    pub fn prompt_label(&self) -> (r: Option<String>)
        ensures
            match self.prompt {
                Some(PickerPrompt::Rename { input, .. }) => r matches Some(l) && l@ == "rename: "@
                    + input@ + "  (Enter save, Esc cancel)"@,
                Some(PickerPrompt::DeleteConfirm { session_id }) => r matches Some(l) && l@
                    == "delete "@ + session_id@ + "?  (Enter/Y confirm, Esc cancel)"@,
                None => r is None,
            },
    {
        match &self.prompt {
            Some(PickerPrompt::Rename { input, .. }) => Some(
                cat3("rename: ", input.as_str(), "  (Enter save, Esc cancel)"),
            ),
            Some(PickerPrompt::DeleteConfirm { session_id }) => Some(
                cat3("delete ", session_id.as_str(), "?  (Enter/Y confirm, Esc cancel)"),
            ),
            None => None,
        }
    }

    fn clamp_selected(&mut self)
        ensures
            final(self).selected == clamp_index(old(self).selected as int, old(self).shown().len() as int),
            final(self).summaries@ == old(self).summaries@,
            final(self).query == old(self).query,
            final(self).newest_first == old(self).newest_first,
            final(self).show_paths == old(self).show_paths,
            final(self).prompt == old(self).prompt,
    {
        let len = self.shown_indices().len();
        self.selected = clamp_selection(self.selected, len);
    }

    /// What one key press does: from the picker `o`, `key` leads to the picker `n` and the action `r`.
    pub open spec fn key_step(o: Self, key: KeyInput, n: Self, r: SessionPickerAction) -> bool {
        &&& (n.summaries@ == o.summaries@)
        &&& (({
                match o.prompt {
                    Some(PickerPrompt::Rename { session_id, input }) => {
                        &&& n.query == o.query && n.selected == o.selected
                        &&& n.show_paths == o.show_paths && n.newest_first == o.newest_first
                        &&& if key.code == KeyCode::Esc {
                            r == SessionPickerAction::Continue && n.prompt is None
                        } else if key.code == KeyCode::Enter {
                            n.prompt is None && (r matches SessionPickerAction::RenameRequested {
                                session_id: sid,
                                new_id,
                            } && sid@ == session_id@ && new_id@ == trim_seq(input@))
                        } else {
                            r == SessionPickerAction::Continue && (n.prompt matches Some(
                                PickerPrompt::Rename { session_id: sid, input: i },
                            ) && sid@ == session_id@ && i@ == prompt_input_after(input@, key))
                        }
                    },
                    Some(PickerPrompt::DeleteConfirm { session_id }) => {
                        &&& n.query == o.query && n.selected == o.selected
                        &&& n.show_paths == o.show_paths && n.newest_first == o.newest_first
                        &&& if key.code == KeyCode::Esc {
                            r == SessionPickerAction::Continue && n.prompt is None
                        } else if key.code == KeyCode::Enter || key.code == KeyCode::Char('y')
                            || key.code == KeyCode::Char('Y') {
                            n.prompt is None && (r matches SessionPickerAction::DeleteRequested {
                                session_id: sid,
                            } && sid@ == session_id@)
                        } else {
                            r == SessionPickerAction::Continue && n.prompt == o.prompt
                        }
                    },
                    None => {
                        &&& n.query@ == query_after(o.query@, key)
                        &&& if key.code == KeyCode::Esc || key.is_ctrl_char('c') {
                            r == SessionPickerAction::Cancelled && n.selected == o.selected
                                && n.prompt is None && n.show_paths == o.show_paths
                                && n.newest_first == o.newest_first
                        } else if key.code == KeyCode::Enter {
                            n.selected == o.selected && n.prompt is None && n.show_paths
                                == o.show_paths && n.newest_first == o.newest_first && match o.selected_spec() {
                                Some(s) => r matches SessionPickerAction::Selected(id) && id@
                                    == s.session.id@,
                                None => r == SessionPickerAction::Cancelled,
                            }
                        } else if is_movement(key.code) {
                            r == SessionPickerAction::Continue && n.selected == move_index(
                                o.selected as int,
                                o.shown().len() as int,
                                key.code,
                            ) && n.prompt is None && n.show_paths == o.show_paths
                                && n.newest_first == o.newest_first
                        } else if key.is_ctrl_char('p') {
                            r == SessionPickerAction::Continue && n.selected == o.selected
                                && n.prompt is None && n.show_paths == !o.show_paths
                                && n.newest_first == o.newest_first
                        } else if key.is_ctrl_char('s') {
                            r == SessionPickerAction::Continue && n.prompt is None && n.show_paths
                                == o.show_paths && n.newest_first == !o.newest_first && n.selected
                                == clamp_index(o.selected as int, n.shown().len() as int)
                        } else if key.is_ctrl_char('r') {
                            r == SessionPickerAction::Continue && n.selected == o.selected
                                && n.show_paths == o.show_paths && n.newest_first == o.newest_first
                                && match o.selected_spec() {
                                Some(s) => n.prompt matches Some(
                                    PickerPrompt::Rename { session_id, input },
                                ) && session_id@ == s.session.id@ && input@ == s.session.id@,
                                None => n.prompt is None,
                            }
                        } else if key.is_ctrl_char('d') {
                            r == SessionPickerAction::Continue && n.selected == o.selected
                                && n.show_paths == o.show_paths && n.newest_first == o.newest_first
                                && match o.selected_spec() {
                                Some(s) => n.prompt matches Some(
                                    PickerPrompt::DeleteConfirm { session_id },
                                ) && session_id@ == s.session.id@,
                                None => n.prompt is None,
                            }
                        } else if key.code == KeyCode::Backspace || key.typed_char() is Some {
                            r == SessionPickerAction::Continue && n.prompt is None && n.show_paths
                                == o.show_paths && n.newest_first == o.newest_first && n.selected
                                == clamp_index(o.selected as int, n.shown().len() as int)
                        } else {
                            r == SessionPickerAction::Continue && n.selected == o.selected
                                && n.prompt is None && n.show_paths == o.show_paths
                                && n.newest_first == o.newest_first
                        }
                    },
                }
            }))
    }

    /// Handles one key press. In a prompt: Esc closes it, Enter finishes it (a rename with the
    /// trimmed input, a deletion also on `y`), and the rename input is edited. Otherwise as the
    /// model picker, with Control-P showing or hiding paths, Control-S flipping the order,
    /// Control-R and Control-D opening the prompts for the session under the cursor.
    pub fn handle_key(&mut self, key: KeyInput) -> (r: SessionPickerAction)
        ensures
            Self::key_step(*old(self), key, *final(self), r),
    {
        match &mut self.prompt {
            Some(PickerPrompt::Rename { session_id, input }) => {
                if key.code == KeyCode::Esc {
                    self.prompt = None;
                    return SessionPickerAction::Continue;
                }
                if key.code == KeyCode::Enter {
                    let sid = session_id.clone();
                    let new_id = trim(input.as_str());
                    self.prompt = None;
                    return SessionPickerAction::RenameRequested { session_id: sid, new_id };
                }
                if key.code == KeyCode::Backspace {
                    pop_char(input);
                } else {
                    match key.typed() {
                        Some(c) => push_char(input, c),
                        None => {},
                    }
                }
                return SessionPickerAction::Continue;
            },
            Some(PickerPrompt::DeleteConfirm { session_id }) => {
                if key.code == KeyCode::Esc {
                    self.prompt = None;
                    return SessionPickerAction::Continue;
                }
                if key.code == KeyCode::Enter || key.code == KeyCode::Char('y') || key.code
                    == KeyCode::Char('Y') {
                    let sid = session_id.clone();
                    self.prompt = None;
                    return SessionPickerAction::DeleteRequested { session_id: sid };
                }
                return SessionPickerAction::Continue;
            },
            None => {},
        }
        if key.code == KeyCode::Esc || key.ctrl_char('c') {
            return SessionPickerAction::Cancelled;
        }
        match key.code {
            KeyCode::Enter => {
                match self.selected_session() {
                    Some(s) => SessionPickerAction::Selected(s.session.id.clone()),
                    None => SessionPickerAction::Cancelled,
                }
            },
            KeyCode::Backspace => {
                pop_char(&mut self.query);
                self.clamp_selected();
                SessionPickerAction::Continue
            },
            KeyCode::Up | KeyCode::Down | KeyCode::PageUp | KeyCode::PageDown | KeyCode::Home
            | KeyCode::End => {
                let len = self.shown_indices().len();
                self.selected = move_selection(self.selected, len, key.code);
                SessionPickerAction::Continue
            },
            _ => {
                if key.ctrl_char('p') {
                    self.show_paths = !self.show_paths;
                } else if key.ctrl_char('s') {
                    self.newest_first = !self.newest_first;
                    self.clamp_selected();
                } else if key.ctrl_char('r') {
                    match self.selected_session() {
                        Some(s) => {
                            let p = PickerPrompt::Rename {
                                session_id: s.session.id.clone(),
                                input: s.session.id.clone(),
                            };
                            self.prompt = Some(p);
                        },
                        None => {},
                    }
                } else if key.ctrl_char('d') {
                    match self.selected_session() {
                        Some(s) => {
                            let p = PickerPrompt::DeleteConfirm { session_id: s.session.id.clone() };
                            self.prompt = Some(p);
                        },
                        None => {},
                    }
                } else {
                    match key.typed() {
                        Some(c) => {
                            push_char(&mut self.query, c);
                            self.clamp_selected();
                        },
                        None => {},
                    }
                }
                SessionPickerAction::Continue
            },
        }
    }
}

} // verus!
