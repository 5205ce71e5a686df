//! The model picker: a filtered, sorted list of model options and a cursor over it.
use vstd::prelude::*;
use crate::config::{
    first_option, index_range, index_vec, lemma_first_option, option_before, ModelOption,
    ModelSelection,
};
use crate::keys::{clamp_index, clamp_selection, is_movement, move_index, move_selection, KeyCode, KeyInput};
use crate::order::{keep, keep_indices, sort_by, sort_indices};
use crate::text::{
    cat3, contains, contains_seq, pop_char, push_char, to_lowercase, to_owned_str, trim, trim_seq,
    unicode_lowercase,
};

verus! {

#[derive(Debug, Clone, PartialEq, Eq)]
pub struct ModelPickerState {
    pub options: Vec<ModelOption>,
    pub query: String,
    pub selected: usize,
    pub current_provider: String,
    pub current_model: String,
}

#[derive(Debug, Clone, PartialEq, Eq)]
pub enum ModelPickerAction {
    Continue,
    Selected(ModelSelection),
    Cancelled,
}

/// The search text of a query: trimmed and lower-cased.
pub open spec fn search_text(query: Seq<char>) -> Seq<char> {
    unicode_lowercase(trim_seq(query))
}

/// An option matches a search text when one of its lower-cased fields, or the name of one of its
/// capabilities, contains it.
pub open spec fn model_matches(o: ModelOption, q: Seq<char>) -> bool {
    ||| contains_seq(unicode_lowercase(o.provider@), q)
    ||| contains_seq(unicode_lowercase(o.model@), q)
    ||| contains_seq(unicode_lowercase(o.api@), q)
    ||| contains_seq(unicode_lowercase(o.base_url@), q)
    ||| contains_seq(unicode_lowercase(o.auth@), q)
    ||| o.tools && contains_seq("tools"@, q)
    ||| o.images && contains_seq("images"@, q)
    ||| o.reasoning && contains_seq("reasoning"@, q)
}

/// The options that match a search text.
pub open spec fn option_filter(opts: Seq<ModelOption>, q: Seq<char>) -> spec_fn(usize) -> bool {
    |i: usize| i < opts.len() && model_matches(opts[i as int], q)
}

/// The indices of the options shown for a search text: all options sorted by provider then
/// model, those that match kept.
pub open spec fn shown_options(opts: Seq<ModelOption>, q: Seq<char>) -> Seq<usize> {
    let sorted = sort_by(index_range(opts.len()), option_before(opts));
    if q.len() == 0 {
        sorted
    } else {
        keep(sorted, option_filter(opts, q))
    }
}

fn option_matches(o: &ModelOption, q: &str) -> (r: bool)
    ensures
        r == model_matches(*o, q@),
{
    proof {
        reveal_strlit("tools");
        reveal_strlit("images");
        reveal_strlit("reasoning");
    }
    contains(to_lowercase(o.provider.as_str()).as_str(), q) || contains(
        to_lowercase(o.model.as_str()).as_str(),
        q,
    ) || contains(to_lowercase(o.api.as_str()).as_str(), q) || contains(
        to_lowercase(o.base_url.as_str()).as_str(),
        q,
    ) || contains(to_lowercase(o.auth.as_str()).as_str(), q) || (o.tools && contains("tools", q))
        || (o.images && contains("images", q)) || (o.reasoning && contains("reasoning", q))
}

impl ModelPickerState {
    /// The options the picker chooses from.
    pub open spec fn options(self) -> Seq<ModelOption> {
        self.options@
    }

    pub open spec fn current(self) -> (Seq<char>, Seq<char>) {
        (self.current_provider@, self.current_model@)
    }

    /// The indices of the options shown, in order.
    pub open spec fn shown(self) -> Seq<usize> {
        shown_options(self.options(), search_text(self.query@))
    }

    /// The options shown, in order.
    pub open spec fn shown_list(self) -> Seq<ModelOption> {
        self.shown().map_values(|i: usize| self.options@[i as int])
    }

    /// The option under the cursor.
    pub open spec fn selected_spec(self) -> Option<ModelOption> {
        if self.selected < self.shown().len() {
            Some(self.options()[self.shown()[self.selected as int] as int])
        } else {
            None
        }
    }

    proof fn lemma_shown_in_range(self)
        ensures
            forall|k: int| 0 <= k < self.shown().len() ==> self.shown()[k] < self.options().len(),
    {
        let opts = self.options();
        let sorted = sort_by(index_range(opts.len()), option_before(opts));
        let q = search_text(self.query@);
        let p = option_filter(opts, q);
        assert forall|k: int| 0 <= k < sorted.len() implies sorted[k] < opts.len() by {
            crate::order::lemma_sort_by_contains(index_range(opts.len()), option_before(opts), sorted[k]);
            assert(sorted.contains(sorted[k]));
        }
        if q.len() > 0 {
            lemma_keep_in(sorted, p);
        }
    }

    fn shown_indices(&self) -> (r: Vec<usize>)
        ensures
            r@ == self.shown(),
            forall|k: int| 0 <= k < r@.len() ==> r@[k] < self.options().len(),
    {
        proof {
            self.lemma_shown_in_range();
        }
        let opts = &self.options;
        let before = |a: usize, b: usize| -> (r: bool)
            ensures
                r == (a < opts@.len() && b < opts@.len() && opts@[a as int].lt(opts@[b as int])),
            { a < opts.len() && b < opts.len() && opts[a].orders_before(&opts[b]) };
        let sorted = sort_indices(index_vec(opts.len()), &before, Ghost(option_before(opts@)));
        let t = trim(self.query.as_str());
        let q = to_lowercase(t.as_str());
        if q.as_str().is_empty() {
            return sorted;
        }
        let qs = q.as_str();
        let matches = |i: usize| -> (r: bool)
            ensures
                r == (i < opts@.len() && model_matches(opts@[i as int], qs@)),
            { i < opts.len() && option_matches(&opts[i], qs) };
        keep_indices(
            &sorted,
            &matches,
            Ghost(option_filter(opts@, qs@)),
        )
    }

    /// The options shown for the current query, sorted by provider then model.
    pub fn filtered_options(&self) -> (r: Vec<&ModelOption>)
        ensures
            r@.len() == self.shown().len(),
            forall|k: int| 0 <= k < r@.len() ==> *r@[k] == self.options()[self.shown()[k] as int],
    {
        let idx = self.shown_indices();
        let mut out: Vec<&ModelOption> = Vec::new();
        let mut k: usize = 0;
        while k < idx.len()
            invariant
                k <= idx@.len(),
                idx@ == self.shown(),
                forall|j: int| 0 <= j < idx@.len() ==> idx@[j] < self.options().len(),
                out@.len() == k,
                forall|j: int| 0 <= j < k ==> *out@[j] == self.options()[idx@[j] as int],
            decreases idx.len() - k,
        {
            out.push(&self.options[idx[k]]);
            k = k + 1;
        }
        out
    }

    /// A picker over `options` with an empty query and the cursor on the current model when it
    /// is listed.
    pub fn new(options: Vec<ModelOption>, current_provider: &str, current_model: &str) -> (r: Self)
        ensures
            r.options() == options@,
            r.current() == (current_provider@, current_model@),
            r.query@.len() == 0,
            match first_option(r.shown_list(), current_provider@, current_model@) {
                Some(k) => r.selected == k,
                None => r.selected == 0,
            },
    {
        let ghost opts0 = options@;
        let mut state = ModelPickerState {
            options,
            query: String::new(),
            selected: 0,
            current_provider: to_owned_str(current_provider),
            current_model: to_owned_str(current_model),
        };
        let idx = state.shown_indices();
        let ghost shown = state.shown_list();
        proof {
            lemma_first_option(shown, current_provider@, current_model@);
        }
        let mut k: usize = 0;
        while k < idx.len()
            invariant
                k <= idx@.len(),
                idx@ == state.shown(),
                state.options@ == opts0,
                opts0 == options@,
                state.current_provider@ == current_provider@,
                state.current_model@ == current_model@,
                state.query@.len() == 0,
                state.selected == 0,
                shown == state.shown_list(),
                forall|j: int| 0 <= j < idx@.len() ==> idx@[j] < state.options@.len(),
                forall|j: int| 0 <= j < k ==> !#[trigger] shown[j].is(current_provider@, current_model@),
            decreases idx.len() - k,
        {
            assert(shown[k as int] == state.options@[idx@[k as int] as int]);
            if state.options[idx[k]].is_model(current_provider, current_model) {
                proof {
                    lemma_first_option(shown, current_provider@, current_model@);
                }
                state.selected = k;
                return state;
            }
            k = k + 1;
        }
        proof {
            lemma_first_option(shown, current_provider@, current_model@);
            assert(shown.len() == idx@.len());
        }
        state
    }

    pub fn selected_option(&self) -> (r: Option<&ModelOption>)
        ensures
            match self.selected_spec() {
                Some(o) => r matches Some(x) && *x == o,
                None => r is None,
            },
    {
        let idx = self.shown_indices();
        if self.selected < idx.len() {
            Some(&self.options[idx[self.selected]])
        } else {
            None
        }
    }

    /// `provider/model` of the current model.
    pub fn current_label(&self) -> (r: String)
        ensures
            r@ == self.current().0 + "/"@ + self.current().1,
    {
        cat3(self.current_provider.as_str(), "/", self.current_model.as_str())
    }

    fn clamp_selected(&mut self)
        ensures
            final(self).selected == clamp_index(old(self).selected as int, old(self).shown().len() as int),
            final(self).options() == old(self).options(),
            final(self).current() == old(self).current(),
            final(self).query == old(self).query,
    {
        let len = self.shown_indices().len();
        self.selected = clamp_selection(self.selected, len);
    }

    /// What one key press does: from the picker `o`, `key` leads to the picker `n` and the action `r`.
    pub open spec fn key_step(o: Self, key: KeyInput, n: Self, r: ModelPickerAction) -> bool {
        &&& (n.options() == o.options())
        &&& (n.current() == o.current())
        &&& (({
                if key.code == KeyCode::Esc || key.is_ctrl_char('c') {
                    r == ModelPickerAction::Cancelled && n.query@ == o.query@ && n.selected
                        == o.selected
                } else if key.code == KeyCode::Enter {
                    n.query@ == o.query@ && n.selected == o.selected && match o.selected_spec() {
                        Some(opt) => r matches ModelPickerAction::Selected(s) && s.provider@
                            == opt.provider@ && s.model@ == opt.model@,
                        None => r == ModelPickerAction::Cancelled,
                    }
                } else if key.code == KeyCode::Backspace {
                    r == ModelPickerAction::Continue && n.query@ == (if o.query@.len() > 0 {
                        o.query@.drop_last()
                    } else {
                        o.query@
                    }) && n.selected == clamp_index(o.selected as int, n.shown().len() as int)
                } else if is_movement(key.code) {
                    r == ModelPickerAction::Continue && n.query@ == o.query@ && n.selected
                        == move_index(o.selected as int, o.shown().len() as int, key.code)
                } else if key.typed_char() is Some {
                    r == ModelPickerAction::Continue && n.query@ == o.query@.push(
                        key.typed_char()->0,
                    ) && n.selected == clamp_index(o.selected as int, n.shown().len() as int)
                } else {
                    r == ModelPickerAction::Continue && n.query@ == o.query@ && n.selected
                        == o.selected
                }
            }))
    }

    /// Handles one key press: typing and Backspace edit the query, the movement keys move the
    /// cursor, Enter chooses the option under it, Esc or Control-C cancels.
    pub fn handle_key(&mut self, key: KeyInput) -> (r: ModelPickerAction)
        ensures
            Self::key_step(*old(self), key, *final(self), r),
    {
        if key.code == KeyCode::Esc || key.ctrl_char('c') {
            return ModelPickerAction::Cancelled;
        }
        match key.code {
            KeyCode::Enter => {
                match self.selected_option() {
                    Some(option) => ModelPickerAction::Selected(
                        ModelSelection {
                            provider: option.provider.clone(),
                            model: option.model.clone(),
                        },
                    ),
                    None => ModelPickerAction::Cancelled,
                }
            },
            KeyCode::Backspace => {
                pop_char(&mut self.query);
                self.clamp_selected();
                ModelPickerAction::Continue
            },
            KeyCode::Up | KeyCode::Down | KeyCode::PageUp | KeyCode::PageDown | KeyCode::Home
            | KeyCode::End => {
                let len = self.shown_indices().len();
                self.selected = move_selection(self.selected, len, key.code);
                ModelPickerAction::Continue
            },
            _ => {
                match key.typed() {
                    Some(c) => {
                        push_char(&mut self.query, c);
                        self.clamp_selected();
                    },
                    None => {},
                }
                ModelPickerAction::Continue
            },
        }
    }
}

/// Every element kept is an element of the sequence.
pub proof fn lemma_keep_in(s: Seq<usize>, p: spec_fn(usize) -> bool)
    ensures
        forall|k: int| 0 <= k < keep(s, p).len() ==> s.contains(#[trigger] keep(s, p)[k]),
    decreases s.len(),
{
    if s.len() > 0 {
        lemma_keep_in(s.drop_last(), p);
        assert forall|k: int| 0 <= k < keep(s, p).len() implies s.contains(
            #[trigger] keep(s, p)[k],
        ) by {
            if k < keep(s.drop_last(), p).len() {
                let x = keep(s.drop_last(), p)[k];
                assert(s.drop_last().contains(x));
                let j = choose|j: int| 0 <= j < s.drop_last().len() && s.drop_last()[j] == x;
                assert(s[j] == x);
            } else {
                assert(s[s.len() - 1] == s.last());
            }
        }
    }
}

} // verus!
