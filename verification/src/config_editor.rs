//! The configuration editor: a list of model options, a field cursor, and a prompt that edits
//! one field.
use vstd::prelude::*;
use crate::config::{default_model_option, find_option_index, first_option, lemma_first_option, ModelOption, PicocodeConfig};
use crate::keys::{sat_sub, KeyCode, KeyInput};
use crate::text::{
    ascii_lower, cat, cat3, dec, eq_ignore_ascii_case, pop_char, push_char, push_str,
    to_owned_str, trim, trim_seq, usize_to_string,
};

verus! {

#[derive(Debug, Clone, Copy, PartialEq, Eq, Structural)]
pub enum ConfigField {
    Provider,
    Model,
    BaseUrl,
    Api,
    Auth,
    Tools,
    Images,
    Reasoning,
}

#[derive(Debug, Clone, PartialEq, Eq)]
pub enum ConfigPrompt {
    Edit { field: ConfigField, input: String, secret: bool },
}

#[derive(Debug, Clone, PartialEq, Eq)]
pub enum ConfigEditorAction {
    Continue,
    Saved(PicocodeConfig),
    Cancelled,
}

#[derive(Debug, Clone, PartialEq, Eq)]
pub struct ConfigEditorState {
    pub options: Vec<ModelOption>,
    pub selected_model: usize,
    pub selected_field: ConfigField,
    pub prompt: Option<ConfigPrompt>,
}

// ---------------------------------------------------------------------------
// Fields

/// The position of a field in the editor's order.
pub open spec fn field_index(f: ConfigField) -> int {
    match f {
        ConfigField::Provider => 0,
        ConfigField::Model => 1,
        ConfigField::BaseUrl => 2,
        ConfigField::Api => 3,
        ConfigField::Auth => 4,
        ConfigField::Tools => 5,
        ConfigField::Images => 6,
        ConfigField::Reasoning => 7,
    }
}

/// The field at a position (taken modulo the number of fields).
pub open spec fn field_at(i: int) -> ConfigField {
    let k = i % 8;
    if k == 0 {
        ConfigField::Provider
    } else if k == 1 {
        ConfigField::Model
    } else if k == 2 {
        ConfigField::BaseUrl
    } else if k == 3 {
        ConfigField::Api
    } else if k == 4 {
        ConfigField::Auth
    } else if k == 5 {
        ConfigField::Tools
    } else if k == 6 {
        ConfigField::Images
    } else {
        ConfigField::Reasoning
    }
}

/// The text of a field of an option, as an edit starts from it.
pub open spec fn field_value(f: ConfigField, o: ModelOption) -> Seq<char> {
    match f {
        ConfigField::Provider => o.provider@,
        ConfigField::Model => o.model@,
        ConfigField::BaseUrl => o.base_url@,
        ConfigField::Api => o.api@,
        ConfigField::Auth => o.auth@,
        ConfigField::Tools => bool_text(o.tools),
        ConfigField::Images => bool_text(o.images),
        ConfigField::Reasoning => bool_text(o.reasoning),
    }
}

pub open spec fn bool_text(b: bool) -> Seq<char> {
    if b {
        "true"@
    } else {
        "false"@
    }
}

pub open spec fn on_off(b: bool) -> Seq<char> {
    if b {
        "on"@
    } else {
        "off"@
    }
}

pub open spec fn is_toggle_field(f: ConfigField) -> bool {
    f == ConfigField::Tools || f == ConfigField::Images || f == ConfigField::Reasoning
}

/// An option with a toggle field flipped; other fields leave it as it is.
pub open spec fn toggled(f: ConfigField, o: ModelOption) -> ModelOption {
    match f {
        ConfigField::Tools => ModelOption { tools: !o.tools, ..o },
        ConfigField::Images => ModelOption { images: !o.images, ..o },
        ConfigField::Reasoning => ModelOption { reasoning: !o.reasoning, ..o },
        _ => o,
    }
}

/// The text in lower case, ASCII letters only.
pub open spec fn ascii_lowercase(s: Seq<char>) -> Seq<char> {
    s.map_values(|c: char| ascii_lower(c))
}

/// The truth value a word names, ignoring case and surrounding white space.
pub open spec fn bool_word(s: Seq<char>) -> Option<bool> {
    let t = ascii_lowercase(trim_seq(s));
    if t == "1"@ || t == "true"@ || t == "yes"@ || t == "on"@ {
        Some(true)
    } else if t == "0"@ || t == "false"@ || t == "no"@ || t == "off"@ {
        Some(false)
    } else {
        None
    }
}

proof fn lemma_ignore_case_lower(t: Seq<char>, w: Seq<char>)
    requires
        forall|i: int| 0 <= i < w.len() ==> #[trigger] ascii_lower(w[i]) == w[i],
    ensures
        (t.len() == w.len() && forall|i: int|
            0 <= i < t.len() ==> ascii_lower(#[trigger] t[i]) == ascii_lower(w[i])) == (
        ascii_lowercase(t) == w),
{
    if ascii_lowercase(t) == w {
        assert forall|i: int| 0 <= i < t.len() implies ascii_lower(#[trigger] t[i]) == ascii_lower(
            w[i],
        ) by {
            assert(ascii_lowercase(t)[i] == ascii_lower(t[i]));
        }
    }
    if t.len() == w.len() && forall|i: int|
        0 <= i < t.len() ==> ascii_lower(#[trigger] t[i]) == ascii_lower(w[i]) {
        assert(ascii_lowercase(t) =~= w);
    }
}

pub fn is_word(t: &str, w: &str) -> (r: bool)
    requires
        forall|i: int| 0 <= i < w@.len() ==> #[trigger] ascii_lower(w@[i]) == w@[i],
    ensures
        r == (ascii_lowercase(t@) == w@),
{
    proof {
        lemma_ignore_case_lower(t@, w@);
    }
    eq_ignore_ascii_case(t, w)
}

/// Reads a truth value: `1`, `true`, `yes`, `on` or `0`, `false`, `no`, `off`, in any case.
pub fn parse_bool(value: &str) -> (r: Option<bool>)
    ensures
        r == bool_word(value@),
{
    let t = trim(value);
    let ts = t.as_str();
    proof {
        reveal_strlit("1");
        reveal_strlit("true");
        reveal_strlit("yes");
        reveal_strlit("on");
        reveal_strlit("0");
        reveal_strlit("false");
        reveal_strlit("no");
        reveal_strlit("off");
    }
    if is_word(ts, "1") || is_word(ts, "true") || is_word(ts, "yes") || is_word(ts, "on") {
        Some(true)
    } else if is_word(ts, "0") || is_word(ts, "false") || is_word(ts, "no") || is_word(ts, "off") {
        Some(false)
    } else {
        None
    }
}

/// An option with a field set from edited text; a toggle field takes the truth value the text
/// names and stays as it was when it names none.
pub open spec fn with_field(f: ConfigField, o: ModelOption, value: String) -> ModelOption {
    match f {
        ConfigField::Provider => ModelOption { provider: value, ..o },
        ConfigField::Model => ModelOption { model: value, ..o },
        ConfigField::BaseUrl => ModelOption { base_url: value, ..o },
        ConfigField::Api => ModelOption { api: value, ..o },
        ConfigField::Auth => ModelOption { auth: value, ..o },
        ConfigField::Tools => ModelOption {
            tools: match bool_word(value@) {
                Some(b) => b,
                None => o.tools,
            },
            ..o
        },
        ConfigField::Images => ModelOption {
            images: match bool_word(value@) {
                Some(b) => b,
                None => o.images,
            },
            ..o
        },
        ConfigField::Reasoning => ModelOption {
            reasoning: match bool_word(value@) {
                Some(b) => b,
                None => o.reasoning,
            },
            ..o
        },
    }
}

fn bool_string(b: bool) -> (r: String)
    ensures
        r@ == bool_text(b),
{
    if b {
        to_owned_str("true")
    } else {
        to_owned_str("false")
    }
}

fn bool_label(b: bool) -> (r: String)
    ensures
        r@ == on_off(b),
{
    if b {
        to_owned_str("on")
    } else {
        to_owned_str("off")
    }
}

impl ConfigField {
    /// The fields in the editor's order.
    pub fn all() -> (r: [ConfigField; 8])
        ensures
            forall|i: int| 0 <= i < 8 ==> #[trigger] r@[i] == field_at(i),
    {
        [
            ConfigField::Provider,
            ConfigField::Model,
            ConfigField::BaseUrl,
            ConfigField::Api,
            ConfigField::Auth,
            ConfigField::Tools,
            ConfigField::Images,
            ConfigField::Reasoning,
        ]
    }

    pub open spec fn label_spec(self) -> Seq<char> {
        match self {
            ConfigField::Provider => "provider"@,
            ConfigField::Model => "model"@,
            ConfigField::BaseUrl => "base_url"@,
            ConfigField::Api => "api"@,
            ConfigField::Auth => "auth"@,
            ConfigField::Tools => "tools"@,
            ConfigField::Images => "images"@,
            ConfigField::Reasoning => "reasoning"@,
        }
    }

    pub fn label(self) -> (r: &'static str)
        ensures
            r@ == self.label_spec(),
    {
        match self {
            ConfigField::Provider => "provider",
            ConfigField::Model => "model",
            ConfigField::BaseUrl => "base_url",
            ConfigField::Api => "api",
            ConfigField::Auth => "auth",
            ConfigField::Tools => "tools",
            ConfigField::Images => "images",
            ConfigField::Reasoning => "reasoning",
        }
    }

    pub fn current_value(self, option: &ModelOption) -> (r: String)
        ensures
            r@ == field_value(self, *option),
    {
        match self {
            ConfigField::Provider => option.provider.clone(),
            ConfigField::Model => option.model.clone(),
            ConfigField::BaseUrl => option.base_url.clone(),
            ConfigField::Api => option.api.clone(),
            ConfigField::Auth => option.auth.clone(),
            ConfigField::Tools => bool_string(option.tools),
            ConfigField::Images => bool_string(option.images),
            ConfigField::Reasoning => bool_string(option.reasoning),
        }
    }

    pub fn set_value(self, option: &mut ModelOption, value: String)
        ensures
            *final(option) == with_field(self, *old(option), value),
    {
        match self {
            ConfigField::Provider => option.provider = value,
            ConfigField::Model => option.model = value,
            ConfigField::BaseUrl => option.base_url = value,
            ConfigField::Api => option.api = value,
            ConfigField::Auth => option.auth = value,
            ConfigField::Tools => {
                option.tools = match parse_bool(value.as_str()) {
                    Some(b) => b,
                    None => option.tools,
                }
            },
            ConfigField::Images => {
                option.images = match parse_bool(value.as_str()) {
                    Some(b) => b,
                    None => option.images,
                }
            },
            ConfigField::Reasoning => {
                option.reasoning = match parse_bool(value.as_str()) {
                    Some(b) => b,
                    None => option.reasoning,
                }
            },
        }
    }

    pub fn is_toggle(self) -> (r: bool)
        ensures
            r == is_toggle_field(self),
    {
        match self {
            ConfigField::Tools | ConfigField::Images | ConfigField::Reasoning => true,
            _ => false,
        }
    }

    pub fn toggle(self, option: &mut ModelOption)
        ensures
            *final(option) == toggled(self, *old(option)),
    {
        match self {
            ConfigField::Tools => option.tools = !option.tools,
            ConfigField::Images => option.images = !option.images,
            ConfigField::Reasoning => option.reasoning = !option.reasoning,
            _ => {},
        }
    }

    fn index(self) -> (r: usize)
        ensures
            r == field_index(self),
    {
        match self {
            ConfigField::Provider => 0,
            ConfigField::Model => 1,
            ConfigField::BaseUrl => 2,
            ConfigField::Api => 3,
            ConfigField::Auth => 4,
            ConfigField::Tools => 5,
            ConfigField::Images => 6,
            ConfigField::Reasoning => 7,
        }
    }

    /// The field after this one, the first after the last.
    pub fn next(self) -> (r: Self)
        ensures
            r == field_at(field_index(self) + 1),
    {
        let fields = ConfigField::all();
        fields[(self.index() + 1) % 8]
    }

    /// The field before this one, the last before the first.
    pub fn previous(self) -> (r: Self)
        ensures
            r == field_at(field_index(self) + 7),
    {
        let fields = ConfigField::all();
        fields[(self.index() + 8 - 1) % 8]
    }

    /// The text shown for a field: `on`/`off` for toggles.
    pub fn display_value(self, option: &ModelOption) -> (r: String)
        ensures
            r@ == if is_toggle_field(self) {
                on_off(
                    match self {
                        ConfigField::Tools => option.tools,
                        ConfigField::Images => option.images,
                        _ => option.reasoning,
                    },
                )
            } else {
                field_value(self, *option)
            },
    {
        match self {
            ConfigField::Auth => option.auth.clone(),
            ConfigField::Tools => bool_label(option.tools),
            ConfigField::Images => bool_label(option.images),
            ConfigField::Reasoning => bool_label(option.reasoning),
            _ => self.current_value(option),
        }
    }
}

/// Moving to the next field and back returns to the same field, in either order.
pub proof fn lemma_next_previous(f: ConfigField)
    ensures
        field_at(field_index(field_at(field_index(f) + 1)) + 7) == f,
        field_at(field_index(field_at(field_index(f) + 7)) + 1) == f,
{
}

// ---------------------------------------------------------------------------
// Copy names

/// The `k`-th name tried for a copy of `base`: `base-copy`, then `base-copy-2`, `base-copy-3`...
pub open spec fn copy_name(base: Seq<char>, k: nat) -> Seq<char> {
    if k <= 1 {
        base + "-copy"@
    } else {
        base + "-copy-"@ + dec(k)
    }
}

/// Some option already has the model name `name`.
pub open spec fn name_taken(opts: Seq<ModelOption>, name: Seq<char>) -> bool {
    exists|j: int| 0 <= j < opts.len() && #[trigger] opts[j].model@ == name
}

fn copy_name_exec(base: &str, k: u128) -> (r: String)
    ensures
        r@ == copy_name(base@, k as nat),
{
    if k <= 1 {
        cat(base, "-copy")
    } else {
        cat3(base, "-copy-", crate::text::u128_to_string(k).as_str())
    }
}

fn is_name_taken(opts: &Vec<ModelOption>, name: &str) -> (r: bool)
    ensures
        r == name_taken(opts@, name@),
{
    let mut j: usize = 0;
    while j < opts.len()
        invariant
            j <= opts@.len(),
            forall|i: int| 0 <= i < j ==> opts@[i].model@ != name@,
        decreases opts.len() - j,
    {
        if crate::text::str_eq(opts[j].model.as_str(), name) {
            return true;
        }
        j = j + 1;
    }
    false
}

/// The first copy name of `base` that no option has, trying as many names as there are options
/// and one more.
pub fn unique_model_name(base: &str, opts: &Vec<ModelOption>) -> (r: String)
    ensures
        forall|k: nat|
            1 <= k <= opts@.len() + 1 && !name_taken(opts@, copy_name(base@, k)) && (forall|j: nat|
                1 <= j < k ==> name_taken(opts@, #[trigger] copy_name(base@, j))) ==> r@
                == copy_name(base@, k),
{
    let n = opts.len() as u128;
    let mut k: u128 = 1;
    while k <= n
        invariant
            n == opts@.len(),
            n <= usize::MAX,
            1 <= k <= opts@.len() + 1,
            forall|j: nat| 1 <= j < k ==> name_taken(opts@, #[trigger] copy_name(base@, j)),
        decreases n + 1 - k,
    {
        let candidate = copy_name_exec(base, k);
        if !is_name_taken(opts, candidate.as_str()) {
            return candidate;
        }
        k = k + 1;
    }
    copy_name_exec(base, k)
}

// ---------------------------------------------------------------------------
// The editor

/// An option with the values `PicocodeConfig::default()` selects.
pub open spec fn is_default_option(o: ModelOption) -> bool {
    &&& o.provider@ == "openai"@ && o.model@ == "gpt-5"@
    &&& o.api@ == "openai-chat-completions"@ && o.base_url@ == "https://api.openai.com/v1"@
    &&& o.auth@ == "OPENAI_API_KEY"@ && !o.tools && !o.images && !o.reasoning
}

/// The other options saved beside the selected one: in order, without the selected model and
/// each model of a provider once.
pub open spec fn saved_rest(opts: Seq<ModelOption>, sel: int, m: nat) -> Seq<ModelOption>
    decreases m,
{
    if m == 0 || m > opts.len() {
        Seq::empty()
    } else {
        let rest = saved_rest(opts, sel, (m - 1) as nat);
        let o = opts[m - 1];
        if m - 1 != sel && !o.is(opts[sel].provider@, opts[sel].model@) && first_option(
            rest,
            o.provider@,
            o.model@,
        ) is None {
            rest.push(o)
        } else {
            rest
        }
    }
}

impl ConfigEditorState {
    /// The options being edited.
    pub open spec fn options(self) -> Seq<ModelOption> {
        self.options@
    }

    /// There is an option, and the cursor is on one.
    pub open spec fn wf(self) -> bool {
        self.options().len() > 0 && self.selected_model < self.options().len()
    }

    pub open spec fn current_spec(self) -> Option<ModelOption> {
        if self.selected_model < self.options().len() {
            Some(self.options()[self.selected_model as int])
        } else {
            None
        }
    }

    /// An editor over `options` (the default model when there are none), with the cursor on
    /// the current model when it is listed, and on `focus_field` or the provider.
    pub fn new(
        options: Vec<ModelOption>,
        current_provider: &str,
        current_model: &str,
        focus_field: Option<ConfigField>,
    ) -> (r: Self)
        ensures
            options@.len() > 0 ==> r.options() == options@,
            options@.len() == 0 ==> r.options().len() == 1 && is_default_option(r.options()[0]),
            r.selected_model == match first_option(r.options(), current_provider@, current_model@) {
                Some(i) => i,
                None => 0,
            },
            r.selected_field == match focus_field {
                Some(f) => f,
                None => ConfigField::Provider,
            },
            r.prompt is None,
            r.wf(),
    {
        let opts = if options.len() == 0 {
            let mut v: Vec<ModelOption> = Vec::new();
            v.push(default_model_option());
            v
        } else {
            options
        };
        let field = match focus_field {
            Some(f) => f,
            None => ConfigField::Provider,
        };
        proof {
            lemma_first_option(opts@, current_provider@, current_model@);
        }
        let selected = match find_option_index(&opts, current_provider, current_model) {
            Some(i) => i,
            None => 0,
        };
        ConfigEditorState { options: opts, selected_model: selected, selected_field: field, prompt: None }
    }

    /// Whether there is an option and the cursor is on one.
    pub fn is_well_formed(&self) -> (r: bool)
        ensures
            r == self.wf(),
    {
        self.options.len() > 0 && self.selected_model < self.options.len()
    }

    pub fn current_option(&self) -> (r: Option<&ModelOption>)
        ensures
            match self.current_spec() {
                Some(o) => r matches Some(x) && *x == o,
                None => r is None,
            },
    {
        if self.selected_model < self.options.len() {
            Some(&self.options[self.selected_model])
        } else {
            None
        }
    }

    /// `provider/model` of the option under the cursor, `none` without one.
    pub fn current_label(&self) -> (r: String)
        ensures
            r@ == match self.current_spec() {
                Some(o) => o.provider@ + "/"@ + o.model@,
                None => "none"@,
            },
    {
        match self.current_option() {
            Some(o) => cat3(o.provider.as_str(), "/", o.model.as_str()),
            None => to_owned_str("none"),
        }
    }

    pub fn summary_label(&self) -> (r: String)
        ensures
            r@ == dec(self.options().len()) + " model(s)  ·  current: "@ + match self.current_spec() {
                Some(o) => o.provider@ + "/"@ + o.model@,
                None => "none"@,
            },
    {
        let mut s = usize_to_string(self.options.len());
        push_str(&mut s, " model(s)  ·  current: ");
        push_str(&mut s, self.current_label().as_str());
        s
    }

    pub fn prompt_label(&self) -> (r: Option<String>)
        ensures
            match self.prompt {
                Some(ConfigPrompt::Edit { field, input, .. }) => r matches Some(l) && l@ == (if field
                    == ConfigField::Auth {
                    "auth (env var name or raw key)"@
                } else {
                    field.label_spec()
                }) + ": "@ + (if input@.len() == 0 {
                    "<empty>"@
                } else {
                    input@
                }) + "  (Enter save, Esc cancel)"@,
                None => r is None,
            },
    {
        match &self.prompt {
            Some(ConfigPrompt::Edit { field, input, .. }) => {
                let label = if *field == ConfigField::Auth {
                    "auth (env var name or raw key)"
                } else {
                    field.label()
                };
                let value = if input.as_str().is_empty() {
                    "<empty>"
                } else {
                    input.as_str()
                };
                let mut s = cat3(label, ": ", value);
                push_str(&mut s, "  (Enter save, Esc cancel)");
                Some(s)
            },
            None => None,
        }
    }

    /// The configuration the editor saves: the option under the cursor selected, the others
    /// after it.
    pub fn to_config(&self) -> (r: PicocodeConfig)
        requires
            self.wf(),
        ensures
            r.model == self.options()[self.selected_model as int],
            r.models@ == saved_rest(self.options(), self.selected_model as int, self.options().len()),
    {
        let sel = self.selected_model;
        let model = self.options[sel].copy();
        let mut models: Vec<ModelOption> = Vec::new();
        let mut m: usize = 0;
        while m < self.options.len()
            invariant
                m <= self.options@.len(),
                sel < self.options@.len(),
                sel == self.selected_model,
                models@ == saved_rest(self.options@, sel as int, m as nat),
            decreases self.options.len() - m,
        {
            let o = &self.options[m];
            let mut keep = m != sel && !o.is_model(self.options[sel].provider.as_str(), self.options[sel].model.as_str());
            if keep {
                let mut j: usize = 0;
                while j < models.len()
                    invariant
                        j <= models@.len(),
                        keep ==> forall|k: int| 0 <= k < j ==> !#[trigger] models@[k].is(o.provider@, o.model@),
                        !keep ==> first_option(models@, o.provider@, o.model@) is Some,
                    decreases models.len() - j,
                {
                    if keep && models[j].is_model(o.provider.as_str(), o.model.as_str()) {
                        proof {
                            lemma_first_option(models@, o.provider@, o.model@);
                        }
                        keep = false;
                    }
                    j = j + 1;
                }
                proof {
                    lemma_first_option(models@, o.provider@, o.model@);
                }
            }
            if keep {
                models.push(o.copy());
            }
            m = m + 1;
        }
        PicocodeConfig { model, models }
    }

    fn clamp_selected_field(&mut self)
        ensures
            *final(self) == *old(self),
    {
        let fields = ConfigField::all();
        let index = self.selected_field.index();
        self.selected_field = fields[index];
    }

    fn toggle_selected_field(&mut self)
        ensures
            final(self).selected_model == old(self).selected_model,
            final(self).selected_field == old(self).selected_field,
            final(self).prompt == old(self).prompt,
            final(self).options() == match old(self).current_spec() {
                Some(o) => old(self).options().update(
                    old(self).selected_model as int,
                    toggled(old(self).selected_field, o),
                ),
                None => old(self).options(),
            },
    {
        let sel = self.selected_model;
        if sel < self.options.len() {
            let mut o = self.options[sel].copy();
            self.selected_field.toggle(&mut o);
            self.options.set(sel, o);
        }
    }

    fn start_editing_selected_field(&mut self)
        ensures
            final(self).selected_model == old(self).selected_model,
            final(self).selected_field == old(self).selected_field,
            is_toggle_field(old(self).selected_field) ==> final(self).prompt == old(self).prompt
                && final(self).options() == match old(self).current_spec() {
                Some(o) => old(self).options().update(
                    old(self).selected_model as int,
                    toggled(old(self).selected_field, o),
                ),
                None => old(self).options(),
            },
            !is_toggle_field(old(self).selected_field) ==> final(self).options() == old(
                self,
            ).options() && (final(self).prompt matches Some(
                ConfigPrompt::Edit { field, input, secret },
            ) && field == old(self).selected_field && !secret && input@ == match old(
                self,
            ).current_spec() {
                Some(o) => field_value(old(self).selected_field, o),
                None => Seq::empty(),
            }),
    {
        let field = self.selected_field;
        if field.is_toggle() {
            self.toggle_selected_field();
            return;
        }
        let input = match self.current_option() {
            Some(o) => field.current_value(o),
            None => String::new(),
        };
        self.prompt = Some(ConfigPrompt::Edit { field, input, secret: false });
    }

    /// Sets the field that the prompt edits on the option under the cursor; without a prompt
    /// nothing changes.
    fn apply_prompt_value(&mut self, value: String)
        ensures
            final(self).selected_model == old(self).selected_model,
            final(self).selected_field == old(self).selected_field,
            final(self).prompt == old(self).prompt,
            final(self).options() == match (old(self).prompt, old(self).current_spec()) {
                (Some(ConfigPrompt::Edit { field, .. }), Some(o)) => old(self).options().update(
                    old(self).selected_model as int,
                    with_field(field, o, value),
                ),
                _ => old(self).options(),
            },
    {
        let field = match &self.prompt {
            Some(ConfigPrompt::Edit { field, .. }) => *field,
            None => {
                return;
            },
        };
        let sel = self.selected_model;
        if sel < self.options.len() {
            let mut o = self.options[sel].copy();
            field.set_value(&mut o, value);
            self.options.set(sel, o);
        }
    }

    fn duplicate_current_model(&mut self)
        requires
            old(self).wf(),
        ensures
            final(self).wf(),
            final(self).prompt == old(self).prompt,
            ({
                let o = old(self).options();
                let sel = old(self).selected_model as int;
                let n = final(self).options();
                &&& n.len() == o.len() + 1
                &&& final(self).selected_model == sel + 1
                &&& final(self).selected_field == ConfigField::Provider
                &&& n.take(sel + 1) == o.take(sel + 1)
                &&& n.skip(sel + 2) == o.skip(sel + 1)
                &&& n[sel + 1] == ModelOption { model: n[sel + 1].model, ..o[sel] }
                &&& forall|k: nat|
                    1 <= k <= o.len() + 1 && !name_taken(o, copy_name(o[sel].model@, k)) && (forall|
                        j: nat,
                    | 1 <= j < k ==> name_taken(o, #[trigger] copy_name(o[sel].model@, j)))
                        ==> n[sel + 1].model@ == copy_name(o[sel].model@, k)
            }),
    {
        let sel = self.selected_model;
        let n = self.options.len();
        assert(sel < n);
        let mut clone = self.options[sel].copy();
        let name = unique_model_name(clone.model.as_str(), &self.options);
        clone.model = name;
        let ghost old_opts = self.options@;
        self.options.insert(sel + 1, clone);
        proof {
            assert(self.options@.take(sel + 1) =~= old_opts.take(sel + 1));
            assert(self.options@.skip(sel + 2) =~= old_opts.skip(sel + 1));
        }
        self.selected_model = sel + 1;
        self.selected_field = ConfigField::Provider;
    }

    fn delete_current_model(&mut self)
        requires
            old(self).wf(),
        ensures
            final(self).wf(),
            final(self).prompt == old(self).prompt,
            final(self).selected_field == old(self).selected_field,
            old(self).options().len() <= 1 ==> *final(self) == *old(self),
            old(self).options().len() > 1 ==> final(self).options() == old(self).options().remove(
                old(self).selected_model as int,
            ) && final(self).selected_model == if old(self).selected_model < old(
                self,
            ).options().len() - 1 {
                old(self).selected_model as int
            } else {
                old(self).options().len() - 2
            },
    {
        if self.options.len() <= 1 {
            return;
        }
        let sel = self.selected_model;
        self.options.remove(sel);
        if self.selected_model >= self.options.len() {
            self.selected_model = self.options.len() - 1;
        }
        self.clamp_selected_field();
    }

    /// What pasting does: from the editor `o`, pasting `text` leads to the editor `n` and the action `r`.
    pub open spec fn paste_step(o: Self, text: Seq<char>, n: Self, r: ConfigEditorAction) -> bool {
        &&& (r == ConfigEditorAction::Continue)
        &&& (n.options() == o.options())
        &&& (n.selected_model == o.selected_model)
        &&& (n.selected_field == o.selected_field)
        &&& (match o.prompt {
                Some(ConfigPrompt::Edit { field, input, secret }) => n.prompt matches Some(
                    ConfigPrompt::Edit { field: f, input: i, secret: s },
                ) && f == field && s == secret && i@ == input@ + text,
                None => n.prompt is None,
            })
    }

    /// Pasted text goes into the open prompt.
    pub fn handle_paste(&mut self, text: &str) -> (r: ConfigEditorAction)
        ensures
            Self::paste_step(*old(self), text@, *final(self), r),
    {
        match &mut self.prompt {
            Some(ConfigPrompt::Edit { input, .. }) => {
                push_str(input, text);
            },
            None => {},
        }
        ConfigEditorAction::Continue
    }

    /// What one key press does: from the editor `o`, `key` leads to the editor `n` and the action `r`.
    pub open spec fn key_step(o: Self, key: KeyInput, n: Self, r: ConfigEditorAction) -> bool {
        &&& (o.wf() ==> n.wf())
        &&& (({
                match o.prompt {
                    Some(ConfigPrompt::Edit { field, input, secret }) => {
                        &&& r == ConfigEditorAction::Continue
                        &&& key.code == KeyCode::Enter && o.current_spec() is Some ==> exists|v: String|
                            v@ == trim_seq(input@) && n.options() == o.options().update(
                                o.selected_model as int,
                                with_field(field, o.current_spec()->0, v),
                            )
                        &&& !(key.code == KeyCode::Enter && o.current_spec() is Some) ==> n.options() == o.options()
                        &&& n.selected_model == o.selected_model
                        &&& n.selected_field == o.selected_field
                        &&& if key.code == KeyCode::Esc || key.code == KeyCode::Enter {
                            n.prompt is None
                        } else {
                            n.prompt matches Some(ConfigPrompt::Edit { field: f, input: i, secret: s })
                                && f == field && s == secret && i@
                                == crate::session_picker::prompt_input_after(input@, key)
                        }
                    },
                    None => if key.code == KeyCode::Esc || key.is_ctrl_char('c') {
                        r == ConfigEditorAction::Cancelled && n == o
                    } else if key.is_ctrl_char('s') {
                        n == o && (r matches ConfigEditorAction::Saved(cfg) && cfg.model
                            == o.options()[o.selected_model as int] && cfg.models@ == saved_rest(
                            o.options(),
                            o.selected_model as int,
                            o.options().len(),
                        ))
                    } else if key.code == KeyCode::Left {
                        r == ConfigEditorAction::Continue && n == ConfigEditorState {
                            selected_model: sat_sub(o.selected_model as int, 1) as usize,
                            ..o
                        }
                    } else if key.code == KeyCode::Right {
                        r == ConfigEditorAction::Continue && n == ConfigEditorState {
                            selected_model: if o.selected_model + 1 < o.options().len() {
                                (o.selected_model + 1) as usize
                            } else {
                                o.selected_model
                            },
                            ..o
                        }
                    } else if key.code == KeyCode::Up || key.code == KeyCode::BackTab {
                        r == ConfigEditorAction::Continue && n == ConfigEditorState {
                            selected_field: field_at(field_index(o.selected_field) + 7),
                            ..o
                        }
                    } else if key.code == KeyCode::Down || key.code == KeyCode::Tab {
                        r == ConfigEditorAction::Continue && n == ConfigEditorState {
                            selected_field: field_at(field_index(o.selected_field) + 1),
                            ..o
                        }
                    } else if key.is_ctrl_char('n') {
                        r == ConfigEditorAction::Continue && n.prompt is None && n.options().len()
                            == o.options().len() + 1 && n.selected_model == o.selected_model + 1
                            && n.selected_field == ConfigField::Provider && n.options().take(
                            o.selected_model + 1,
                        ) == o.options().take(o.selected_model + 1) && n.options().skip(
                            o.selected_model + 2,
                        ) == o.options().skip(o.selected_model + 1) && n.options()[o.selected_model
                            + 1] == ModelOption {
                            model: n.options()[o.selected_model + 1].model,
                            ..o.options()[o.selected_model as int]
                        }
                    } else if key.is_ctrl_char('d') {
                        r == ConfigEditorAction::Continue && n.prompt is None && n.selected_field
                            == o.selected_field && if o.options().len() <= 1 {
                            n == o
                        } else {
                            n.options() == o.options().remove(o.selected_model as int)
                                && n.selected_model == if o.selected_model < o.options().len() - 1 {
                                o.selected_model as int
                            } else {
                                o.options().len() - 2
                            }
                        }
                    } else if key.code == KeyCode::Enter || key.code == KeyCode::Char('e') || (
                    key.code == KeyCode::Char(' ') && !is_toggle_field(o.selected_field)) {
                        r == ConfigEditorAction::Continue && n.selected_model == o.selected_model
                            && n.selected_field == o.selected_field && if is_toggle_field(
                            o.selected_field,
                        ) {
                            n.prompt is None && n.options() == o.options().update(
                                o.selected_model as int,
                                toggled(o.selected_field, o.options()[o.selected_model as int]),
                            )
                        } else {
                            n.options() == o.options() && (n.prompt matches Some(
                                ConfigPrompt::Edit { field, input, secret },
                            ) && field == o.selected_field && !secret && input@ == field_value(
                                o.selected_field,
                                o.options()[o.selected_model as int],
                            ))
                        }
                    } else if key.code == KeyCode::Char(' ') {
                        r == ConfigEditorAction::Continue && n.selected_model == o.selected_model
                            && n.selected_field == o.selected_field && n.prompt is None
                            && n.options() == o.options().update(
                            o.selected_model as int,
                            toggled(o.selected_field, o.options()[o.selected_model as int]),
                        )
                    } else {
                        r == ConfigEditorAction::Continue && n == o
                    },
                }
            }))
    }

    /// Handles one key press. In a prompt: Esc closes it and drops the text, Enter puts the
    /// text, trimmed, into the field and closes it, Backspace and typing edit it. Otherwise: Esc or Control-C cancels, Control-S
    /// saves, Left and Right move between options, Up, Down, Tab and BackTab between fields,
    /// Control-N duplicates the option under the cursor under a fresh name, Control-D deletes
    /// it (the last one stays), Enter or `e` edits the field (a toggle flips), and space flips
    /// a toggle or edits the field.
    pub fn handle_key(&mut self, key: KeyInput) -> (r: ConfigEditorAction)
        requires
            old(self).prompt is Some || old(self).wf(),
        ensures
            Self::key_step(*old(self), key, *final(self), r),
    {
        match &mut self.prompt {
            Some(ConfigPrompt::Edit { input, .. }) => {
                if key.code == KeyCode::Esc {
                    self.prompt = None;
                    return ConfigEditorAction::Continue;
                }
                if key.code == KeyCode::Enter {
                    let value = trim(input.as_str());
                    self.apply_prompt_value(value);
                    self.prompt = None;
                    return ConfigEditorAction::Continue;
                }
                if key.code == KeyCode::Backspace {
                    pop_char(input);
                } else {
                    match key.typed() {
                        Some(c) => push_char(input, c),
                        None => {},
                    }
                }
                return ConfigEditorAction::Continue;
            },
            None => {},
        }
        if key.code == KeyCode::Esc || key.ctrl_char('c') {
            return ConfigEditorAction::Cancelled;
        }
        if key.ctrl_char('s') {
            return ConfigEditorAction::Saved(self.to_config());
        }
        match key.code {
            KeyCode::Left => {
                self.selected_model = self.selected_model.saturating_sub(1);
                self.clamp_selected_field();
                ConfigEditorAction::Continue
            },
            KeyCode::Right => {
                let n = self.options.len();
                if self.selected_model < n && self.selected_model + 1 < n {
                    self.selected_model = self.selected_model + 1;
                }
                self.clamp_selected_field();
                ConfigEditorAction::Continue
            },
            KeyCode::Up | KeyCode::BackTab => {
                self.selected_field = self.selected_field.previous();
                ConfigEditorAction::Continue
            },
            KeyCode::Down | KeyCode::Tab => {
                self.selected_field = self.selected_field.next();
                ConfigEditorAction::Continue
            },
            _ => {
                if key.ctrl_char('n') {
                    self.duplicate_current_model();
                } else if key.ctrl_char('d') {
                    self.delete_current_model();
                } else if key.code == KeyCode::Enter || key.code == KeyCode::Char('e') {
                    self.start_editing_selected_field();
                } else if key.code == KeyCode::Char(' ') {
                    if self.selected_field.is_toggle() {
                        self.toggle_selected_field();
                    } else {
                        self.start_editing_selected_field();
                    }
                }
                ConfigEditorAction::Continue
            },
        }
    }
}

} // verus!
