//! The model configuration: the selected model and the other models on offer.
use vstd::prelude::*;
use crate::order::{pair_lt, sort_by, sort_indices, str_lt};
use crate::text::{chars_of, to_owned_str};

verus! {

#[derive(Debug, Clone, PartialEq, Eq)]
pub struct ModelOption {
    pub provider: String,
    pub model: String,
    pub api: String,
    pub base_url: String,
    pub auth: String,
    pub tools: bool,
    pub images: bool,
    pub reasoning: bool,
}

#[derive(Debug, Clone, PartialEq, Eq)]
pub struct ModelSelection {
    pub provider: String,
    pub model: String,
}

#[derive(Debug, Clone, PartialEq, Eq)]
pub struct PicocodeConfig {
    pub model: ModelOption,
    pub models: Vec<ModelOption>,
}

/// Where the secret of a model comes from.
#[derive(Debug, Clone, PartialEq, Eq)]
pub enum SecretSource {
    /// The standard output of a shell command, trimmed.
    Command(String),
    /// An environment variable.
    Env(String),
    /// The value itself.
    Literal(String),
}

impl ModelOption {
    /// The option is the model `model` of `provider`.
    pub open spec fn is(self, provider: Seq<char>, model: Seq<char>) -> bool {
        self.provider@ == provider && self.model@ == model
    }

    /// Options are listed by provider, then by model.
    pub open spec fn lt(self, other: ModelOption) -> bool {
        pair_lt(self.provider@, self.model@, other.provider@, other.model@)
    }

    pub fn copy(&self) -> (r: Self)
        ensures
            r == *self,
    {
        ModelOption {
            provider: self.provider.clone(),
            model: self.model.clone(),
            api: self.api.clone(),
            base_url: self.base_url.clone(),
            auth: self.auth.clone(),
            tools: self.tools,
            images: self.images,
            reasoning: self.reasoning,
        }
    }

    pub fn is_model(&self, provider: &str, model: &str) -> (r: bool)
        ensures
            r == self.is(provider@, model@),
    {
        crate::text::str_eq(self.provider.as_str(), provider) && crate::text::str_eq(
            self.model.as_str(),
            model,
        )
    }

    pub fn orders_before(&self, other: &ModelOption) -> (r: bool)
        ensures
            r == self.lt(*other),
    {
        str_lt(self.provider.as_str(), other.provider.as_str()) || (self.provider == other.provider
            && str_lt(self.model.as_str(), other.model.as_str()))
    }
}

/// The model selected when nothing else is configured.
pub fn default_model_option() -> (r: ModelOption)
    ensures
        r.provider@ == "openai"@,
        r.model@ == "gpt-5"@,
        r.api@ == "openai-chat-completions"@,
        r.base_url@ == "https://api.openai.com/v1"@,
        r.auth@ == "OPENAI_API_KEY"@,
        !r.tools && !r.images && !r.reasoning,
{
    ModelOption {
        provider: to_owned_str("openai"),
        model: to_owned_str("gpt-5"),
        api: to_owned_str("openai-chat-completions"),
        base_url: to_owned_str("https://api.openai.com/v1"),
        auth: to_owned_str("OPENAI_API_KEY"),
        tools: false,
        images: false,
        reasoning: false,
    }
}

impl Default for PicocodeConfig {
    fn default() -> (r: Self)
        ensures
            r.model.provider@ == "openai"@,
            r.model.model@ == "gpt-5"@,
            r.model.api@ == "openai-chat-completions"@,
            r.model.base_url@ == "https://api.openai.com/v1"@,
            r.model.auth@ == "OPENAI_API_KEY"@,
            !r.model.tools && !r.model.images && !r.model.reasoning,
            r.models@.len() == 0,
    {
        PicocodeConfig { model: default_model_option(), models: Vec::new() }
    }
}

/// The first option in `s` that is `model` of `provider`.
pub open spec fn first_option(s: Seq<ModelOption>, provider: Seq<char>, model: Seq<char>) -> Option<
    int,
>
    decreases s.len(),
{
    if s.len() == 0 {
        None
    } else if s[0].is(provider, model) {
        Some(0)
    } else {
        match first_option(s.drop_first(), provider, model) {
            Some(i) => Some(i + 1),
            None => None,
        }
    }
}

pub proof fn lemma_first_option(s: Seq<ModelOption>, provider: Seq<char>, model: Seq<char>)
    ensures
        first_option(s, provider, model) matches Some(i) ==> 0 <= i < s.len() && s[i].is(
            provider,
            model,
        ) && forall|j: int| 0 <= j < i ==> !#[trigger] s[j].is(provider, model),
        first_option(s, provider, model) is None ==> forall|j: int|
            0 <= j < s.len() ==> !#[trigger] s[j].is(provider, model),
    decreases s.len(),
{
    if s.len() > 0 {
        lemma_first_option(s.drop_first(), provider, model);
        if !s[0].is(provider, model) {
            assert forall|j: int| 1 <= j < s.len() implies s[j] == s.drop_first()[j - 1] by {}
        }
    }
}

/// The options in `s`, each model of a provider once, in the order of first appearance.
pub open spec fn distinct_options(s: Seq<ModelOption>) -> Seq<ModelOption>
    decreases s.len(),
{
    if s.len() == 0 {
        Seq::empty()
    } else {
        let d = distinct_options(s.drop_last());
        if first_option(d, s.last().provider@, s.last().model@) is Some {
            d
        } else {
            d.push(s.last())
        }
    }
}

/// Options listed by provider then model.
pub open spec fn option_before(d: Seq<ModelOption>) -> spec_fn(usize, usize) -> bool {
    |a: usize, b: usize| a < d.len() && b < d.len() && d[a as int].lt(d[b as int])
}

/// The indices `0..n`.
pub open spec fn index_range(n: nat) -> Seq<usize> {
    Seq::new(n, |i: int| i as usize)
}

/// The options of a configuration: the selected model and the others, each once, sorted by
/// provider then model.
pub open spec fn sorted_options(d: Seq<ModelOption>) -> Seq<ModelOption> {
    sort_by(index_range(d.len()), option_before(d)).map_values(|i: usize| d[i as int])
}

pub fn index_vec(n: usize) -> (r: Vec<usize>)
    ensures
        r@ == index_range(n as nat),
{
    let mut r: Vec<usize> = Vec::new();
    let mut i: usize = 0;
    while i < n
        invariant
            i <= n,
            r@ == index_range(i as nat),
        decreases n - i,
    {
        r.push(i);
        i = i + 1;
        assert(r@ =~= index_range(i as nat));
    }
    r
}

/// Sorts options by provider then model, keeping the order of equal ones.
pub fn sort_options(d: &Vec<ModelOption>) -> (r: Vec<ModelOption>)
    ensures
        r@ == sorted_options(d@),
{
    let before = |a: usize, b: usize| -> (r: bool)
        ensures
            r == (a < d@.len() && b < d@.len() && d@[a as int].lt(d@[b as int])),
        { a < d.len() && b < d.len() && d[a].orders_before(&d[b]) };
    let idx = sort_indices(index_vec(d.len()), &before, Ghost(option_before(d@)));
    proof {
        crate::order::lemma_sort_by_permutes(index_range(d@.len()), option_before(d@));
        assert forall|k: int| 0 <= k < idx@.len() implies idx@[k] < d@.len() by {
            crate::order::lemma_sort_by_contains(index_range(d@.len()), option_before(d@), idx@[k]);
            assert(idx@.contains(idx@[k]));
            let j = choose|j: int| 0 <= j < d@.len() && index_range(d@.len())[j] == idx@[k];
        }
    }
    let mut out: Vec<ModelOption> = Vec::new();
    let mut k: usize = 0;
    while k < idx.len()
        invariant
            k <= idx@.len(),
            forall|j: int| 0 <= j < idx@.len() ==> idx@[j] < d@.len(),
            out@ == idx@.take(k as int).map_values(|i: usize| d@[i as int]),
        decreases idx.len() - k,
    {
        out.push(d[idx[k]].copy());
        k = k + 1;
        assert(out@ =~= idx@.take(k as int).map_values(|i: usize| d@[i as int]));
    }
    assert(idx@.take(idx@.len() as int) =~= idx@);
    out
}

pub open spec fn is_env_char(c: char) -> bool {
    ('A' <= c <= 'Z') || ('0' <= c <= '9') || c == '_'
}

/// The shape of an environment variable's name: upper case letters, digits and underscores,
/// with at least one underscore.
pub open spec fn is_env_name(value: Seq<char>) -> bool {
    &&& value.len() > 0
    &&& forall|i: int| 0 <= i < value.len() ==> #[trigger] is_env_char(value[i])
    &&& exists|i: int| 0 <= i < value.len() && value[i] == '_'
}

/// Whether a configured secret names an environment variable: upper case letters, digits and
/// underscores, with at least one underscore.
pub fn looks_like_env_var(value: &str) -> (r: bool)
    ensures
        r == is_env_name(value@),
{
    let v = chars_of(value);
    if v.len() == 0 {
        return false;
    }
    let mut i: usize = 0;
    let mut underscore = false;
    while i < v.len()
        invariant
            v@ == value@,
            i <= v.len(),
            forall|j: int| 0 <= j < i ==> #[trigger] is_env_char(v@[j]),
            underscore == exists|j: int| 0 <= j < i && v@[j] == '_',
        decreases v.len() - i,
    {
        let c = v[i];
        if !(('A' <= c && c <= 'Z') || ('0' <= c && c <= '9') || c == '_') {
            assert(!is_env_char(v@[i as int]));
            return false;
        }
        if c == '_' {
            underscore = true;
        }
        i = i + 1;
    }
    underscore
}

/// The index of the first option in `opts` that is `model` of `provider`.
pub fn find_option_index(opts: &Vec<ModelOption>, provider: &str, model: &str) -> (r: Option<usize>)
    ensures
        match first_option(opts@, provider@, model@) {
            Some(i) => r == Some(i as usize),
            None => r is None,
        },
{
    proof {
        lemma_first_option(opts@, provider@, model@);
    }
    let mut i: usize = 0;
    while i < opts.len()
        invariant
            i <= opts@.len(),
            forall|k: int| 0 <= k < i ==> !#[trigger] opts@[k].is(provider@, model@),
        decreases opts.len() - i,
    {
        if opts[i].is_model(provider, model) {
            proof {
                lemma_first_option(opts@, provider@, model@);
            }
            return Some(i);
        }
        i = i + 1;
    }
    proof {
        lemma_first_option(opts@, provider@, model@);
    }
    None
}

impl PicocodeConfig {
    pub fn selected_model(&self) -> (r: &ModelOption)
        ensures
            *r == self.model,
    {
        &self.model
    }

    /// Where the selected model's secret comes from: after a leading `!` a shell command, a
    /// name in the shape of an environment variable, or else the value itself.
    pub fn secret_source(&self) -> (r: SecretSource)
        ensures
            self.model.auth@.len() > 0 && self.model.auth@[0] == '!' ==> (r matches SecretSource::Command(c)
                && c@ == self.model.auth@.drop_first()),
            !(self.model.auth@.len() > 0 && self.model.auth@[0] == '!') && is_env_name(
                self.model.auth@,
            ) ==> (r matches SecretSource::Env(e) && e@ == self.model.auth@),
            !(self.model.auth@.len() > 0 && self.model.auth@[0] == '!') && !is_env_name(
                self.model.auth@,
            ) ==> (r matches SecretSource::Literal(l) && l@ == self.model.auth@),
    {
        let auth = self.model.auth.as_str();
        match crate::text::strip_prefix(auth, "!") {
            Some(command) => {
                proof {
                    reveal_strlit("!");
                    assert(auth@.subrange(0, 1)[0] == auth@[0]);
                }
                SecretSource::Command(command)
            },
            None => {
                proof {
                    reveal_strlit("!");
                    if auth@.len() > 0 && auth@[0] == '!' {
                        assert("!"@.is_prefix_of(auth@));
                    }
                }
                if looks_like_env_var(auth) {
                    SecretSource::Env(to_owned_str(auth))
                } else {
                    SecretSource::Literal(to_owned_str(auth))
                }
            },
        }
    }

    /// The selected model followed by the other models.
    pub open spec fn all_options(self) -> Seq<ModelOption> {
        seq![self.model] + self.models@
    }

    /// The models on offer: the selected one and the others, each model of a provider once
    /// (the first listed wins), sorted by provider then model.
    pub fn model_options(&self) -> (r: Vec<ModelOption>)
        ensures
            r@ == sorted_options(distinct_options(self.all_options())),
    {
        let mut options: Vec<ModelOption> = Vec::new();
        options.push(self.model.copy());
        assert(self.all_options().take(1).drop_last() =~= Seq::<ModelOption>::empty());
        assert(self.all_options().take(1).last() == self.model);
        assert(distinct_options(Seq::<ModelOption>::empty()) =~= Seq::<ModelOption>::empty());
        assert(first_option(Seq::<ModelOption>::empty(), self.model.provider@, self.model.model@)
            is None);
        assert(options@ =~= distinct_options(self.all_options().take(1)));
        let mut i: usize = 0;
        while i < self.models.len()
            invariant
                i <= self.models@.len(),
                options@ == distinct_options(self.all_options().take(i + 1)),
            decreases self.models.len() - i,
        {
            let m = &self.models[i];
            let ghost prefix = self.all_options().take(i + 1);
            assert(self.all_options().take(i + 2).drop_last() =~= prefix);
            assert(self.all_options().take(i + 2).last() == *m);
            let mut j: usize = 0;
            let mut found = false;
            while j < options.len() && !found
                invariant
                    j <= options@.len(),
                    found ==> first_option(options@, m.provider@, m.model@) is Some,
                    !found ==> forall|k: int|
                        0 <= k < j ==> !#[trigger] options@[k].is(m.provider@, m.model@),
                decreases options.len() - j + (if found {
                    0int
                } else {
                    1int
                }),
            {
                if options[j].is_model(m.provider.as_str(), m.model.as_str()) {
                    proof {
                        lemma_first_option(options@, m.provider@, m.model@);
                    }
                    found = true;
                } else {
                    j = j + 1;
                }
            }
            proof {
                lemma_first_option(options@, m.provider@, m.model@);
            }
            if !found {
                options.push(m.copy());
            }
            i = i + 1;
        }
        assert(self.all_options().take(self.models@.len() + 1int) =~= self.all_options());
        sort_options(&options)
    }

    /// The configured option that is `model` of `provider`: the selected one first, then the
    /// others in order.
    pub fn find_model(&self, provider: &str, model: &str) -> (r: Option<&ModelOption>)
        ensures
            self.model.is(provider@, model@) ==> r == Some(&self.model),
            !self.model.is(provider@, model@) ==> match first_option(
                self.models@,
                provider@,
                model@,
            ) {
                Some(i) => r == Some(&self.models@[i]),
                None => r is None,
            },
    {
        if self.model.is_model(provider, model) {
            return Some(&self.model);
        }
        proof {
            lemma_first_option(self.models@, provider@, model@);
        }
        let mut i: usize = 0;
        while i < self.models.len()
            invariant
                i <= self.models@.len(),
                !self.model.is(provider@, model@),
                forall|k: int| 0 <= k < i ==> !#[trigger] self.models@[k].is(provider@, model@),
            decreases self.models.len() - i,
        {
            if self.models[i].is_model(provider, model) {
                proof {
                    lemma_first_option(self.models@, provider@, model@);
                }
                return Some(&self.models[i]);
            }
            i = i + 1;
        }
        None
    }

    pub fn copy(&self) -> (r: Self)
        ensures
            r.model == self.model,
            r.models@ == self.models@,
    {
        let mut models: Vec<ModelOption> = Vec::new();
        let mut i: usize = 0;
        while i < self.models.len()
            invariant
                i <= self.models@.len(),
                models@ == self.models@.take(i as int),
            decreases self.models.len() - i,
        {
            models.push(self.models[i].copy());
            i = i + 1;
            assert(models@ =~= self.models@.take(i as int));
        }
        assert(models@ =~= self.models@);
        PicocodeConfig { model: self.model.copy(), models }
    }

    /// The configuration with `model` of `provider` selected, when it is on offer; otherwise
    /// the configuration unchanged.
    pub fn with_model_selection(&self, provider: &str, model: &str) -> (r: Self)
        ensures
            r.models@ == self.models@,
            ({
                let opts = sorted_options(distinct_options(self.all_options()));
                match first_option(opts, provider@, model@) {
                    Some(i) => r.model == opts[i],
                    None => r.model == self.model,
                }
            }),
    {
        let mut config = self.copy();
        let options = self.model_options();
        proof {
            lemma_first_option(options@, provider@, model@);
        }
        let mut i: usize = 0;
        while i < options.len()
            invariant
                i <= options@.len(),
                options@ == sorted_options(distinct_options(self.all_options())),
                config.model == self.model,
                config.models@ == self.models@,
                forall|k: int| 0 <= k < i ==> !#[trigger] options@[k].is(provider@, model@),
            decreases options.len() - i,
        {
            if options[i].is_model(provider, model) {
                proof {
                    lemma_first_option(options@, provider@, model@);
                }
                config.model = options[i].copy();
                return config;
            }
            i = i + 1;
        }
        config
    }
}

} // verus!
