//! Which model an agent uses, and how it is reached.
use crate::agents::AgentKind;
use crate::auth::{AuthStore, key_in};
use crate::catalog::{
    Catalog, OptionView, Protocol, ReasoningOption, copy_options, model_in, option_views,
    provider_in,
};
use crate::config::{ReasoningPref, SamplingPref, ShirlConfig};
use crate::factory::{
    ConfigView, ModelPlan, ReasoningSettings, SettingsView, anthropic_plan, apply_context_window,
    budget_floor, build_model, needs_telling, non_empty, opt_config, positive, reasoning_plan,
};
use crate::text::{copy, copy_all, copy_opt, join, joined, opt_text, same, texts};
use crate::text_map::{TextMap, copy_text_map};
use vstd::prelude::*;

verus! {

// ---------------------------------------------------------------------------
// The models in use
// ---------------------------------------------------------------------------
/// A model in use, its name, and its context window where it is known.
pub struct StoredModel<M> {
    pub model: M,
    pub name: String,
    pub context_window: Option<usize>,
}

/// The model of each agent.
pub struct ModelStore<M> {
    pub main: Option<StoredModel<M>>,
    pub plan: Option<StoredModel<M>>,
    pub review: Option<StoredModel<M>>,
}

impl<M> ModelStore<M> {
    pub open spec fn at(self, kind: AgentKind) -> Option<StoredModel<M>> {
        match kind {
            AgentKind::Main => self.main,
            AgentKind::Plan => self.plan,
            AgentKind::Review => self.review,
        }
    }

    pub fn new() -> (r: ModelStore<M>)
        ensures
            forall|kind: AgentKind| r.at(kind) is None,
    {
        ModelStore { main: None, plan: None, review: None }
    }

    fn slot(&self, kind: AgentKind) -> (r: Option<&StoredModel<M>>)
        ensures
            (r is Some) == (self.at(kind) is Some),
            r matches Some(s) ==> self.at(kind) == Some(*s),
    {
        match kind {
            AgentKind::Main => self.main.as_ref(),
            AgentKind::Plan => self.plan.as_ref(),
            AgentKind::Review => self.review.as_ref(),
        }
    }

    /// The model of an agent.
    pub fn get(&self, kind: AgentKind) -> (r: Option<&M>)
        ensures
            (r is Some) == (self.at(kind) is Some),
            r matches Some(m) ==> *m == (self.at(kind)->0).model,
    {
        match self.slot(kind) {
            Some(s) => Some(&s.model),
            None => None,
        }
    }

    /// The name of an agent's model.
    pub fn name(&self, kind: AgentKind) -> (r: Option<&str>)
        ensures
            (r is Some) == (self.at(kind) is Some),
            r matches Some(n) ==> n@ == (self.at(kind)->0).name@,
    {
        match self.slot(kind) {
            Some(s) => Some(s.name.as_str()),
            None => None,
        }
    }

    /// The context window of an agent's model, where it is known and not zero.
    pub fn context_window(&self, kind: AgentKind) -> (r: Option<usize>)
        ensures
            r == (match self.at(kind) {
                Some(s) => positive(s.context_window),
                None => None,
            }),
    {
        match self.slot(kind) {
            Some(s) => apply_context_window(s.context_window),
            None => None,
        }
    }

    /// Gives an agent a model.
    pub fn insert(&mut self, kind: AgentKind, model: M, name: String, context_window: Option<usize>)
        ensures
            final(self).at(kind) == Some(StoredModel { model, name, context_window }),
            forall|other: AgentKind|
                other != kind ==> final(self).at(other) == old(self).at(other),
    {
        let stored = Some(StoredModel { model, name, context_window });
        match kind {
            AgentKind::Main => {
                self.main = stored;
            },
            AgentKind::Plan => {
                self.plan = stored;
            },
            AgentKind::Review => {
                self.review = stored;
            },
        }
    }
}

// ---------------------------------------------------------------------------
// Looking things up
// ---------------------------------------------------------------------------
/// The protocol of that name.
pub open spec fn protocol_named(s: Seq<char>) -> Option<Protocol> {
    if s == "openai"@ {
        Some(Protocol::OpenAI)
    } else if s == "cerebras"@ {
        Some(Protocol::Cerebras)
    } else if s == "anthropic"@ {
        Some(Protocol::Anthropic)
    } else if s == "gemini"@ {
        Some(Protocol::Gemini)
    } else {
        None
    }
}

/// The protocol of that name.
pub fn parse_protocol(s: &str) -> (r: Result<Protocol, String>)
    ensures
        match r {
            Ok(p) => protocol_named(s@) == Some(p),
            Err(e) => protocol_named(s@) is None && e@ == "unknown protocol: "@ + s@,
        },
{
    if same(s, "openai") {
        Ok(Protocol::OpenAI)
    } else if same(s, "cerebras") {
        Ok(Protocol::Cerebras)
    } else if same(s, "anthropic") {
        Ok(Protocol::Anthropic)
    } else if same(s, "gemini") {
        Ok(Protocol::Gemini)
    } else {
        let mut e = copy("unknown protocol: ");
        e.append(s);
        Err(e)
    }
}

/// A protocol is found by its name.
pub proof fn protocols_are_found_by_name(p: Protocol)
    ensures
        protocol_named(p.name()) == Some(p),
{
    reveal_strlit("openai");
    reveal_strlit("cerebras");
    reveal_strlit("anthropic");
    reveal_strlit("gemini");
    assert("openai"@[0] == 'o');
    assert("cerebras"@[0] == 'c');
    assert("anthropic"@[0] == 'a');
    assert("gemini"@[0] == 'g');
}

/// What the user says of a model's context window.
pub open spec fn extension_window(config: ShirlConfig, provider: Seq<char>, model: Seq<char>) -> Option<
    usize,
> {
    if config.models@.contains_key(provider) && config.models@[provider]@.contains_key(model) {
        config.models@[provider]@[model].context_window
    } else {
        None
    }
}

/// A model's context window: what the user says, or else what the catalog says.
pub open spec fn known_window(
    catalog: Catalog,
    config: ShirlConfig,
    provider: Seq<char>,
    model: Seq<char>,
) -> Option<usize> {
    match extension_window(config, provider, model) {
        Some(n) => Some(n),
        None => match model_in(catalog, provider, model) {
            Some(m) => m.context_window,
            None => None,
        },
    }
}

/// What the user says of a model's context window.
pub fn lookup_context_window_from_extensions(
    config: &ShirlConfig,
    provider_id: &str,
    model_id: &str,
) -> (r: Option<usize>)
    ensures
        r == extension_window(*config, provider_id@, model_id@),
{
    match config.models.get(provider_id) {
        Some(models) => match models.get(model_id) {
            Some(m) => m.context_window,
            None => None,
        },
        None => None,
    }
}

/// A model's context window: what the user says, or else what the catalog says.
pub fn lookup_context_window(
    catalog: &Catalog,
    config: &ShirlConfig,
    provider_id: &str,
    model_id: &str,
) -> (r: Option<usize>)
    ensures
        r == known_window(*catalog, *config, provider_id@, model_id@),
{
    match lookup_context_window_from_extensions(config, provider_id, model_id) {
        Some(n) => Some(n),
        None => match catalog.find_model(provider_id, model_id) {
            Some(m) => m.context_window,
            None => None,
        },
    }
}

/// The most tokens that a model gives, by the catalog.
pub fn lookup_max_output_tokens(catalog: &Catalog, provider_id: &str, model_id: &str) -> (r: Option<
    usize,
>)
    ensures
        r == (match model_in(*catalog, provider_id@, model_id@) {
            Some(m) => m.max_output_tokens,
            None => None,
        }),
{
    match catalog.find_model(provider_id, model_id) {
        Some(m) => m.max_output_tokens,
        None => None,
    }
}

/// The protocol of a provider: one that the user defined goes before the catalog.
pub open spec fn protocol_of(catalog: Catalog, config: ShirlConfig, provider: Seq<char>) -> Option<
    Protocol,
> {
    if config.providers@.contains_key(provider) {
        protocol_named(config.providers@[provider].protocol@)
    } else {
        match provider_in(catalog, provider) {
            Some(p) => Some(p.protocol),
            None => None,
        }
    }
}

/// The protocol of a provider.
pub fn lookup_protocol(catalog: &Catalog, config: &ShirlConfig, provider_id: &str) -> (r: Option<
    Protocol,
>)
    ensures
        r == protocol_of(*catalog, *config, provider_id@),
{
    match config.providers.get(provider_id) {
        Some(custom) => match parse_protocol(custom.protocol.as_str()) {
            Ok(p) => Some(p),
            Err(_) => None,
        },
        None => match catalog.get_provider(provider_id) {
            Some(p) => Some(p.protocol),
            None => None,
        },
    }
}

/// The controls of a model's reasoning, by the catalog; none where the model is not known.
pub open spec fn options_of(catalog: Catalog, provider: Seq<char>, model: Seq<char>) -> Seq<
    OptionView,
> {
    match model_in(catalog, provider, model) {
        Some(m) => option_views(m.reasoning_options@),
        None => Seq::empty(),
    }
}

/// The controls of a model's reasoning.
pub fn lookup_reasoning_options(catalog: &Catalog, provider_id: &str, model_id: &str) -> (r: Vec<
    ReasoningOption,
>)
    ensures
        option_views(r@) == options_of(*catalog, provider_id@, model_id@),
{
    match catalog.find_model(provider_id, model_id) {
        Some(m) => copy_options(&m.reasoning_options),
        None => {
            let r: Vec<ReasoningOption> = Vec::new();
            assert(option_views(r@) =~= Seq::empty());
            r
        },
    }
}

/// The controls in words, one after the other.
pub open spec fn capabilities(options: Seq<OptionView>) -> Seq<Seq<char>> {
    Seq::new(options.len(), |i: int| options[i].capability())
}

/// The controls of a model's reasoning in words. A model without any can still be told to
/// reason or not to.
pub fn reasoning_capability_summary(options: &Vec<ReasoningOption>) -> (r: String)
    ensures
        r@ == (if options@.len() == 0 {
            "on/off"@
        } else {
            join(capabilities(option_views(options@)), ", "@)
        }),
{
    if options.len() == 0 {
        return copy("on/off");
    }
    let ghost want = capabilities(option_views(options@));
    let mut labels: Vec<String> = Vec::new();
    let mut i: usize = 0;
    while i < options.len()
        invariant
            i <= options@.len(),
            want == capabilities(option_views(options@)),
            texts(labels@) =~= want.take(i as int),
        decreases options@.len() - i,
    {
        let ghost l0 = texts(labels@);
        let label = options[i].capability_label();
        labels.push(label);
        assert(texts(labels@) =~= l0.push(label@));
        i += 1;
    }
    assert(texts(labels@) =~= want);
    joined(&labels, ", ")
}

// ---------------------------------------------------------------------------
// Reasoning
// ---------------------------------------------------------------------------
/// What the user says about reasoning on or off.
pub open spec fn wanted(pref: Option<ReasoningPref>) -> Option<bool> {
    match pref {
        Some(p) => p.enabled,
        None => None,
    }
}

pub open spec fn wanted_effort(pref: Option<ReasoningPref>) -> Option<Seq<char>> {
    match pref {
        Some(p) => opt_text(p.effort),
        None => None,
    }
}

pub open spec fn wanted_budget(pref: Option<ReasoningPref>) -> Option<u32> {
    match pref {
        Some(p) => p.budget_tokens,
        None => None,
    }
}

/// What is referred to, where anything is.
pub open spec fn referent<T>(o: Option<&T>) -> Option<T> {
    match o {
        Some(t) => Some(*t),
        None => None,
    }
}

/// How a model of the catalog is to reason: as the catalog says, unless the user wants it
/// otherwise.
pub open spec fn catalog_reasoning(
    catalog: Catalog,
    provider: Seq<char>,
    model: Seq<char>,
    pref: Option<ReasoningPref>,
) -> SettingsView {
    let default = match model_in(catalog, provider, model) {
        Some(m) => m.reasoning,
        None => false,
    };
    SettingsView {
        enabled: match wanted(pref) {
            Some(b) => b,
            None => default,
        },
        options: options_of(catalog, provider, model),
        effort: wanted_effort(pref),
        budget_tokens: wanted_budget(pref),
    }
}

/// How a model of the catalog is to reason.
pub fn resolve_reasoning(
    catalog: &Catalog,
    provider_id: &str,
    model_id: &str,
    pref: Option<&ReasoningPref>,
) -> (r: ReasoningSettings)
    ensures
        r@ == catalog_reasoning(*catalog, provider_id@, model_id@, referent(pref)),
{
    let default = match catalog.find_model(provider_id, model_id) {
        Some(m) => m.reasoning,
        None => false,
    };
    let options = lookup_reasoning_options(catalog, provider_id, model_id);
    match pref {
        Some(p) => ReasoningSettings {
            enabled: match p.enabled {
                Some(b) => b,
                None => default,
            },
            options,
            effort: copy_opt(&p.effort),
            budget_tokens: p.budget_tokens,
        },
        None => ReasoningSettings { enabled: default, options, effort: None, budget_tokens: None },
    }
}

/// The controls that a model of a provider that the user defined is taken to have: those that
/// the user uses.
pub open spec fn assumed_options(pref: Option<ReasoningPref>) -> Seq<OptionView> {
    let effort = if wanted_effort(pref) is Some {
        seq![OptionView::Effort { values: Seq::empty() }]
    } else {
        Seq::empty()
    };
    let budget = if wanted_budget(pref) is Some {
        seq![OptionView::BudgetTokens { min: None, max: None }]
    } else {
        Seq::empty()
    };
    let both = effort + budget;
    if both.len() == 0 && wanted(pref) == Some(true) {
        seq![OptionView::Toggle]
    } else {
        both
    }
}

/// How a model of a provider that the user defined is to reason.
pub open spec fn custom_reasoning(pref: Option<ReasoningPref>) -> SettingsView {
    SettingsView {
        enabled: wanted(pref) == Some(true),
        options: assumed_options(pref),
        effort: wanted_effort(pref),
        budget_tokens: wanted_budget(pref),
    }
}

/// How a model of a provider that the user defined is to reason.
pub fn custom_reasoning_settings(pref: Option<&ReasoningPref>) -> (r: ReasoningSettings)
    ensures
        r@ == custom_reasoning(referent(pref)),
{
    let mut options: Vec<ReasoningOption> = Vec::new();
    match pref {
        Some(p) => {
            if p.effort.is_some() {
                let values: Vec<String> = Vec::new();
                assert(texts(values@) =~= Seq::empty());
                options.push(ReasoningOption::Effort { values });
            }
            if p.budget_tokens.is_some() {
                options.push(ReasoningOption::BudgetTokens { min: None, max: None });
            }
            if options.len() == 0 && p.enabled == Some(true) {
                options.push(ReasoningOption::Toggle);
            }
            assert(option_views(options@) =~= assumed_options(referent(pref)));
            ReasoningSettings {
                enabled: match p.enabled {
                    Some(b) => b,
                    None => false,
                },
                options,
                effort: copy_opt(&p.effort),
                budget_tokens: p.budget_tokens,
            }
        },
        None => {
            assert(option_views(options@) =~= assumed_options(referent(pref)));
            ReasoningSettings { enabled: false, options, effort: None, budget_tokens: None }
        },
    }
}

/// With a provider that the user defined, an effort or a budget that the user chose is what
/// the model is sent, whatever the protocol. Where the user chose neither, and only turned
/// reasoning on, the model is told to reason.
pub proof fn custom_choices_are_honored(protocol: Protocol, pref: Option<ReasoningPref>)
    ensures
        wanted_effort(pref) matches Some(e) ==> reasoning_plan(protocol, custom_reasoning(pref))
            == Some(ConfigView::Effort(e)),
        wanted_effort(pref) is None ==> (wanted_budget(pref) matches Some(n) ==> reasoning_plan(
            protocol,
            custom_reasoning(pref),
        ) == Some(ConfigView::Budget(n))),
        wanted_effort(pref) is None && wanted_budget(pref) is None && wanted(pref) == Some(true)
            ==> reasoning_plan(protocol, custom_reasoning(pref)) == Some(ConfigView::Toggle(true)),
{
    let options = assumed_options(pref);
    if wanted_effort(pref) is Some {
        assert(options[0] is Effort);
    } else if wanted_budget(pref) is Some {
        assert(options[0] is BudgetTokens);
        assert(budget_floor(options, 0) is Some);
    } else if wanted(pref) == Some(true) {
        assert(options[0] is Toggle);
    }
}

// ---------------------------------------------------------------------------
// Sampling
// ---------------------------------------------------------------------------
/// How a model is to sample. Fractions are the bits of single-precision numbers.
pub struct SamplingConfig {
    pub temperature: Option<u32>,
    pub top_p: Option<u32>,
    pub top_k: Option<u32>,
    pub seed: Option<u64>,
    pub stop: Vec<String>,
    pub frequency_penalty: Option<u32>,
    pub presence_penalty: Option<u32>,
    pub max_tokens: Option<usize>,
    pub extra: TextMap<String>,
}

/// Whether `c` says what `p` says.
pub open spec fn samples_as(c: SamplingConfig, p: SamplingPref) -> bool {
    &&& c.temperature == p.temperature
    &&& c.top_p == p.top_p
    &&& c.top_k == p.top_k
    &&& c.seed == p.seed
    &&& c.stop@ == p.stop@
    &&& c.frequency_penalty == p.frequency_penalty
    &&& c.presence_penalty == p.presence_penalty
    &&& c.max_tokens == p.max_tokens
    &&& c.extra@ == p.options@
}

/// Whether `c` leaves everything to the model.
pub open spec fn samples_freely(c: SamplingConfig) -> bool {
    &&& c.temperature is None && c.top_p is None && c.top_k is None && c.seed is None
    &&& c.stop@.len() == 0
    &&& c.frequency_penalty is None && c.presence_penalty is None && c.max_tokens is None
    &&& c.extra@ == Map::<Seq<char>, String>::empty()
}

/// What a model is told about sampling.
pub fn sampling_from_pref(pref: Option<&SamplingPref>) -> (r: SamplingConfig)
    ensures
        match pref {
            Some(p) => samples_as(r, *p),
            None => samples_freely(r),
        },
{
    match pref {
        Some(p) => SamplingConfig {
            temperature: p.temperature,
            top_p: p.top_p,
            top_k: p.top_k,
            seed: p.seed,
            stop: copy_all(&p.stop),
            frequency_penalty: p.frequency_penalty,
            presence_penalty: p.presence_penalty,
            max_tokens: p.max_tokens,
            extra: copy_text_map(&p.options),
        },
        None => SamplingConfig {
            temperature: None,
            top_p: None,
            top_k: None,
            seed: None,
            stop: Vec::new(),
            frequency_penalty: None,
            presence_penalty: None,
            max_tokens: None,
            extra: TextMap::new(),
        },
    }
}

// ---------------------------------------------------------------------------
// Reaching a model
// ---------------------------------------------------------------------------
/// Everything that is needed to reach a model.
pub struct ResolvedParams {
    pub protocol: Protocol,
    pub base_url: String,
    pub api_key: String,
    pub context_window: Option<usize>,
    pub max_output_tokens: Option<usize>,
    pub reasoning: ReasoningSettings,
    pub sampling: SamplingConfig,
}

/// The key of a provider: empty where there is none.
pub open spec fn key_or_empty(auth: AuthStore, provider: Seq<char>) -> Seq<char> {
    match key_in(auth.llm@, provider) {
        Some(k) => k,
        None => ""@,
    }
}

/// Why a model cannot be reached: its provider is not known, or the user defined it with a
/// protocol that is not known.
pub open spec fn unreachable_because(catalog: Catalog, config: ShirlConfig, provider: Seq<char>) -> Option<
    Seq<char>,
> {
    if config.providers@.contains_key(provider) {
        let name = config.providers@[provider].protocol@;
        match protocol_named(name) {
            Some(_) => None,
            None => Some("unknown protocol: "@ + name),
        }
    } else {
        match provider_in(catalog, provider) {
            Some(_) => None,
            None => Some("unknown provider: "@ + provider),
        }
    }
}

/// Whether `p` is what is needed to reach a model.
pub open spec fn reaches(
    p: ResolvedParams,
    provider: Seq<char>,
    config: ShirlConfig,
    auth: AuthStore,
    catalog: Catalog,
    model: Seq<char>,
    pref: Option<ReasoningPref>,
) -> bool {
    &&& Some(p.protocol) == protocol_of(catalog, config, provider)
    &&& p.api_key@ == key_or_empty(auth, provider)
    &&& if config.providers@.contains_key(provider) {
        &&& p.base_url == config.providers@[provider].base_url
        &&& p.context_window == extension_window(config, provider, model)
        &&& p.max_output_tokens is None
        &&& p.reasoning@ == custom_reasoning(pref)
    } else {
        &&& p.base_url == (provider_in(catalog, provider)->0).base_url
        &&& p.context_window == known_window(catalog, config, provider, model)
        &&& p.max_output_tokens == (match model_in(catalog, provider, model) {
            Some(m) => m.max_output_tokens,
            None => None,
        })
        &&& p.reasoning@ == catalog_reasoning(catalog, provider, model, pref)
    }
}

/// What is needed to reach a model: by the user's definition of the provider, or else by the
/// catalog.
pub fn resolve_provider_params(
    provider_id: &str,
    config: &ShirlConfig,
    auth: &AuthStore,
    catalog: &Catalog,
    model_id: &str,
    reasoning_pref: Option<&ReasoningPref>,
    sampling_pref: Option<&SamplingPref>,
) -> (r: Result<ResolvedParams, String>)
    ensures
        match r {
            Err(e) => unreachable_because(*catalog, *config, provider_id@) == Some(e@),
            Ok(p) => unreachable_because(*catalog, *config, provider_id@) is None && reaches(
                p,
                provider_id@,
                *config,
                *auth,
                *catalog,
                model_id@,
                referent(reasoning_pref),
            ) && match sampling_pref {
                Some(s) => samples_as(p.sampling, *s),
                None => samples_freely(p.sampling),
            },
        },
{
    let api_key = match auth.get(provider_id) {
        Some(k) => copy(k),
        None => copy(""),
    };
    match config.providers.get(provider_id) {
        Some(custom) => {
            let protocol = match parse_protocol(custom.protocol.as_str()) {
                Ok(p) => p,
                Err(e) => {
                    return Err(e);
                },
            };
            Ok(
                ResolvedParams {
                    protocol,
                    base_url: custom.base_url.clone(),
                    api_key,
                    context_window: lookup_context_window_from_extensions(
                        config,
                        provider_id,
                        model_id,
                    ),
                    max_output_tokens: None,
                    reasoning: custom_reasoning_settings(reasoning_pref),
                    sampling: sampling_from_pref(sampling_pref),
                },
            )
        },
        None => match catalog.get_provider(provider_id) {
            None => {
                let mut e = copy("unknown provider: ");
                e.append(provider_id);
                Err(e)
            },
            Some(provider) => Ok(
                ResolvedParams {
                    protocol: provider.protocol,
                    base_url: provider.base_url.clone(),
                    api_key,
                    context_window: lookup_context_window(catalog, config, provider_id, model_id),
                    max_output_tokens: lookup_max_output_tokens(catalog, provider_id, model_id),
                    reasoning: resolve_reasoning(catalog, provider_id, model_id, reasoning_pref),
                    sampling: sampling_from_pref(sampling_pref),
                },
            ),
        },
    }
}

/// A model for an agent: how to set it up, the key to reach it with, how it samples, its name
/// and its context window.
pub struct AgentModel {
    pub plan: ModelPlan,
    pub api_key: String,
    pub sampling: SamplingConfig,
    pub name: String,
    pub context_window: Option<usize>,
}

/// The model `model` of the provider `provider` for an agent, with the agent's own wishes.
pub fn load_agent_model(
    kind: AgentKind,
    provider: &str,
    model: &str,
    config: &ShirlConfig,
    auth: &AuthStore,
    catalog: &Catalog,
) -> (r: Result<AgentModel, String>)
    ensures
        match r {
            Err(e) => unreachable_because(*catalog, *config, provider@) == Some(e@),
            Ok(m) => unreachable_because(*catalog, *config, provider@) is None && exists|
                p: ResolvedParams,
            |
                #[trigger] reaches(
                    p,
                    provider@,
                    *config,
                    *auth,
                    *catalog,
                    model@,
                    config.reasoning_of(kind.name()),
                ) && is_set_up(m, p, model@) && m.name@ == provider@ + "/"@ + model@ && match
                    config.sampling_of(kind.name()) {
                    Some(s) => samples_as(m.sampling, s),
                    None => samples_freely(m.sampling),
                },
        },
{
    let pref = config.reasoning_for(kind.display_name());
    let sampling_pref = config.sampling_for(kind.display_name());
    match resolve_provider_params(provider, config, auth, catalog, model, pref, sampling_pref) {
        Err(e) => Err(e),
        Ok(p) => {
            let plan = build_model(
                p.protocol,
                model,
                p.base_url.as_str(),
                p.context_window,
                p.max_output_tokens,
                &p.reasoning,
            );
            let mut name = copy(provider);
            name.append("/");
            name.append(model);
            let ghost params = p;
            let m = AgentModel {
                plan,
                api_key: p.api_key,
                sampling: p.sampling,
                name,
                context_window: p.context_window,
            };
            assert(referent(pref) == config.reasoning_of(kind.name()));
            assert(is_set_up(m, params, model@));
            Ok(m)
        },
    }
}

/// Whether `m` sets up the model that `p` reaches.
pub open spec fn is_set_up(m: AgentModel, p: ResolvedParams, model: Seq<char>) -> bool {
    &&& m.plan.protocol == p.protocol
    &&& m.plan.model_id@ == model
    &&& opt_text(m.plan.base_url) == non_empty(p.base_url@)
    &&& m.plan.max_tokens == (if needs_telling(p.protocol) {
        positive(p.max_output_tokens)
    } else {
        None
    })
    &&& opt_config(m.plan.reasoning) == (if p.protocol == Protocol::Anthropic {
        anthropic_plan(reasoning_plan(p.protocol, p.reasoning@), model)
    } else {
        reasoning_plan(p.protocol, p.reasoning@)
    })
    &&& m.plan.context_window == positive(p.context_window)
    &&& m.api_key@ == p.api_key@
    &&& m.context_window == p.context_window
}

// ---------------------------------------------------------------------------
// Web search
// ---------------------------------------------------------------------------
/// The services that search the web.
#[derive(Clone, Copy, Debug, PartialEq, Eq, Structural)]
pub enum WebSearchKind {
    Tavily,
    Brave,
}

/// The service of that name.
pub open spec fn search_named(provider: Seq<char>) -> Option<WebSearchKind> {
    if provider == "tavily"@ {
        Some(WebSearchKind::Tavily)
    } else if provider == "brave"@ {
        Some(WebSearchKind::Brave)
    } else {
        None
    }
}

/// The service of that name.
pub fn build_web_search_backend(provider_id: &str) -> (r: Option<WebSearchKind>)
    ensures
        r == search_named(provider_id@),
{
    if same(provider_id, "tavily") {
        Some(WebSearchKind::Tavily)
    } else if same(provider_id, "brave") {
        Some(WebSearchKind::Brave)
    } else {
        None
    }
}

/// The service that searches the web for an agent, and its key: none unless one is configured,
/// known, and connected.
pub fn resolve_web_search(kind: AgentKind, config: &ShirlConfig, auth: &AuthStore) -> (r: Option<
    (WebSearchKind, String),
>)
    ensures
        match config.web_search_of(kind.name()) {
            None => r is None,
            Some(p) => match (key_in(auth.web_search@, p@), search_named(p@)) {
                (Some(key), Some(service)) => r matches Some(s) && s.0 == service && s.1@ == key,
                _ => r is None,
            },
        },
{
    match config.web_search_for(kind.display_name()) {
        None => None,
        Some(provider) => match auth.get_web_search_key(provider) {
            None => None,
            Some(key) => match build_web_search_backend(provider) {
                None => None,
                Some(service) => Some((service, copy(key))),
            },
        },
    }
}

/// What the user says goes before the catalog: the address and the protocol of a provider that
/// the user defined, and the context window of a model.
pub proof fn the_user_goes_before_the_catalog(
    catalog: Catalog,
    config: ShirlConfig,
    provider: Seq<char>,
    model: Seq<char>,
)
    ensures
        config.providers@.contains_key(provider) ==> protocol_of(catalog, config, provider)
            == protocol_named(config.providers@[provider].protocol@),
        !config.providers@.contains_key(provider) && provider_in(catalog, provider) is Some
            ==> protocol_of(catalog, config, provider) == Some(
            (provider_in(catalog, provider)->0).protocol,
        ),
        extension_window(config, provider, model) is Some ==> known_window(
            catalog,
            config,
            provider,
            model,
        ) == extension_window(config, provider, model),
        extension_window(config, provider, model) is None && model_in(catalog, provider, model)
            is Some ==> known_window(catalog, config, provider, model) == (model_in(
            catalog,
            provider,
            model,
        )->0).context_window,
        (unreachable_because(catalog, config, provider) is None) == (protocol_of(
            catalog,
            config,
            provider,
        ) is Some),
{
}

/// A wish about reasoning goes before the catalog, and without one the catalog decides. What was
/// wished of effort and budget is handed on.
pub proof fn wishes_go_before_the_catalog(
    catalog: Catalog,
    provider: Seq<char>,
    model: Seq<char>,
    pref: ReasoningPref,
)
    ensures
        ({
            let s = catalog_reasoning(catalog, provider, model, Some(pref));
            &&& pref.enabled matches Some(b) ==> s.enabled == b
            &&& pref.enabled is None ==> s.enabled == catalog_reasoning(
                catalog,
                provider,
                model,
                None,
            ).enabled
            &&& s.effort == opt_text(pref.effort)
            &&& s.budget_tokens == pref.budget_tokens
            &&& model_in(catalog, provider, model) matches Some(m) ==> s.options == option_views(
                m.reasoning_options@,
            )
        }),
        model_in(catalog, provider, model) matches Some(m) ==> catalog_reasoning(
            catalog,
            provider,
            model,
            None,
        ).enabled == m.reasoning,
{
}

/// Every wish about sampling reaches the model as it was made.
pub proof fn every_sampling_wish_is_sent(c: SamplingConfig, p: SamplingPref)
    requires
        samples_as(c, p),
    ensures
        c.temperature == p.temperature,
        c.top_p == p.top_p,
        c.top_k == p.top_k,
        c.seed == p.seed,
        c.stop@ == p.stop@,
        c.frequency_penalty == p.frequency_penalty,
        c.presence_penalty == p.presence_penalty,
        c.max_tokens == p.max_tokens,
        c.extra@ == p.options@,
{
}

/// A model is reached at its provider's address, with the key that was kept for the provider,
/// and reasons as it is wished of it.
pub proof fn models_are_reached_with_their_key(
    m: AgentModel,
    p: ResolvedParams,
    provider: Seq<char>,
    config: ShirlConfig,
    auth: AuthStore,
    catalog: Catalog,
    model: Seq<char>,
    pref: Option<ReasoningPref>,
)
    requires
        reaches(p, provider, config, auth, catalog, model, pref),
        is_set_up(m, p, model),
    ensures
        m.plan.model_id@ == model,
        Some(m.plan.protocol) == protocol_of(catalog, config, provider),
        key_in(auth.llm@, provider) matches Some(k) ==> m.api_key@ == k,
        key_in(auth.llm@, provider) is None ==> m.api_key@.len() == 0,
        config.providers@.contains_key(provider) && config.providers@[provider].base_url@.len() > 0
            ==> opt_text(m.plan.base_url) == Some(config.providers@[provider].base_url@),
        !config.providers@.contains_key(provider) && provider_in(catalog, provider) is Some && (
        provider_in(catalog, provider)->0).base_url@.len() > 0 ==> opt_text(m.plan.base_url)
            == Some((provider_in(catalog, provider)->0).base_url@),
        !config.providers@.contains_key(provider) ==> m.context_window == known_window(
            catalog,
            config,
            provider,
            model,
        ),
        config.providers@.contains_key(provider) ==> m.context_window == extension_window(
            config,
            provider,
            model,
        ),
        m.plan.protocol != Protocol::Anthropic ==> opt_config(m.plan.reasoning) == reasoning_plan(
            m.plan.protocol,
            p.reasoning@,
        ),
        m.plan.protocol == Protocol::Anthropic || m.plan.protocol == Protocol::Gemini
            ==> !config.providers@.contains_key(provider) ==> (model_in(
            catalog,
            provider,
            model,
        ) matches Some(c) ==> (c.max_output_tokens matches Some(n) ==> (n > 0 ==> m.plan.max_tokens
            == Some(n)))),
        config.providers@.contains_key(provider) ==> p.reasoning@ == custom_reasoning(pref),
        !config.providers@.contains_key(provider) ==> p.reasoning@ == catalog_reasoning(
            catalog,
            provider,
            model,
            pref,
        ),
{
    reveal_strlit("");
}

/// A service that searches the web is found by its name, and no other name finds one.
pub proof fn search_services_are_found_by_name(name: Seq<char>)
    ensures
        search_named("tavily"@) == Some(WebSearchKind::Tavily),
        search_named("brave"@) == Some(WebSearchKind::Brave),
        name != "tavily"@ && name != "brave"@ ==> search_named(name) is None,
{
    reveal_strlit("tavily");
    reveal_strlit("brave");
    assert("tavily"@.len() == 6 && "brave"@.len() == 5);
}

/// No two protocols have the same name, and a name finds the protocol that bears it.
pub proof fn protocol_names_find_their_protocol(s: Seq<char>)
    ensures
        protocol_named(s) matches Some(p) ==> p.name() == s,
{
}

/// A model is loaded exactly where its provider can be reached, under the name of both.
pub proof fn reachable_models_are_loaded(
    kind: AgentKind,
    provider: &str,
    model: &str,
    config: ShirlConfig,
    auth: AuthStore,
    catalog: Catalog,
    r: Result<AgentModel, String>,
)
    requires
        call_ensures(load_agent_model, (kind, provider, model, &config, &auth, &catalog), r),
    ensures
        (r is Ok) == (protocol_of(catalog, config, provider@) is Some),
        r matches Ok(m) ==> {
            &&& m.name@ == provider@ + "/"@ + model@
            &&& m.plan.model_id@ == model@
            &&& key_in(auth.llm@, provider@) matches Some(k) ==> m.api_key@ == k
            &&& config.sampling_of(kind.name()) matches Some(s) ==> m.sampling.temperature
                == s.temperature && m.sampling.max_tokens == s.max_tokens
        },
{
    the_user_goes_before_the_catalog(catalog, config, provider@, model@);
    if r is Ok {
        let m = r->Ok_0;
        let pref = config.reasoning_of(kind.name());
        let p = choose|p: ResolvedParams|
            #[trigger] reaches(p, provider@, config, auth, catalog, model@, pref) && is_set_up(
                m,
                p,
                model@,
            );
        models_are_reached_with_their_key(m, p, provider@, config, auth, catalog, model@, pref);
    }
}

/// An agent searches the web with the service that is configured for it, where that is known and
/// has a key.
pub proof fn configured_search_is_used(
    kind: AgentKind,
    config: ShirlConfig,
    auth: AuthStore,
    service: String,
    r: Option<(WebSearchKind, String)>,
)
    requires
        call_ensures(resolve_web_search, (kind, &config, &auth), r),
    ensures
        config.web_search_of(kind.name()) is None ==> r is None,
        config.web_search_of(kind.name()) == Some(service) && search_named(service@) is Some
            && auth.web_search@.contains_key(service@) ==> (r matches Some(s) && Some(s.0)
            == search_named(service@) && s.1@ == auth.web_search@[service@]@),
        config.web_search_of(kind.name()) == Some(service) && !auth.web_search@.contains_key(
            service@,
        ) ==> r is None,
{
}

/// Each agent has a model of its own: one that is given to an agent is that agent's, and the
/// others keep theirs.
pub proof fn agents_keep_their_own_models<M>(
    store: &mut ModelStore<M>,
    kind: AgentKind,
    other: AgentKind,
    model: M,
    name: String,
    window: Option<usize>,
)
    requires
        call_ensures(ModelStore::<M>::insert, (store, kind, model, name, window), ()),
    ensures
        final(store).at(kind) matches Some(s) && s.model == model && s.name == name
            && s.context_window == window,
        other != kind ==> final(store).at(other) == old(store).at(other),
{
}

/// Without a wish about sampling everything is left to the model.
pub proof fn unwished_sampling_is_left_to_the_model(r: SamplingConfig)
    requires
        call_ensures(sampling_from_pref, (None::<&SamplingPref>,), r),
    ensures
        r.temperature is None && r.top_p is None && r.top_k is None && r.seed is None,
        r.frequency_penalty is None && r.presence_penalty is None && r.max_tokens is None,
        r.stop@.len() == 0,
{
}

} // verus!
