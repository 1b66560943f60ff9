//! How a model is set up: its address, its limits, and what it is told about reasoning.
use crate::catalog::{OptionView, Protocol, ReasoningOption, option_views};
use crate::text::{
    chars_of, contains, contains_text, copy, decimal, has_text, is_digit, numbers_read_back,
    opt_text, parse_u32, parsed_u32, pieces, pieces_of, separators_divide_pieces, texts,
};
use vstd::prelude::*;

verus! {

/// The budget of thinking tokens where nothing else is said.
pub const DEFAULT_THINKING_BUDGET: u32 = 2048;

/// What is known and wanted of a model's reasoning.
#[derive(Debug, PartialEq, Eq)]
pub struct ReasoningSettings {
    pub enabled: bool,
    /// The controls that the model offers.
    pub options: Vec<ReasoningOption>,
    pub effort: Option<String>,
    pub budget_tokens: Option<u32>,
}

impl Default for ReasoningSettings {
    fn default() -> (r: ReasoningSettings)
        ensures
            !r.enabled,
            r.options@.len() == 0,
            r.effort is None,
            r.budget_tokens is None,
    {
        ReasoningSettings { enabled: false, options: Vec::new(), effort: None, budget_tokens: None }
    }
}

pub struct SettingsView {
    pub enabled: bool,
    pub options: Seq<OptionView>,
    pub effort: Option<Seq<char>>,
    pub budget_tokens: Option<u32>,
}

impl View for ReasoningSettings {
    type V = SettingsView;

    open spec fn view(&self) -> SettingsView {
        SettingsView {
            enabled: self.enabled,
            options: option_views(self.options@),
            effort: opt_text(self.effort),
            budget_tokens: self.budget_tokens,
        }
    }
}

/// What a request says about reasoning.
#[derive(Debug, PartialEq, Eq)]
pub enum ReasoningConfig {
    Toggle(bool),
    Effort(String),
    Budget(u32),
}

pub enum ConfigView {
    Toggle(bool),
    Effort(Seq<char>),
    Budget(u32),
}

impl View for ReasoningConfig {
    type V = ConfigView;

    open spec fn view(&self) -> ConfigView {
        match *self {
            ReasoningConfig::Toggle(b) => ConfigView::Toggle(b),
            ReasoningConfig::Effort(e) => ConfigView::Effort(e@),
            ReasoningConfig::Budget(n) => ConfigView::Budget(n),
        }
    }
}

pub open spec fn opt_config(o: Option<ReasoningConfig>) -> Option<ConfigView> {
    match o {
        Some(c) => Some(c@),
        None => None,
    }
}

// ---------------------------------------------------------------------------
// What a model offers
// ---------------------------------------------------------------------------
pub open spec fn offers_toggle(options: Seq<OptionView>) -> bool {
    exists|i: int| 0 <= i < options.len() && (#[trigger] options[i]) is Toggle
}

pub open spec fn offers_effort(options: Seq<OptionView>) -> bool {
    exists|i: int| 0 <= i < options.len() && (#[trigger] options[i]) is Effort
}

/// Whether `none` is one of the levels of effort.
pub open spec fn offers_no_effort(options: Seq<OptionView>) -> bool {
    exists|i: int|
        0 <= i < options.len() && match #[trigger] options[i] {
            OptionView::Effort { values } => values.contains("none"@),
            _ => false,
        }
}

/// The least budget of the first budget control from `i` on.
pub open spec fn budget_floor(options: Seq<OptionView>, i: int) -> Option<u32>
    decreases options.len() - i,
{
    if i < 0 || i >= options.len() {
        None
    } else {
        match options[i] {
            OptionView::BudgetTokens { min, .. } => Some(
                match min {
                    Some(n) => n,
                    None => DEFAULT_THINKING_BUDGET,
                },
            ),
            _ => budget_floor(options, i + 1),
        }
    }
}

/// Whether a provider's models reason only when they are told to.
pub open spec fn needs_telling(protocol: Protocol) -> bool {
    protocol == Protocol::Anthropic || protocol == Protocol::Gemini
}

/// Whether reasoning can be turned off.
pub open spec fn can_disable(protocol: Protocol, options: Seq<OptionView>) -> bool {
    offers_toggle(options) || needs_telling(protocol) || offers_no_effort(options)
}

fn has_toggle(options: &Vec<ReasoningOption>) -> (r: bool)
    ensures
        r == offers_toggle(option_views(options@)),
{
    let ghost views = option_views(options@);
    let mut i: usize = 0;
    while i < options.len()
        invariant
            i <= options@.len(),
            views == option_views(options@),
            forall|k: int| 0 <= k < i ==> !((#[trigger] views[k]) is Toggle),
        decreases options@.len() - i,
    {
        match &options[i] {
            ReasoningOption::Toggle => {
                assert(views[i as int] is Toggle);
                return true;
            },
            _ => {},
        }
        i += 1;
    }
    false
}

fn has_effort(options: &Vec<ReasoningOption>) -> (r: bool)
    ensures
        r == offers_effort(option_views(options@)),
{
    let ghost views = option_views(options@);
    let mut i: usize = 0;
    while i < options.len()
        invariant
            i <= options@.len(),
            views == option_views(options@),
            forall|k: int| 0 <= k < i ==> !((#[trigger] views[k]) is Effort),
        decreases options@.len() - i,
    {
        match &options[i] {
            ReasoningOption::Effort { .. } => {
                assert(views[i as int] is Effort);
                return true;
            },
            _ => {},
        }
        i += 1;
    }
    false
}

fn has_no_effort(options: &Vec<ReasoningOption>) -> (r: bool)
    ensures
        r == offers_no_effort(option_views(options@)),
{
    let ghost views = option_views(options@);
    let mut i: usize = 0;
    while i < options.len()
        invariant
            i <= options@.len(),
            views == option_views(options@),
            forall|k: int|
                0 <= k < i ==> match #[trigger] views[k] {
                    OptionView::Effort { values } => !values.contains("none"@),
                    _ => true,
                },
        decreases options@.len() - i,
    {
        match &options[i] {
            ReasoningOption::Effort { values } => {
                assert(views[i as int] == (OptionView::Effort { values: texts(values@) }));
                if contains_text(values, "none") {
                    return true;
                }
            },
            _ => {},
        }
        i += 1;
    }
    false
}

fn least_budget(options: &Vec<ReasoningOption>) -> (r: Option<u32>)
    ensures
        r == budget_floor(option_views(options@), 0),
{
    let ghost views = option_views(options@);
    let mut i: usize = 0;
    while i < options.len()
        invariant
            i <= options@.len(),
            views == option_views(options@),
            budget_floor(views, i as int) == budget_floor(views, 0),
        decreases options@.len() - i,
    {
        assert(views[i as int] == options@[i as int]@);
        match &options[i] {
            ReasoningOption::BudgetTokens { min, .. } => {
                return Some(
                    match min {
                        Some(n) => *n,
                        None => DEFAULT_THINKING_BUDGET,
                    },
                );
            },
            _ => {},
        }
        i += 1;
    }
    None
}

/// Whether reasoning can be turned off: by a toggle, by a protocol whose models reason only
/// when told to, or by `none` among the levels of effort.
pub fn can_disable_reasoning(protocol: Protocol, options: &Vec<ReasoningOption>) -> (r: bool)
    ensures
        r == can_disable(protocol, option_views(options@)),
{
    has_toggle(options) || protocol == Protocol::Anthropic || protocol == Protocol::Gemini
        || has_no_effort(options)
}

// ---------------------------------------------------------------------------
// The plan
// ---------------------------------------------------------------------------
/// What a request says about reasoning. What the user chose counts where the model offers that
/// control. Turning off says so where it is possible. Turning on takes the toggle, else the
/// least budget, and is left unsaid where the model reasons anyway.
pub open spec fn reasoning_plan(protocol: Protocol, s: SettingsView) -> Option<ConfigView> {
    let floor = budget_floor(s.options, 0);
    if s.effort is Some && offers_effort(s.options) {
        Some(ConfigView::Effort(s.effort->0))
    } else if s.budget_tokens is Some && floor is Some {
        Some(ConfigView::Budget(s.budget_tokens->0))
    } else if !s.enabled {
        if !can_disable(protocol, s.options) {
            None
        } else if offers_toggle(s.options) || needs_telling(protocol) {
            Some(ConfigView::Toggle(false))
        } else {
            Some(ConfigView::Effort("none"@))
        }
    } else if offers_toggle(s.options) {
        Some(ConfigView::Toggle(true))
    } else if floor is Some {
        if protocol == Protocol::Gemini {
            Some(ConfigView::Toggle(true))
        } else {
            Some(ConfigView::Budget(floor->0))
        }
    } else if needs_telling(protocol) {
        Some(ConfigView::Toggle(true))
    } else {
        None
    }
}

/// What a request to a model says about reasoning, or nothing.
pub fn plan_reasoning(protocol: Protocol, settings: &ReasoningSettings) -> (r: Option<
    ReasoningConfig,
>)
    ensures
        opt_config(r) == reasoning_plan(protocol, settings@),
{
    let toggle = has_toggle(&settings.options);
    let effort = has_effort(&settings.options);
    let floor = least_budget(&settings.options);
    match &settings.effort {
        Some(e) => {
            if effort {
                return Some(ReasoningConfig::Effort(e.clone()));
            }
        },
        None => {},
    }
    match settings.budget_tokens {
        Some(n) => {
            if floor.is_some() {
                return Some(ReasoningConfig::Budget(n));
            }
        },
        None => {},
    }
    let telling = protocol == Protocol::Anthropic || protocol == Protocol::Gemini;
    if !settings.enabled {
        if !can_disable_reasoning(protocol, &settings.options) {
            return None;
        }
        if toggle || telling {
            return Some(ReasoningConfig::Toggle(false));
        }
        return Some(ReasoningConfig::Effort(copy("none")));
    }
    if toggle {
        return Some(ReasoningConfig::Toggle(true));
    }
    match floor {
        Some(n) => {
            if protocol == Protocol::Gemini {
                return Some(ReasoningConfig::Toggle(true));
            }
            return Some(ReasoningConfig::Budget(n));
        },
        None => {},
    }
    if telling {
        Some(ReasoningConfig::Toggle(true))
    } else {
        None
    }
}

// ---------------------------------------------------------------------------
// Versions of models
// ---------------------------------------------------------------------------
/// The first part from `i` on that is a number.
pub open spec fn number_index(parts: Seq<Seq<char>>, i: int) -> Option<int>
    decreases parts.len() - i,
{
    if i < 0 || i >= parts.len() {
        None
    } else if parse_u32(parts[i]) is Some {
        Some(i)
    } else {
        number_index(parts, i + 1)
    }
}

/// The version in a model's id, between dashes: the first number, and the digit behind it or
/// else zero.
pub open spec fn version_of(model_id: Seq<char>) -> Option<(u32, u32)> {
    let parts = pieces(model_id, '-');
    match number_index(parts, 0) {
        None => None,
        Some(i) => {
            let minor = if i + 1 < parts.len() && parts[i + 1].len() == 1 && parse_u32(
                parts[i + 1],
            ) is Some {
                parse_u32(parts[i + 1])->0
            } else {
                0
            };
            Some((parse_u32(parts[i])->0, minor))
        },
    }
}

/// The version in a model's id: its major and minor number.
pub fn anthropic_version(model_id: &str) -> (r: Option<(u32, u32)>)
    ensures
        r == version_of(model_id@),
{
    let all = pieces_of(model_id, '-');
    let ghost parts = texts(all@);
    let mut i: usize = 0;
    while i < all.len()
        invariant
            i <= all@.len(),
            parts == texts(all@),
            parts == pieces(model_id@, '-'),
            number_index(parts, i as int) == number_index(parts, 0),
        decreases all@.len() - i,
    {
        assert(parts[i as int] == all@[i as int]@);
        match parsed_u32(all[i].as_str()) {
            Some(major) => {
                let mut minor: u32 = 0;
                if i + 1 < all.len() {
                    assert(parts[i + 1] == all@[i + 1]@);
                    let next = chars_of(all[i + 1].as_str());
                    if next.len() == 1 {
                        match parsed_u32(all[i + 1].as_str()) {
                            Some(n) => {
                                minor = n;
                            },
                            None => {},
                        }
                    }
                }
                return Some((major, minor));
            },
            None => {},
        }
        i += 1;
    }
    None
}

/// Whether a model chooses its own thinking budget: from version 4.6 on, and where no version
/// is told.
pub open spec fn thinks_adaptively(model_id: Seq<char>) -> bool {
    contains(model_id, "fable"@) || contains(model_id, "mythos"@) || match version_of(model_id) {
        Some((major, minor)) => major > 4 || (major == 4 && minor >= 6),
        None => true,
    }
}

/// Whether an Anthropic model chooses its own thinking budget, by its id.
pub fn anthropic_uses_adaptive_thinking(model_id: &str) -> (r: bool)
    ensures
        r == thinks_adaptively(model_id@),
{
    if has_text(model_id, "fable") || has_text(model_id, "mythos") {
        return true;
    }
    match anthropic_version(model_id) {
        Some((major, minor)) => major > 4 || (major == 4 && minor >= 6),
        None => true,
    }
}

/// The plan for an Anthropic model: one that does not choose its own budget is given one.
pub open spec fn anthropic_plan(plan: Option<ConfigView>, model_id: Seq<char>) -> Option<ConfigView> {
    if plan == Some(ConfigView::Toggle(true)) && !thinks_adaptively(model_id) {
        Some(ConfigView::Budget(DEFAULT_THINKING_BUDGET))
    } else {
        plan
    }
}

/// The plan for an Anthropic model.
pub fn anthropic_reasoning(plan: Option<ReasoningConfig>, model_id: &str) -> (r: Option<
    ReasoningConfig,
>)
    ensures
        opt_config(r) == anthropic_plan(opt_config(plan), model_id@),
{
    match plan {
        Some(ReasoningConfig::Toggle(true)) => {
            if anthropic_uses_adaptive_thinking(model_id) {
                Some(ReasoningConfig::Toggle(true))
            } else {
                Some(ReasoningConfig::Budget(DEFAULT_THINKING_BUDGET))
            }
        },
        other => other,
    }
}

// ---------------------------------------------------------------------------
// Models and embedders
// ---------------------------------------------------------------------------
/// How a model is set up. What is absent is left to the provider.
pub struct ModelPlan {
    pub protocol: Protocol,
    pub model_id: String,
    pub base_url: Option<String>,
    pub max_tokens: Option<usize>,
    pub reasoning: Option<ReasoningConfig>,
    pub context_window: Option<usize>,
}

/// A number of tokens, unless it is zero.
pub open spec fn positive(n: Option<usize>) -> Option<usize> {
    match n {
        Some(n) => if n > 0 {
            Some(n)
        } else {
            None
        },
        None => None,
    }
}

/// A text, unless it is empty.
pub open spec fn non_empty(s: Seq<char>) -> Option<Seq<char>> {
    if s.len() > 0 {
        Some(s)
    } else {
        None
    }
}

/// The context window that a model reports: none where it is not known or zero.
pub fn apply_context_window(context_window: Option<usize>) -> (r: Option<usize>)
    ensures
        r == positive(context_window),
{
    match context_window {
        Some(n) => if n > 0 {
            Some(n)
        } else {
            None
        },
        None => None,
    }
}

fn given_url(base_url: &str) -> (r: Option<String>)
    ensures
        opt_text(r) == non_empty(base_url@),
{
    if base_url.is_empty() {
        None
    } else {
        Some(copy(base_url))
    }
}

/// How to set up a model: the limit on its output is set for the protocols that take one, and
/// the reasoning is planned for its protocol.
pub fn build_model(
    protocol: Protocol,
    model_id: &str,
    base_url: &str,
    context_window: Option<usize>,
    max_output_tokens: Option<usize>,
    reasoning: &ReasoningSettings,
) -> (r: ModelPlan)
    ensures
        r.protocol == protocol,
        r.model_id@ == model_id@,
        opt_text(r.base_url) == non_empty(base_url@),
        r.max_tokens == (if needs_telling(protocol) {
            positive(max_output_tokens)
        } else {
            None
        }),
        opt_config(r.reasoning) == (if protocol == Protocol::Anthropic {
            anthropic_plan(reasoning_plan(protocol, reasoning@), model_id@)
        } else {
            reasoning_plan(protocol, reasoning@)
        }),
        r.context_window == positive(context_window),
{
    let plan = plan_reasoning(protocol, reasoning);
    let limit = apply_context_window(max_output_tokens);
    let (max_tokens, reasoning): (Option<usize>, Option<ReasoningConfig>) = match protocol {
        Protocol::OpenAI => (None, plan),
        Protocol::Cerebras => (None, plan),
        Protocol::Anthropic => (limit, anthropic_reasoning(plan, model_id)),
        Protocol::Gemini => (limit, plan),
    };
    ModelPlan {
        protocol,
        model_id: copy(model_id),
        base_url: given_url(base_url),
        max_tokens,
        reasoning,
        context_window: apply_context_window(context_window),
    }
}

/// How an embedder is set up.
pub struct EmbedderPlan {
    pub protocol: Protocol,
    pub model_id: String,
    pub base_url: Option<String>,
}

/// Why there is no embedder for a protocol.
pub open spec fn no_embedder(protocol: Protocol) -> Option<Seq<char>> {
    match protocol {
        Protocol::Anthropic => Some(
            "provider protocol `anthropic` has no embeddings API - configure an openai- or gemini-protocol embedder"@,
        ),
        Protocol::Cerebras => Some(
            "provider protocol `cerebras` has no embeddings API - configure an openai- or gemini-protocol embedder"@,
        ),
        _ => None,
    }
}

/// How to set up an embedder, for the protocols that offer one.
pub fn build_embedder(protocol: Protocol, model_id: &str, base_url: &str) -> (r: Result<
    EmbedderPlan,
    String,
>)
    ensures
        match r {
            Ok(p) => no_embedder(protocol) is None && p.protocol == protocol && p.model_id@
                == model_id@ && opt_text(p.base_url) == non_empty(base_url@),
            Err(e) => no_embedder(protocol) == Some(e@),
        },
{
    match protocol {
        Protocol::Anthropic => Err(
            copy(
                "provider protocol `anthropic` has no embeddings API - configure an openai- or gemini-protocol embedder",
            ),
        ),
        Protocol::Cerebras => Err(
            copy(
                "provider protocol `cerebras` has no embeddings API - configure an openai- or gemini-protocol embedder",
            ),
        ),
        _ => Ok(
            EmbedderPlan { protocol, model_id: copy(model_id), base_url: given_url(base_url) },
        ),
    }
}

// ---------------------------------------------------------------------------
// Laws
// ---------------------------------------------------------------------------
proof fn lemma_budget_floor(options: Seq<OptionView>, i: int)
    requires
        0 <= i,
    ensures
        budget_floor(options, i) is Some ==> exists|k: int|
            i <= k < options.len() && (#[trigger] options[k]) is BudgetTokens,
    decreases options.len() - i,
{
    if i < options.len() && !(options[i] is BudgetTokens) {
        lemma_budget_floor(options, i + 1);
    }
}

/// A model is never sent a control that it does not offer: an effort only where it offers
/// levels, a budget only where it offers one, and a toggle only where it offers one or its
/// protocol takes it from every model.
pub proof fn only_offered_controls_are_sent(protocol: Protocol, s: SettingsView)
    ensures
        match reasoning_plan(protocol, s) {
            None => true,
            Some(ConfigView::Effort(_)) => offers_effort(s.options),
            Some(ConfigView::Budget(_)) => exists|k: int|
                0 <= k < s.options.len() && (#[trigger] s.options[k]) is BudgetTokens,
            Some(ConfigView::Toggle(_)) => offers_toggle(s.options) || needs_telling(protocol),
        },
{
    lemma_budget_floor(s.options, 0);
    if offers_no_effort(s.options) {
        let i = choose|i: int|
            0 <= i < s.options.len() && match #[trigger] s.options[i] {
                OptionView::Effort { values } => values.contains("none"@),
                _ => false,
            };
        assert(s.options[i] is Effort);
    }
}

/// Turning reasoning off without choosing an effort or a budget sends something if and only if
/// reasoning can be turned off, and what is sent turns it off.
pub proof fn turning_off_is_sent_where_possible(protocol: Protocol, s: SettingsView)
    requires
        !s.enabled,
        s.effort is None,
        s.budget_tokens is None,
    ensures
        (reasoning_plan(protocol, s) is Some) == can_disable(protocol, s.options),
        reasoning_plan(protocol, s) matches Some(c) ==> c == ConfigView::Toggle(false) || c
            == ConfigView::Effort("none"@),
{
}

/// Planning twice for an Anthropic model is planning once, and one that does not choose its
/// own budget is never told to.
pub proof fn anthropic_plans_are_settled(plan: Option<ConfigView>, model_id: Seq<char>)
    ensures
        anthropic_plan(anthropic_plan(plan, model_id), model_id) == anthropic_plan(plan, model_id),
        !thinks_adaptively(model_id) ==> anthropic_plan(plan, model_id) != Some(
            ConfigView::Toggle(true),
        ),
{
}

/// What the user chose is what is sent, where the model offers that control: a level of effort
/// first, then a budget, whether reasoning is on or off.
pub proof fn offered_choices_are_sent(protocol: Protocol, s: SettingsView, i: int)
    requires
        0 <= i < s.options.len(),
    ensures
        s.options[i] is Effort ==> (s.effort matches Some(e) ==> reasoning_plan(protocol, s)
            == Some(ConfigView::Effort(e))),
        s.options[i] is BudgetTokens && s.effort is None ==> (s.budget_tokens matches Some(n)
            ==> reasoning_plan(protocol, s) == Some(ConfigView::Budget(n))),
{
    lemma_has_floor(s.options, 0, i);
    if s.options[i] is Effort {
        assert(offers_effort(s.options));
    }
}

proof fn lemma_has_floor(options: Seq<OptionView>, k: int, i: int)
    requires
        0 <= k <= i < options.len(),
    ensures
        options[i] is BudgetTokens ==> budget_floor(options, k) is Some,
    decreases i - k,
{
    if k < i {
        lemma_has_floor(options, k + 1, i);
    }
}

/// Where reasoning is on and the user chose nothing, a toggle is turned on; without a toggle the
/// least budget is sent, or to Gemini that reasoning is on; and a model that reasons only when
/// told to is told so.
pub proof fn turning_on_is_sent(protocol: Protocol, s: SettingsView, i: int)
    requires
        s.enabled,
        s.effort is None,
        s.budget_tokens is None,
    ensures
        0 <= i < s.options.len() && s.options[i] is Toggle ==> reasoning_plan(protocol, s) == Some(
            ConfigView::Toggle(true),
        ),
        protocol == Protocol::Anthropic || protocol == Protocol::Gemini ==> reasoning_plan(
            protocol,
            s,
        ) is Some,
        protocol == Protocol::Gemini ==> reasoning_plan(protocol, s) == Some(
            ConfigView::Toggle(true),
        ),
        0 <= i < s.options.len() && protocol != Protocol::Gemini && s.options[i] is BudgetTokens
            && (forall|k: int| 0 <= k < s.options.len() ==> !(#[trigger] s.options[k] is Toggle))
            && (forall|k: int| 0 <= k < i ==> !(#[trigger] s.options[k] is BudgetTokens))
            ==> reasoning_plan(protocol, s) == Some(
            ConfigView::Budget(
                match s.options[i]->BudgetTokens_min {
                    Some(n) => n,
                    None => 2048,
                },
            ),
        ),
        reasoning_plan(protocol, s) != Some(ConfigView::Toggle(false)),
{
    if 0 <= i < s.options.len() && s.options[i] is Toggle {
        assert(offers_toggle(s.options));
    }
    if 0 <= i < s.options.len() && s.options[i] is BudgetTokens && (forall|k: int|
        0 <= k < i ==> !(#[trigger] s.options[k] is BudgetTokens)) {
        lemma_floor_is(s.options, 0, i);
    }
}

proof fn lemma_floor_is(options: Seq<OptionView>, k: int, i: int)
    requires
        0 <= k <= i < options.len(),
        options[i] is BudgetTokens,
        forall|j: int| k <= j < i ==> !(#[trigger] options[j] is BudgetTokens),
    ensures
        budget_floor(options, k) == Some(
            match options[i]->BudgetTokens_min {
                Some(n) => n,
                None => 2048,
            },
        ),
    decreases i - k,
{
    if k < i {
        assert(!(options[k] is BudgetTokens));
        lemma_floor_is(options, k + 1, i);
    }
}

/// Reasoning can be turned off by a toggle, by the level `none`, or because the protocol's models
/// reason only when told to, and in no other way.
pub proof fn reasoning_is_turned_off_in_three_ways(
    protocol: Protocol,
    options: Seq<OptionView>,
    i: int,
)
    ensures
        0 <= i < options.len() && options[i] is Toggle ==> can_disable(protocol, options),
        0 <= i < options.len() && options[i] is Effort && options[i]->values.contains("none"@)
            ==> can_disable(protocol, options),
        protocol == Protocol::Anthropic || protocol == Protocol::Gemini ==> can_disable(
            protocol,
            options,
        ),
        (protocol == Protocol::OpenAI || protocol == Protocol::Cerebras) && (forall|k: int|
            0 <= k < options.len() ==> !(#[trigger] options[k] is Toggle) && !(options[k] is Effort
                && options[k]->values.contains("none"@))) ==> !can_disable(protocol, options),
{
    if 0 <= i < options.len() {
        assert(options[i] == options[i]);
    }
}

proof fn lemma_number_index_cons(w: Seq<char>, parts: Seq<Seq<char>>, i: int)
    requires
        0 <= i <= parts.len(),
    ensures
        number_index(seq![w] + parts, i + 1) == (match number_index(parts, i) {
            Some(k) => Some(k + 1),
            None => None,
        }),
        number_index(parts, i) matches Some(k) ==> i <= k < parts.len(),
    decreases parts.len() - i,
{
    if i < parts.len() {
        assert((seq![w] + parts)[i + 1] == parts[i]);
        lemma_number_index_cons(w, parts, i + 1);
    }
}

/// The version of a model is the first number between dashes in its id, whatever words stand
/// before it, and the single digit behind that number; a longer number there, such as a date, is
/// no part of the version.
pub proof fn versions_are_read_from_ids(word: Seq<char>, major: u32, rest: Seq<char>)
    requires
        forall|k: int| 0 <= k < word.len() ==> #[trigger] word[k] != '-',
        parse_u32(word) is None,
    ensures
        version_of(word.push('-') + rest) == version_of(rest),
        version_of(word) is None,
        version_of(decimal(major as nat)) == Some((major, 0u32)),
        version_of(decimal(major as nat).push('-') + rest) == Some(
            (
                major,
                if pieces(rest, '-')[0].len() == 1 && parse_u32(pieces(rest, '-')[0]) is Some {
                    parse_u32(pieces(rest, '-')[0])->0
                } else {
                    0
                },
            ),
        ),
{
    let rp = pieces(rest, '-');
    separators_divide_pieces(word, '-', rest);
    lemma_number_index_cons(word, rp, 0);
    let wp = seq![word] + rp;
    assert(wp[0] == word);
    assert(number_index(wp, 0) == number_index(wp, 1));
    match number_index(rp, 0) {
        Some(i) => {
            assert(wp[i + 1] == rp[i]);
            if i + 1 < rp.len() {
                assert(wp[i + 2] == rp[i + 1]);
            }
        },
        None => {},
    }
    let d = decimal(major as nat);
    numbers_read_back(major as nat);
    assert forall|k: int| 0 <= k < d.len() implies #[trigger] d[k] != '-' by {
        assert(is_digit(d[k]));
    }
    separators_divide_pieces(d, '-', rest);
    assert((seq![d] + rp)[0] == d);
    assert(rp.len() > 0);
    assert((seq![d] + rp)[1] == rp[0]);
    reveal_with_fuel(number_index, 3);
    assert(seq![word][0] == word);
    assert(seq![d][0] == d);
}

/// A model thinks adaptively from version 4.6 on: a later version does wherever an earlier one
/// does, and an id without a version does.
pub proof fn adaptive_thinking_starts_with_a_version(a: Seq<char>, b: Seq<char>)
    requires
        !contains(a, "fable"@) && !contains(a, "mythos"@),
        !contains(b, "fable"@) && !contains(b, "mythos"@),
    ensures
        version_of(a) is None ==> thinks_adaptively(a),
        version_of(a) == Some((4u32, 6u32)) ==> thinks_adaptively(a),
        version_of(a) == Some((4u32, 5u32)) ==> !thinks_adaptively(a),
        version_of(a) matches Some(v) ==> (version_of(b) matches Some(w) ==> (v.0 < w.0 || (v.0
            == w.0 && v.1 <= w.1) ==> (thinks_adaptively(a) ==> thinks_adaptively(b)))),
{
}

/// A number of tokens that is known is kept unless it is zero, and a text unless it is empty.
pub proof fn known_values_are_kept(n: usize, s: Seq<char>)
    ensures
        positive(Some(n)) == if n == 0 {
            None
        } else {
            Some(n)
        },
        positive(None) is None,
        s.len() > 0 ==> non_empty(s) == Some(s),
        s.len() == 0 ==> non_empty(s) is None,
{
}

/// There are embedders for OpenAI and Gemini, and for no other protocol.
pub proof fn two_protocols_embed(protocol: Protocol)
    ensures
        (no_embedder(protocol) is None) == (protocol == Protocol::OpenAI || protocol
            == Protocol::Gemini),
{
}

/// A model is set up as it is known: by its id, at its address, with its context window and, where
/// the protocol takes one, the limit on its output. An Anthropic model that does not choose its own
/// budget is given one.
pub proof fn models_are_set_up_as_known(
    protocol: Protocol,
    model_id: &str,
    base_url: &str,
    window: Option<usize>,
    output: Option<usize>,
    reasoning: ReasoningSettings,
    r: ModelPlan,
)
    requires
        call_ensures(
            build_model,
            (protocol, model_id, base_url, window, output, &reasoning),
            r,
        ),
    ensures
        r.protocol == protocol,
        r.model_id@ == model_id@,
        base_url@.len() > 0 ==> opt_text(r.base_url) == Some(base_url@),
        window matches Some(n) ==> (n > 0 ==> r.context_window == Some(n)),
        protocol == Protocol::Anthropic || protocol == Protocol::Gemini ==> (output matches Some(n)
            ==> (n > 0 ==> r.max_tokens == Some(n))),
        protocol == Protocol::OpenAI || protocol == Protocol::Cerebras ==> r.max_tokens is None,
        protocol != Protocol::Anthropic ==> opt_config(r.reasoning) == reasoning_plan(
            protocol,
            reasoning@,
        ),
        protocol == Protocol::Anthropic && reasoning_plan(protocol, reasoning@) == Some(
            ConfigView::Toggle(true),
        ) && !thinks_adaptively(model_id@) ==> opt_config(r.reasoning) == Some(
            ConfigView::Budget(2048),
        ),
        protocol == Protocol::Anthropic && thinks_adaptively(model_id@) ==> opt_config(r.reasoning)
            == reasoning_plan(protocol, reasoning@),
{
}

} // verus!
