//! The catalog of providers and models.
use crate::sort::Sortable;
use crate::text::{
    contains, copy, copy_all, decimal, decimal_text, has_text, join, joined, lemma_contains,
    opt_str, same, texts,
};
use crate::text_map::{comes_before, text_less, texts_are_ordered};
use vstd::prelude::*;

verus! {

/// The version of the catalog's shape. A catalog of another version is not used while it is
/// possible to fetch a new one.
pub const CATALOG_SCHEMA_VERSION: u32 = 3;

/// How long a catalog is fresh, in nanoseconds: a day.
pub const CACHE_TTL_NANOS: u128 = 86_400_000_000_000;

/// The protocols in which providers are spoken to.
#[derive(Clone, Copy, Debug, PartialEq, Eq, Hash, Structural)]
pub enum Protocol {
    OpenAI,
    Cerebras,
    Anthropic,
    Gemini,
}

impl Protocol {
    pub open spec fn name(self) -> Seq<char> {
        match self {
            Protocol::OpenAI => "openai"@,
            Protocol::Cerebras => "cerebras"@,
            Protocol::Anthropic => "anthropic"@,
            Protocol::Gemini => "gemini"@,
        }
    }

    /// The protocol's name.
    pub fn to_text(&self) -> (r: &'static str)
        ensures
            r@ == self.name(),
    {
        match self {
            Protocol::OpenAI => "openai",
            Protocol::Cerebras => "cerebras",
            Protocol::Anthropic => "anthropic",
            Protocol::Gemini => "gemini",
        }
    }
}

/// A way in which a model's reasoning can be controlled.
#[derive(Debug, PartialEq, Eq)]
pub enum ReasoningOption {
    /// On or off.
    Toggle,
    /// One of some levels.
    Effort { values: Vec<String> },
    /// A budget of tokens within bounds.
    BudgetTokens { min: Option<u32>, max: Option<u32> },
}

pub enum OptionView {
    Toggle,
    Effort { values: Seq<Seq<char>> },
    BudgetTokens { min: Option<u32>, max: Option<u32> },
}

impl View for ReasoningOption {
    type V = OptionView;

    open spec fn view(&self) -> OptionView {
        match *self {
            ReasoningOption::Toggle => OptionView::Toggle,
            ReasoningOption::Effort { values } => OptionView::Effort { values: texts(values@) },
            ReasoningOption::BudgetTokens { min, max } => OptionView::BudgetTokens { min, max },
        }
    }
}

pub open spec fn option_views(s: Seq<ReasoningOption>) -> Seq<OptionView> {
    Seq::new(s.len(), |i: int| s[i]@)
}

impl OptionView {
    pub open spec fn kind_name(self) -> Seq<char> {
        match self {
            OptionView::Toggle => "on/off"@,
            OptionView::Effort { .. } => "effort"@,
            OptionView::BudgetTokens { .. } => "budget"@,
        }
    }

    pub open spec fn capability(self) -> Seq<char> {
        match self {
            OptionView::Toggle => "on/off"@,
            OptionView::Effort { values } => "effort["@ + join(values, "/"@) + "]"@,
            OptionView::BudgetTokens { min, max } => "budget["@ + range_text(min, max) + "]"@,
        }
    }
}

/// The bounds of a budget.
pub open spec fn range_text(min: Option<u32>, max: Option<u32>) -> Seq<char> {
    match (min, max) {
        (Some(a), Some(b)) => decimal(a as nat) + ".."@ + decimal(b as nat),
        (Some(a), None) => ">="@ + decimal(a as nat),
        (None, Some(b)) => "<="@ + decimal(b as nat),
        (None, None) => "any"@,
    }
}

impl ReasoningOption {
    /// The kind of control, in a word.
    pub fn kind_label(&self) -> (r: &'static str)
        ensures
            r@ == self@.kind_name(),
    {
        match self {
            ReasoningOption::Toggle => "on/off",
            ReasoningOption::Effort { .. } => "effort",
            ReasoningOption::BudgetTokens { .. } => "budget",
        }
    }

    /// The kind of control with its levels or bounds.
    pub fn capability_label(&self) -> (r: String)
        ensures
            r@ == self@.capability(),
    {
        match self {
            ReasoningOption::Toggle => copy("on/off"),
            ReasoningOption::Effort { values } => {
                let mut r = copy("effort[");
                let list = joined(values, "/");
                r.append(list.as_str());
                r.append("]");
                r
            },
            ReasoningOption::BudgetTokens { min, max } => {
                let range = match (*min, *max) {
                    (Some(a), Some(b)) => {
                        let mut t = decimal_text(a as u64);
                        t.append("..");
                        let u = decimal_text(b as u64);
                        t.append(u.as_str());
                        t
                    },
                    (Some(a), None) => {
                        let mut t = copy(">=");
                        let u = decimal_text(a as u64);
                        t.append(u.as_str());
                        t
                    },
                    (None, Some(b)) => {
                        let mut t = copy("<=");
                        let u = decimal_text(b as u64);
                        t.append(u.as_str());
                        t
                    },
                    (None, None) => copy("any"),
                };
                let mut r = copy("budget[");
                r.append(range.as_str());
                r.append("]");
                r
            },
        }
    }

    pub fn copied(&self) -> (r: ReasoningOption)
        ensures
            r@ == self@,
    {
        match self {
            ReasoningOption::Toggle => ReasoningOption::Toggle,
            ReasoningOption::Effort { values } => ReasoningOption::Effort {
                values: copy_all(values),
            },
            ReasoningOption::BudgetTokens { min, max } => ReasoningOption::BudgetTokens {
                min: *min,
                max: *max,
            },
        }
    }
}

pub fn copy_options(v: &Vec<ReasoningOption>) -> (r: Vec<ReasoningOption>)
    ensures
        option_views(r@) == option_views(v@),
{
    let mut r: Vec<ReasoningOption> = Vec::new();
    let mut i: usize = 0;
    while i < v.len()
        invariant
            i <= v@.len(),
            option_views(r@) =~= option_views(v@).take(i as int),
        decreases v@.len() - i,
    {
        let ghost r0 = option_views(r@);
        r.push(v[i].copied());
        assert(option_views(r@) =~= r0.push(v@[i as int]@));
        i += 1;
    }
    assert(option_views(r@) =~= option_views(v@));
    r
}

/// A model of the catalog.
#[derive(Debug, PartialEq, Eq)]
pub struct CatalogModel {
    pub id: String,
    pub name: String,
    pub context_window: Option<usize>,
    pub max_output_tokens: Option<usize>,
    pub reasoning: bool,
    /// Whether the model takes images.
    pub vision: bool,
    /// How its reasoning can be controlled, if at all.
    pub reasoning_options: Vec<ReasoningOption>,
}

/// What the catalog says of a model.
pub struct ModelView {
    pub id: Seq<char>,
    pub name: Seq<char>,
    pub context_window: Option<usize>,
    pub max_output_tokens: Option<usize>,
    pub reasoning: bool,
    pub vision: bool,
    pub reasoning_options: Seq<OptionView>,
}

impl View for CatalogModel {
    type V = ModelView;

    open spec fn view(&self) -> ModelView {
        ModelView {
            id: self.id@,
            name: self.name@,
            context_window: self.context_window,
            max_output_tokens: self.max_output_tokens,
            reasoning: self.reasoning,
            vision: self.vision,
            reasoning_options: option_views(self.reasoning_options@),
        }
    }
}

pub open spec fn model_views(s: Seq<CatalogModel>) -> Seq<ModelView> {
    Seq::new(s.len(), |i: int| s[i]@)
}

impl CatalogModel {
    pub fn copied(&self) -> (r: CatalogModel)
        ensures
            r@ == self@,
    {
        CatalogModel {
            id: self.id.clone(),
            name: self.name.clone(),
            context_window: self.context_window,
            max_output_tokens: self.max_output_tokens,
            reasoning: self.reasoning,
            vision: self.vision,
            reasoning_options: copy_options(&self.reasoning_options),
        }
    }
}

/// A provider of the catalog.
#[derive(Debug, PartialEq, Eq)]
pub struct CatalogProvider {
    pub id: String,
    pub name: String,
    pub base_url: String,
    pub protocol: Protocol,
    pub env: Vec<String>,
    pub models: Vec<CatalogModel>,
}

/// The catalog, with the time at which it was fetched in nanoseconds of the Unix epoch.
#[derive(Debug, PartialEq, Eq)]
pub struct Catalog {
    pub providers: Vec<CatalogProvider>,
    pub fetched_at: u128,
    pub schema_version: u32,
}

impl Default for Catalog {
    fn default() -> (r: Catalog)
        ensures
            r.providers@.len() == 0,
            r.fetched_at == 0,
            r.schema_version == CATALOG_SCHEMA_VERSION,
    {
        Catalog {
            providers: Vec::new(),
            fetched_at: 0,
            schema_version: CATALOG_SCHEMA_VERSION,
        }
    }
}

impl Sortable for CatalogModel {
    open spec fn precedes(&self, other: &CatalogModel) -> bool {
        text_less(self.id@, other.id@)
    }

    proof fn order_laws(a: &CatalogModel, b: &CatalogModel, c: &CatalogModel) {
        texts_are_ordered(a.id@, b.id@, c.id@);
        texts_are_ordered(b.id@, c.id@, a.id@);
        texts_are_ordered(c.id@, a.id@, b.id@);
        texts_are_ordered(c.id@, b.id@, a.id@);
    }

    fn is_before(&self, other: &CatalogModel) -> (r: bool) {
        comes_before(self.id.as_str(), other.id.as_str())
    }
}

impl Sortable for CatalogProvider {
    open spec fn precedes(&self, other: &CatalogProvider) -> bool {
        text_less(self.id@, other.id@)
    }

    proof fn order_laws(a: &CatalogProvider, b: &CatalogProvider, c: &CatalogProvider) {
        texts_are_ordered(a.id@, b.id@, c.id@);
        texts_are_ordered(b.id@, c.id@, a.id@);
        texts_are_ordered(c.id@, a.id@, b.id@);
        texts_are_ordered(c.id@, b.id@, a.id@);
    }

    fn is_before(&self, other: &CatalogProvider) -> (r: bool) {
        comes_before(self.id.as_str(), other.id.as_str())
    }
}

// ---------------------------------------------------------------------------
// Protocols and addresses
// ---------------------------------------------------------------------------
/// The packages of providers that are spoken to as OpenAI is.
pub open spec fn is_openai_like(npm: Seq<char>) -> bool {
    ||| npm == "@ai-sdk/openai"@
    ||| npm == "@ai-sdk/openai-compatible"@
    ||| npm == "@ai-sdk/groq"@
    ||| npm == "@ai-sdk/deepinfra"@
    ||| npm == "@ai-sdk/mistral"@
    ||| npm == "@ai-sdk/xai"@
    ||| npm == "@ai-sdk/perplexity"@
    ||| npm == "@ai-sdk/togetherai"@
    ||| npm == "@ai-sdk/cohere"@
    ||| npm == "@ai-sdk/azure"@
    ||| npm == "@openrouter/ai-sdk-provider"@
    ||| npm == "@ai-sdk/gateway"@
    ||| npm == "@ai-sdk/vercel"@
    ||| npm == "@aiihubmix/ai-sdk-provider"@
    ||| npm == "ai-gateway-provider"@
    ||| npm == "venice-ai-sdk-provider"@
    ||| npm == "gitlab-ai-provider"@
}

/// The protocol of a provider whose package is `npm`.
pub open spec fn npm_protocol(npm: Seq<char>) -> Option<Protocol> {
    if contains(npm, "anthropic"@) {
        Some(Protocol::Anthropic)
    } else if npm == "@ai-sdk/google"@ || npm == "@ai-sdk/google-vertex"@ {
        Some(Protocol::Gemini)
    } else if npm == "@ai-sdk/cerebras"@ {
        Some(Protocol::Cerebras)
    } else if is_openai_like(npm) {
        Some(Protocol::OpenAI)
    } else {
        None
    }
}

/// The protocol of a provider whose package is `npm`; none where it is not supported.
pub fn protocol_from_npm(npm: &str) -> (r: Option<Protocol>)
    ensures
        r == npm_protocol(npm@),
{
    if has_text(npm, "anthropic") {
        Some(Protocol::Anthropic)
    } else if same(npm, "@ai-sdk/google") || same(npm, "@ai-sdk/google-vertex") {
        Some(Protocol::Gemini)
    } else if same(npm, "@ai-sdk/cerebras") {
        Some(Protocol::Cerebras)
    } else if same(npm, "@ai-sdk/openai") || same(npm, "@ai-sdk/openai-compatible") || same(
        npm,
        "@ai-sdk/groq",
    ) || same(npm, "@ai-sdk/deepinfra") || same(npm, "@ai-sdk/mistral") || same(npm, "@ai-sdk/xai")
        || same(npm, "@ai-sdk/perplexity") || same(npm, "@ai-sdk/togetherai") || same(
        npm,
        "@ai-sdk/cohere",
    ) || same(npm, "@ai-sdk/azure") || same(npm, "@openrouter/ai-sdk-provider") || same(
        npm,
        "@ai-sdk/gateway",
    ) || same(npm, "@ai-sdk/vercel") || same(npm, "@aiihubmix/ai-sdk-provider") || same(
        npm,
        "ai-gateway-provider",
    ) || same(npm, "venice-ai-sdk-provider") || same(npm, "gitlab-ai-provider") {
        Some(Protocol::OpenAI)
    } else {
        None
    }
}

/// The address of a provider that is known without the catalog.
pub open spec fn base_url_of(id: Seq<char>) -> Option<Seq<char>> {
    if id == "anthropic"@ {
        Some("https://api.anthropic.com/v1"@)
    } else if id == "openai"@ {
        Some("https://api.openai.com/v1"@)
    } else if id == "cerebras"@ {
        Some("https://api.cerebras.ai/v1"@)
    } else if id == "groq"@ {
        Some("https://api.groq.com/openai/v1"@)
    } else if id == "deepinfra"@ {
        Some("https://api.deepinfra.com/v1/openai"@)
    } else if id == "mistral"@ {
        Some("https://api.mistral.ai/v1"@)
    } else if id == "xai"@ {
        Some("https://api.x.ai/v1"@)
    } else if id == "perplexity"@ {
        Some("https://api.perplexity.ai"@)
    } else if id == "togetherai"@ {
        Some("https://api.together.xyz/v1"@)
    } else if id == "cohere"@ {
        Some("https://api.cohere.com/v2"@)
    } else if id == "venice"@ {
        Some("https://api.venice.ai/api/v1"@)
    } else if id == "google"@ {
        Some("https://generativelanguage.googleapis.com"@)
    } else {
        None
    }
}

/// The address of a provider that is known without the catalog. Providers that need more than
/// a key have none.
pub fn known_base_url(provider_id: &str) -> (r: Option<&'static str>)
    ensures
        opt_str(r) == base_url_of(provider_id@),
{
    if same(provider_id, "anthropic") {
        Some("https://api.anthropic.com/v1")
    } else if same(provider_id, "openai") {
        Some("https://api.openai.com/v1")
    } else if same(provider_id, "cerebras") {
        Some("https://api.cerebras.ai/v1")
    } else if same(provider_id, "groq") {
        Some("https://api.groq.com/openai/v1")
    } else if same(provider_id, "deepinfra") {
        Some("https://api.deepinfra.com/v1/openai")
    } else if same(provider_id, "mistral") {
        Some("https://api.mistral.ai/v1")
    } else if same(provider_id, "xai") {
        Some("https://api.x.ai/v1")
    } else if same(provider_id, "perplexity") {
        Some("https://api.perplexity.ai")
    } else if same(provider_id, "togetherai") {
        Some("https://api.together.xyz/v1")
    } else if same(provider_id, "cohere") {
        Some("https://api.cohere.com/v2")
    } else if same(provider_id, "venice") {
        Some("https://api.venice.ai/api/v1")
    } else if same(provider_id, "google") {
        Some("https://generativelanguage.googleapis.com")
    } else {
        None
    }
}

// ---------------------------------------------------------------------------
// Looking things up
// ---------------------------------------------------------------------------
/// The first provider from `i` on with the id `id`.
pub open spec fn provider_index(ps: Seq<CatalogProvider>, id: Seq<char>, i: int) -> Option<int>
    decreases ps.len() - i,
{
    if i < 0 || i >= ps.len() {
        None
    } else if ps[i].id@ == id {
        Some(i)
    } else {
        provider_index(ps, id, i + 1)
    }
}

/// The first model from `i` on with the id `id`.
pub open spec fn model_index(ms: Seq<CatalogModel>, id: Seq<char>, i: int) -> Option<int>
    decreases ms.len() - i,
{
    if i < 0 || i >= ms.len() {
        None
    } else if ms[i].id@ == id {
        Some(i)
    } else {
        model_index(ms, id, i + 1)
    }
}

/// The provider with the id `id`.
pub open spec fn provider_in(c: Catalog, id: Seq<char>) -> Option<CatalogProvider> {
    match provider_index(c.providers@, id, 0) {
        Some(i) => Some(c.providers@[i]),
        None => None,
    }
}

/// The model `model` of the provider `provider`.
pub open spec fn model_in(c: Catalog, provider: Seq<char>, model: Seq<char>) -> Option<
    CatalogModel,
> {
    match provider_in(c, provider) {
        Some(p) => match model_index(p.models@, model, 0) {
            Some(i) => Some(p.models@[i]),
            None => None,
        },
        None => None,
    }
}

/// The providers whose flag is set.
pub open spec fn picked(ps: Seq<CatalogProvider>, flags: Seq<bool>) -> Seq<CatalogProvider>
    decreases ps.len(),
{
    if ps.len() == 0 || flags.len() != ps.len() {
        Seq::empty()
    } else if flags.last() {
        picked(ps.drop_last(), flags.drop_last()).push(ps.last())
    } else {
        picked(ps.drop_last(), flags.drop_last())
    }
}

/// What a list of references refers to.
pub open spec fn referred(v: Seq<&CatalogProvider>) -> Seq<CatalogProvider> {
    Seq::new(v.len(), |i: int| *v[i])
}

impl Catalog {
    /// Whether the catalog is used as it is at the time `now`, in nanoseconds of the Unix
    /// epoch: it has the current shape and is less than a day old. One from the future is
    /// not.
    pub fn is_fresh(&self, now: u128) -> (r: bool)
        ensures
            r == (self.schema_version == CATALOG_SCHEMA_VERSION && self.fetched_at <= now && now
                - self.fetched_at < CACHE_TTL_NANOS),
    {
        self.schema_version == CATALOG_SCHEMA_VERSION && self.fetched_at <= now && now
            - self.fetched_at < CACHE_TTL_NANOS
    }

    /// The provider with the id `id`.
    pub fn get_provider(&self, id: &str) -> (r: Option<&CatalogProvider>)
        ensures
            (r is Some) == (provider_in(*self, id@) is Some),
            r matches Some(p) ==> provider_in(*self, id@) == Some(*p),
    {
        let mut i: usize = 0;
        while i < self.providers.len()
            invariant
                i <= self.providers@.len(),
                provider_index(self.providers@, id@, i as int) == provider_index(
                    self.providers@,
                    id@,
                    0,
                ),
            decreases self.providers@.len() - i,
        {
            if same(self.providers[i].id.as_str(), id) {
                return Some(&self.providers[i]);
            }
            i += 1;
        }
        None
    }

    /// The model `model` of the provider `provider`.
    pub fn find_model(&self, provider: &str, model: &str) -> (r: Option<&CatalogModel>)
        ensures
            (r is Some) == (model_in(*self, provider@, model@) is Some),
            r matches Some(m) ==> model_in(*self, provider@, model@) == Some(*m),
    {
        match self.get_provider(provider) {
            None => None,
            Some(p) => {
                let mut i: usize = 0;
                while i < p.models.len()
                    invariant
                        i <= p.models@.len(),
                        provider_in(*self, provider@) == Some(*p),
                        model_index(p.models@, model@, i as int) == model_index(
                            p.models@,
                            model@,
                            0,
                        ),
                    decreases p.models@.len() - i,
                {
                    if same(p.models[i].id.as_str(), model) {
                        return Some(&p.models[i]);
                    }
                    i += 1;
                }
                None
            },
        }
    }

    /// The ids of the providers, in order.
    pub fn provider_ids(&self) -> (r: Vec<&str>)
        ensures
            r@.len() == self.providers@.len(),
            forall|i: int| 0 <= i < r@.len() ==> (#[trigger] r@[i])@ == self.providers@[i].id@,
    {
        let mut r: Vec<&str> = Vec::new();
        let mut i: usize = 0;
        while i < self.providers.len()
            invariant
                i <= self.providers@.len(),
                r@.len() == i,
                forall|k: int| 0 <= k < i ==> (#[trigger] r@[k])@ == self.providers@[k].id@,
            decreases self.providers@.len() - i,
        {
            r.push(self.providers[i].id.as_str());
            i += 1;
        }
        r
    }

    /// The providers that `is_connected` accepts by their ids, in order.
    pub fn providers_with_auth<F: Fn(&str) -> bool>(&self, is_connected: F) -> (r: Vec<
        &CatalogProvider,
    >)
        requires
            forall|id: &str| is_connected.requires((id,)),
        ensures
            exists|flags: Seq<bool>|
                #[trigger] answers(is_connected, self.providers@, flags) && referred(r@) == picked(
                    self.providers@,
                    flags,
                ),
    {
        let ghost mut flags: Seq<bool> = Seq::empty();
        let mut r: Vec<&CatalogProvider> = Vec::new();
        let mut i: usize = 0;
        assert(referred(r@) =~= Seq::empty());
        while i < self.providers.len()
            invariant
                i <= self.providers@.len(),
                flags.len() == i,
                forall|id: &str| is_connected.requires((id,)),
                answers(is_connected, self.providers@.take(i as int), flags),
                referred(r@) == picked(self.providers@.take(i as int), flags),
            decreases self.providers@.len() - i,
        {
            let p = &self.providers[i];
            let ghost r0 = referred(r@);
            let ghost flags0 = flags;
            let id: &str = p.id.as_str();
            let yes = is_connected(id);
            if yes {
                r.push(p);
                assert(referred(r@) =~= r0.push(*p));
            }
            proof {
                flags = flags.push(yes);
                let t = self.providers@.take(i + 1);
                assert(t.drop_last() =~= self.providers@.take(i as int));
                assert(t.last() == *p);
                assert(flags.drop_last() =~= flags0);
                assert(is_connected.ensures((id,), yes));
                assert(answer(is_connected, *p, yes));
                assert forall|k: int| 0 <= k < t.len() implies answer(
                    is_connected,
                    #[trigger] t[k],
                    flags[k],
                ) by {
                    if k < i {
                        assert(t[k] == self.providers@.take(i as int)[k]);
                        assert(flags[k] == flags0[k]);
                    }
                }
            }
            i += 1;
        }
        assert(self.providers@.take(i as int) =~= self.providers@);
        r
    }
}

/// Whether `b` is what `f` answers for the id of `p`.
pub open spec fn answer<F: Fn(&str) -> bool>(f: F, p: CatalogProvider, b: bool) -> bool {
    exists|id: &str| id@ == p.id@ && #[trigger] f.ensures((id,), b)
}

/// Whether `flags` are what `f` answers for the ids of `ps`.
pub open spec fn answers<F: Fn(&str) -> bool>(
    f: F,
    ps: Seq<CatalogProvider>,
    flags: Seq<bool>,
) -> bool {
    &&& flags.len() == ps.len()
    &&& forall|k: int| 0 <= k < ps.len() ==> answer(f, #[trigger] ps[k], flags[k])
}

/// The cached catalog, where it is fresh.
pub fn fresh_cache(cached: Option<Catalog>, now: u128) -> (r: Option<Catalog>)
    ensures
        r == (match cached {
            Some(c) => if c.schema_version == CATALOG_SCHEMA_VERSION && c.fetched_at <= now && now
                - c.fetched_at < CACHE_TTL_NANOS {
                Some(c)
            } else {
                None
            },
            None => None,
        }),
{
    match cached {
        Some(c) => if c.is_fresh(now) {
            Some(c)
        } else {
            None
        },
        None => None,
    }
}

/// The catalog to use after fetching: the fetched one, or else the cached one however old, or
/// else the error.
pub fn after_fetch<E>(fetched: Result<Catalog, E>, cached: Option<Catalog>) -> (r: Result<
    Catalog,
    E,
>)
    ensures
        r == (match fetched {
            Ok(c) => Ok(c),
            Err(e) => match cached {
                Some(c) => Ok(c),
                None => Err(e),
            },
        }),
{
    match fetched {
        Ok(c) => Ok(c),
        Err(e) => match cached {
            Some(c) => Ok(c),
            None => Err(e),
        },
    }
}

proof fn lemma_provider_index(ps: Seq<CatalogProvider>, id: Seq<char>, from: int)
    requires
        0 <= from,
    ensures
        match provider_index(ps, id, from) {
            Some(i) => from <= i < ps.len() && ps[i].id@ == id && forall|k: int|
                from <= k < i ==> (#[trigger] ps[k]).id@ != id,
            None => forall|k: int| from <= k < ps.len() ==> (#[trigger] ps[k]).id@ != id,
        },
    decreases ps.len() - from,
{
    if from < ps.len() && ps[from].id@ != id {
        lemma_provider_index(ps, id, from + 1);
    }
}

proof fn lemma_model_index(ms: Seq<CatalogModel>, id: Seq<char>, from: int)
    requires
        0 <= from,
    ensures
        match model_index(ms, id, from) {
            Some(i) => from <= i < ms.len() && ms[i].id@ == id && forall|k: int|
                from <= k < i ==> (#[trigger] ms[k]).id@ != id,
            None => forall|k: int| from <= k < ms.len() ==> (#[trigger] ms[k]).id@ != id,
        },
    decreases ms.len() - from,
{
    if from < ms.len() && ms[from].id@ != id {
        lemma_model_index(ms, id, from + 1);
    }
}

/// A provider of the catalog is found by its id: one that is there is found, what is found bears
/// the id, and of several the first is found.
pub proof fn providers_are_found_by_id(c: Catalog, id: Seq<char>, k: int)
    ensures
        provider_in(c, id) matches Some(p) ==> p.id@ == id && c.providers@.contains(p),
        0 <= k < c.providers@.len() && c.providers@[k].id@ == id ==> provider_in(c, id) is Some,
        0 <= k < c.providers@.len() && c.providers@[k].id@ == id && (forall|j: int|
            0 <= j < k ==> (#[trigger] c.providers@[j]).id@ != id) ==> provider_in(c, id) == Some(
            c.providers@[k],
        ),
{
    lemma_provider_index(c.providers@, id, 0);
}

/// A model is found by its id among those of its provider and nowhere else.
pub proof fn models_are_found_by_id(c: Catalog, provider: Seq<char>, id: Seq<char>, k: int)
    ensures
        provider_in(c, provider) is None ==> model_in(c, provider, id) is None,
        provider_in(c, provider) matches Some(p) ==> {
            &&& model_in(c, provider, id) matches Some(m) ==> m.id@ == id && p.models@.contains(m)
            &&& 0 <= k < p.models@.len() && p.models@[k].id@ == id ==> model_in(c, provider, id)
                is Some
        },
{
    if provider_in(c, provider) is Some {
        lemma_model_index((provider_in(c, provider)->0).models@, id, 0);
    }
}

/// The providers that are picked are those whose flag is set, in their order.
pub proof fn flagged_providers_are_picked(
    ps: Seq<CatalogProvider>,
    flags: Seq<bool>,
    p: CatalogProvider,
    flag: bool,
)
    requires
        flags.len() == ps.len(),
    ensures
        picked(ps.push(p), flags.push(flag)) == if flag {
            picked(ps, flags).push(p)
        } else {
            picked(ps, flags)
        },
        picked(Seq::empty(), Seq::empty()).len() == 0,
{
    assert(ps.push(p).drop_last() =~= ps);
    assert(flags.push(flag).drop_last() =~= flags);
}

/// A package that speaks of Anthropic is spoken to as Anthropic is, whatever else its name holds,
/// and each package of the ecosystem that is supported has a protocol.
pub proof fn supported_packages_have_a_protocol(before: Seq<char>, after: Seq<char>, npm: Seq<char>)
    ensures
        npm_protocol(before + "anthropic"@ + after) == Some(Protocol::Anthropic),
        seq![
            "@ai-sdk/openai"@,
            "@ai-sdk/openai-compatible"@,
            "@ai-sdk/groq"@,
            "@ai-sdk/deepinfra"@,
            "@ai-sdk/mistral"@,
            "@ai-sdk/xai"@,
            "@ai-sdk/perplexity"@,
            "@ai-sdk/togetherai"@,
            "@ai-sdk/cohere"@,
            "@ai-sdk/azure"@,
            "@openrouter/ai-sdk-provider"@,
            "@ai-sdk/gateway"@,
            "@ai-sdk/vercel"@,
            "@aiihubmix/ai-sdk-provider"@,
            "ai-gateway-provider"@,
            "venice-ai-sdk-provider"@,
            "gitlab-ai-provider"@,
            "@ai-sdk/google"@,
            "@ai-sdk/google-vertex"@,
            "@ai-sdk/cerebras"@,
        ].contains(npm) ==> npm_protocol(npm) is Some,
{
    let s = before + "anthropic"@ + after;
    let n = before.len() as int;
    assert(s.subrange(n, n + "anthropic"@.len()) =~= "anthropic"@);
    lemma_contains(s, "anthropic"@, n);
}

/// A catalog is used as it is for a day, where it has the current shape, and not before it was
/// fetched. One that was fetched goes before one that was kept, and one that was kept, however
/// old, goes before an error.
pub proof fn catalogs_are_used_for_a_day<E>(
    cached: Catalog,
    now: u128,
    fresh: Option<Catalog>,
    fetched: Result<Catalog, E>,
    kept: Option<Catalog>,
    r: Result<Catalog, E>,
)
    requires
        call_ensures(fresh_cache, (Some(cached), now), fresh),
        call_ensures(after_fetch::<E>, (fetched, kept), r),
    ensures
        cached.schema_version == CATALOG_SCHEMA_VERSION && cached.fetched_at <= now && now
            - cached.fetched_at < 86_400_000_000_000 ==> fresh == Some(cached),
        cached.schema_version != CATALOG_SCHEMA_VERSION || now < cached.fetched_at || now
            - cached.fetched_at >= 86_400_000_000_000 ==> fresh is None,
        fetched is Ok ==> r == fetched,
        fetched is Err ==> (kept matches Some(c) ==> r == Ok::<Catalog, E>(c)),
        fetched is Err && kept is None ==> r == fetched,
{
}

/// The providers that are reached without the catalog's help have an address.
pub proof fn known_providers_have_an_address(id: Seq<char>)
    ensures
        seq![
            "anthropic"@,
            "openai"@,
            "cerebras"@,
            "groq"@,
            "deepinfra"@,
            "mistral"@,
            "xai"@,
            "perplexity"@,
            "togetherai"@,
            "cohere"@,
            "venice"@,
            "google"@,
        ].contains(id) == (base_url_of(id) is Some),
{
    let known = seq![
        "anthropic"@,
        "openai"@,
        "cerebras"@,
        "groq"@,
        "deepinfra"@,
        "mistral"@,
        "xai"@,
        "perplexity"@,
        "togetherai"@,
        "cohere"@,
        "venice"@,
        "google"@,
    ];
    assert(known[0] == "anthropic"@ && known[1] == "openai"@ && known[2] == "cerebras"@ && known[3]
        == "groq"@ && known[4] == "deepinfra"@ && known[5] == "mistral"@ && known[6] == "xai"@
        && known[7] == "perplexity"@ && known[8] == "togetherai"@ && known[9] == "cohere"@
        && known[10] == "venice"@ && known[11] == "google"@);
}

/// What is looked up in the catalog is what stands there under that id.
pub proof fn lookups_find_what_is_there(
    c: Catalog,
    id: &str,
    model: &str,
    p: Option<&CatalogProvider>,
    m: Option<&CatalogModel>,
    k: int,
)
    requires
        call_ensures(Catalog::get_provider, (&c, id), p),
        call_ensures(Catalog::find_model, (&c, id, model), m),
        0 <= k < c.providers@.len(),
    ensures
        c.providers@[k].id@ == id@ ==> p is Some,
        p matches Some(q) ==> q.id@ == id@,
        m matches Some(n) ==> n.id@ == model@ && p is Some,
{
    providers_are_found_by_id(c, id@, k);
    models_are_found_by_id(c, id@, model@, 0);
}

/// The kinds of control are told apart. Of a budget both bounds are told, and of effort all levels.
pub proof fn controls_are_told_in_full(a: OptionView, b: OptionView, min: u32, max: u32)
    ensures
        a.kind_name() == b.kind_name() ==> (a is Toggle) == (b is Toggle) && (a is Effort) == (
        b is Effort),
        a matches OptionView::Effort { values } ==> a.capability() == "effort["@ + join(
            values,
            "/"@,
        ) + "]"@,
        (OptionView::BudgetTokens { min: Some(min), max: Some(max) }).capability() == "budget["@ + (
        decimal(min as nat) + ".."@ + decimal(max as nat)) + "]"@,
        contains(
            (OptionView::BudgetTokens { min: Some(min), max: None }).capability(),
            decimal(min as nat),
        ),
        contains(
            (OptionView::BudgetTokens { min: None, max: Some(max) }).capability(),
            decimal(max as nat),
        ),
{
    reveal_strlit("on/off");
    reveal_strlit("effort");
    reveal_strlit("budget");
    assert("on/off"@[0] == 'o' && "effort"@[0] == 'e' && "budget"@[0] == 'b');
    let s = (OptionView::BudgetTokens { min: Some(min), max: None }).capability();
    let t = (OptionView::BudgetTokens { min: None, max: Some(max) }).capability();
    let i = ("budget["@ + ">="@).len() as int;
    let j = ("budget["@ + "<="@).len() as int;
    let m = decimal(min as nat);
    let n = decimal(max as nat);
    assert(s.subrange(i, i + m.len()) =~= m);
    assert(t.subrange(j, j + n.len()) =~= n);
    lemma_contains(s, m, i);
    lemma_contains(t, n, j);
}

} // verus!
