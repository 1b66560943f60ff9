//! The catalog as it is published, and how it becomes the catalog that is used.
use crate::catalog;
use crate::sort::{arranged, is_order_of, is_sorted_of, sorted, sorts_before};
use crate::text::{contains_text, copy, copy_all, opt_text, texts};
use crate::text_map::{text_less, texts_are_ordered};
use vstd::prelude::*;

verus! {

/// The published catalog: its providers, in any order.
pub struct ModelsDev(pub Vec<Provider>);

/// A published provider, with its models in any order.
pub struct Provider {
    pub id: String,
    pub name: String,
    pub npm: String,
    pub api: Option<String>,
    pub env: Vec<String>,
    pub models: Vec<Model>,
}

/// A published model.
pub struct Model {
    pub id: String,
    pub name: String,
    pub limit: Option<Limit>,
    pub tool_call: Option<bool>,
    pub reasoning: bool,
    pub modalities: Option<Modalities>,
    pub reasoning_options: Vec<ReasoningOption>,
}

/// What a model takes and gives.
pub struct Modalities {
    pub input: Vec<String>,
}

/// A published way to control reasoning. One that is not known is ignored.
pub enum ReasoningOption {
    Toggle,
    Effort { values: Vec<String> },
    BudgetTokens { min: Option<u32>, max: Option<u32> },
    Unknown,
}

/// The limits of a model, in tokens.
pub struct Limit {
    pub context: Option<u64>,
    pub output: Option<u64>,
}

// ---------------------------------------------------------------------------
// Models
// ---------------------------------------------------------------------------
/// The known ways among the published ones.
pub open spec fn known_options(s: Seq<ReasoningOption>) -> Seq<catalog::OptionView>
    decreases s.len(),
{
    if s.len() == 0 {
        Seq::empty()
    } else {
        let before = known_options(s.drop_last());
        match s.last() {
            ReasoningOption::Toggle => before.push(catalog::OptionView::Toggle),
            ReasoningOption::Effort { values } => before.push(
                catalog::OptionView::Effort { values: texts(values@) },
            ),
            ReasoningOption::BudgetTokens { min, max } => before.push(
                catalog::OptionView::BudgetTokens { min, max },
            ),
            ReasoningOption::Unknown => before,
        }
    }
}

/// Whether a model takes images.
pub open spec fn takes_images(m: Model) -> bool {
    match m.modalities {
        Some(x) => texts(x.input@).contains("image"@),
        None => false,
    }
}

/// Whether a model is not said to be unable to call tools.
pub open spec fn calls_tools(m: Model) -> bool {
    m.tool_call != Some(false)
}

/// A limit, as far as it is known.
pub open spec fn limit_of(n: Option<u64>) -> Option<usize> {
    match n {
        Some(n) => Some(n as usize),
        None => None,
    }
}

/// Whether `m` is the published model `r` as the catalog has it.
pub open spec fn is_model_from(m: catalog::CatalogModel, r: Model) -> bool {
    &&& m.id == r.id
    &&& m.name == if r.name@.len() == 0 {
        r.id
    } else {
        r.name
    }
    &&& m.context_window == (match r.limit {
        Some(l) => limit_of(l.context),
        None => None,
    })
    &&& m.max_output_tokens == (match r.limit {
        Some(l) => limit_of(l.output),
        None => None,
    })
    &&& m.reasoning == r.reasoning
    &&& m.vision == takes_images(r)
    &&& catalog::option_views(m.reasoning_options@) == known_options(r.reasoning_options@)
}

impl Model {
    /// Whether the model takes images.
    pub fn accepts_image_input(&self) -> (r: bool)
        ensures
            r == takes_images(*self),
    {
        match &self.modalities {
            Some(m) => contains_text(&m.input, "image"),
            None => false,
        }
    }

    /// The known ways to control the model's reasoning.
    pub fn reasoning_options(&self) -> (r: Vec<catalog::ReasoningOption>)
        ensures
            catalog::option_views(r@) == known_options(self.reasoning_options@),
    {
        let mut r: Vec<catalog::ReasoningOption> = Vec::new();
        let mut i: usize = 0;
        assert(self.reasoning_options@.take(0) =~= Seq::empty());
        assert(catalog::option_views(r@) =~= Seq::empty());
        while i < self.reasoning_options.len()
            invariant
                i <= self.reasoning_options@.len(),
                catalog::option_views(r@) == known_options(self.reasoning_options@.take(i as int)),
            decreases self.reasoning_options@.len() - i,
        {
            let ghost r0 = catalog::option_views(r@);
            proof {
                let t = self.reasoning_options@.take(i + 1);
                assert(t.drop_last() =~= self.reasoning_options@.take(i as int));
                assert(t.last() == self.reasoning_options@[i as int]);
            }
            match &self.reasoning_options[i] {
                ReasoningOption::Toggle => {
                    r.push(catalog::ReasoningOption::Toggle);
                    assert(catalog::option_views(r@) =~= r0.push(catalog::OptionView::Toggle));
                },
                ReasoningOption::Effort { values } => {
                    let o = catalog::ReasoningOption::Effort { values: copy_all(values) };
                    r.push(o);
                    assert(catalog::option_views(r@) =~= r0.push(o@));
                },
                ReasoningOption::BudgetTokens { min, max } => {
                    let o = catalog::ReasoningOption::BudgetTokens { min: *min, max: *max };
                    r.push(o);
                    assert(catalog::option_views(r@) =~= r0.push(o@));
                },
                ReasoningOption::Unknown => {},
            }
            i += 1;
        }
        assert(self.reasoning_options@.take(i as int) =~= self.reasoning_options@);
        r
    }

    fn to_catalog(&self) -> (r: catalog::CatalogModel)
        ensures
            is_model_from(r, *self),
    {
        let (context, output): (Option<u64>, Option<u64>) = match &self.limit {
            Some(l) => (l.context, l.output),
            None => (None, None),
        };
        catalog::CatalogModel {
            id: self.id.clone(),
            name: if self.name.as_str().is_empty() {
                self.id.clone()
            } else {
                self.name.clone()
            },
            context_window: match context {
                Some(n) => Some(#[verifier::truncate] (n as usize)),
                None => None,
            },
            max_output_tokens: match output {
                Some(n) => Some(#[verifier::truncate] (n as usize)),
                None => None,
            },
            reasoning: self.reasoning,
            vision: self.accepts_image_input(),
            reasoning_options: self.reasoning_options(),
        }
    }
}

// ---------------------------------------------------------------------------
// Providers
// ---------------------------------------------------------------------------
/// The models that can call tools.
pub open spec fn tool_models(ms: Seq<Model>) -> Seq<Model>
    decreases ms.len(),
{
    if ms.len() == 0 {
        Seq::empty()
    } else if calls_tools(ms.last()) {
        tool_models(ms.drop_last()).push(ms.last())
    } else {
        tool_models(ms.drop_last())
    }
}

/// Whether `out` holds the models that can call tools, sorted by id.
pub open spec fn are_models_from(out: Seq<catalog::CatalogModel>, ms: Seq<Model>) -> bool {
    exists|u: Seq<catalog::CatalogModel>| #[trigger] pairs_up(u, tool_models(ms)) && is_sorted_of(
        out,
        u,
    )
}

/// Whether each of `u` is the model of `ms` in its place.
pub open spec fn pairs_up(u: Seq<catalog::CatalogModel>, ms: Seq<Model>) -> bool {
    u.len() == ms.len() && forall|i: int| 0 <= i < u.len() ==> is_model_from(#[trigger] u[i], ms[i])
}

/// The address of a provider: the published one, or else the known one.
pub open spec fn address(p: Provider) -> Option<Seq<char>> {
    match p.api {
        Some(a) => Some(a@),
        None => catalog::base_url_of(p.id@),
    }
}

/// Whether a provider can be used: its protocol is supported, its address is known, and it has
/// a model that can call tools.
pub open spec fn is_usable(p: Provider) -> bool {
    catalog::npm_protocol(p.npm@) is Some && address(p) is Some && tool_models(p.models@).len() > 0
}

/// Whether `c` is the published provider `p` as the catalog has it.
pub open spec fn is_provider_from(c: catalog::CatalogProvider, p: Provider) -> bool {
    &&& c.id == p.id
    &&& c.name == p.name
    &&& Some(c.base_url@) == address(p)
    &&& Some(c.protocol) == catalog::npm_protocol(p.npm@)
    &&& c.env@ == p.env@
    &&& are_models_from(c.models@, p.models@)
}

/// The providers that can be used.
pub open spec fn usable(ps: Seq<Provider>) -> Seq<Provider>
    decreases ps.len(),
{
    if ps.len() == 0 {
        Seq::empty()
    } else if is_usable(ps.last()) {
        usable(ps.drop_last()).push(ps.last())
    } else {
        usable(ps.drop_last())
    }
}

/// Whether each of `u` is the provider of `ps` in its place.
pub open spec fn providers_pair_up(u: Seq<catalog::CatalogProvider>, ps: Seq<Provider>) -> bool {
    u.len() == ps.len() && forall|i: int|
        0 <= i < u.len() ==> is_provider_from(#[trigger] u[i], ps[i])
}

/// Whether `out` holds the providers that can be used, sorted by id.
pub open spec fn are_providers_from(out: Seq<catalog::CatalogProvider>, ps: Seq<Provider>) -> bool {
    exists|u: Seq<catalog::CatalogProvider>|
        #[trigger] providers_pair_up(u, usable(ps)) && is_sorted_of(out, u)
}

impl Provider {
    fn catalog_models(&self) -> (r: Vec<catalog::CatalogModel>)
        ensures
            are_models_from(r@, self.models@),
            r@.len() == tool_models(self.models@).len(),
    {
        let mut u: Vec<catalog::CatalogModel> = Vec::new();
        let mut i: usize = 0;
        assert(self.models@.take(0) =~= Seq::empty());
        while i < self.models.len()
            invariant
                i <= self.models@.len(),
                pairs_up(u@, tool_models(self.models@.take(i as int))),
            decreases self.models@.len() - i,
        {
            let m = &self.models[i];
            proof {
                let t = self.models@.take(i + 1);
                assert(t.drop_last() =~= self.models@.take(i as int));
                assert(t.last() == *m);
            }
            let able = match m.tool_call {
                Some(b) => b,
                None => true,
            };
            if able {
                u.push(m.to_catalog());
            }
            i += 1;
        }
        assert(self.models@.take(i as int) =~= self.models@);
        let ghost given = u@;
        let r = sorted(u);
        assert(pairs_up(given, tool_models(self.models@)));
        r
    }

    fn to_catalog(&self) -> (r: Option<catalog::CatalogProvider>)
        ensures
            (r is Some) == is_usable(*self),
            r matches Some(c) ==> is_provider_from(c, *self),
    {
        let protocol = match catalog::protocol_from_npm(self.npm.as_str()) {
            Some(p) => p,
            None => {
                return None;
            },
        };
        let base_url = match &self.api {
            Some(a) => a.clone(),
            None => match catalog::known_base_url(self.id.as_str()) {
                Some(u) => copy(u),
                None => {
                    return None;
                },
            },
        };
        let models = self.catalog_models();
        if models.len() == 0 {
            return None;
        }
        Some(
            catalog::CatalogProvider {
                id: self.id.clone(),
                name: self.name.clone(),
                base_url,
                protocol,
                env: copy_all(&self.env),
                models,
            },
        )
    }
}

impl ModelsDev {
    /// The providers that can be used, sorted by id, each with its models that can call tools,
    /// sorted by id.
    pub fn into_providers(self) -> (r: Vec<catalog::CatalogProvider>)
        ensures
            are_providers_from(r@, self.0@),
    {
        let mut u: Vec<catalog::CatalogProvider> = Vec::new();
        let mut i: usize = 0;
        assert(self.0@.take(0) =~= Seq::empty());
        while i < self.0.len()
            invariant
                i <= self.0@.len(),
                providers_pair_up(u@, usable(self.0@.take(i as int))),
            decreases self.0@.len() - i,
        {
            let p = &self.0[i];
            proof {
                let t = self.0@.take(i + 1);
                assert(t.drop_last() =~= self.0@.take(i as int));
                assert(t.last() == *p);
            }
            match p.to_catalog() {
                Some(c) => {
                    u.push(c);
                },
                None => {},
            }
            i += 1;
        }
        assert(self.0@.take(i as int) =~= self.0@);
        let ghost given = u@;
        let r = sorted(u);
        assert(providers_pair_up(given, usable(self.0@)));
        r
    }
}

// ---------------------------------------------------------------------------
// Laws
// ---------------------------------------------------------------------------
proof fn lemma_tool_models(ms: Seq<Model>)
    ensures
        forall|i: int| 0 <= i < tool_models(ms).len() ==> calls_tools(#[trigger] tool_models(ms)[i]),
    decreases ms.len(),
{
    if ms.len() > 0 {
        let before = tool_models(ms.drop_last());
        lemma_tool_models(ms.drop_last());
        assert forall|i: int| 0 <= i < tool_models(ms).len() implies calls_tools(
            #[trigger] tool_models(ms)[i],
        ) by {
            if i < before.len() {
                assert(tool_models(ms)[i] == before[i]);
            }
        }
    }
}

proof fn lemma_usable(ps: Seq<Provider>)
    ensures
        forall|i: int| 0 <= i < usable(ps).len() ==> is_usable(#[trigger] usable(ps)[i]),
    decreases ps.len(),
{
    if ps.len() > 0 {
        let before = usable(ps.drop_last());
        lemma_usable(ps.drop_last());
        assert forall|i: int| 0 <= i < usable(ps).len() implies is_usable(
            #[trigger] usable(ps)[i],
        ) by {
            if i < before.len() {
                assert(usable(ps)[i] == before[i]);
            }
        }
    }
}

/// In the catalog the providers come in the order of their ids, and each has at least one
/// model.
pub proof fn catalogs_are_sorted(out: Seq<catalog::CatalogProvider>, ps: Seq<Provider>)
    requires
        are_providers_from(out, ps),
    ensures
        forall|i: int, j: int|
            0 <= i < j < out.len() ==> !text_less((#[trigger] out[j]).id@, (#[trigger] out[i]).id@),
        forall|i: int| 0 <= i < out.len() ==> (#[trigger] out[i]).models@.len() > 0,
        out.len() == usable(ps).len(),
{
    let u = choose|u: Seq<catalog::CatalogProvider>|
        #[trigger] providers_pair_up(u, usable(ps)) && is_sorted_of(out, u);
    let p = choose|p: Seq<int>| #[trigger] is_order_of(p, u) && out == arranged(u, p);
    lemma_usable(ps);
    assert forall|i: int, j: int| 0 <= i < j < out.len() implies !text_less(
        (#[trigger] out[j]).id@,
        (#[trigger] out[i]).id@,
    ) by {
        assert(sorts_before(u, p[i], p[j]));
        texts_are_ordered(out[i].id@, out[j].id@, out[i].id@);
    }
    assert forall|i: int| 0 <= i < out.len() implies (#[trigger] out[i]).models@.len() > 0 by {
        let k = p[i];
        assert(out[i] == u[k]);
        assert(is_provider_from(u[k], usable(ps)[k]));
        let ms = usable(ps)[k].models@;
        let w = choose|w: Seq<catalog::CatalogModel>|
            #[trigger] pairs_up(w, tool_models(ms)) && is_sorted_of(out[i].models@, w);
        assert(w.len() > 0);
    }
}

/// Whether `m` is one of the published models `ms`, and that one can call tools.
pub open spec fn comes_from_a_tool_model(m: catalog::CatalogModel, ms: Seq<Model>) -> bool {
    exists|k: int| 0 <= k < ms.len() && is_model_from(m, #[trigger] ms[k]) && calls_tools(ms[k])
}

/// Every model of a provider in the catalog is a published model that is not said to be unable
/// to call tools, and the models come in the order of their ids.
pub proof fn catalog_models_call_tools(out: Seq<catalog::CatalogModel>, ms: Seq<Model>)
    requires
        are_models_from(out, ms),
    ensures
        out.len() == tool_models(ms).len(),
        forall|i: int|
            0 <= i < out.len() ==> comes_from_a_tool_model(#[trigger] out[i], tool_models(ms)),
        forall|i: int, j: int|
            0 <= i < j < out.len() ==> !text_less((#[trigger] out[j]).id@, (#[trigger] out[i]).id@),
{
    let u = choose|u: Seq<catalog::CatalogModel>|
        #[trigger] pairs_up(u, tool_models(ms)) && is_sorted_of(out, u);
    let p = choose|p: Seq<int>| #[trigger] is_order_of(p, u) && out == arranged(u, p);
    lemma_tool_models(ms);
    assert forall|i: int| 0 <= i < out.len() implies comes_from_a_tool_model(
        #[trigger] out[i],
        tool_models(ms),
    ) by {
        let k = p[i];
        assert(out[i] == u[k]);
        assert(is_model_from(out[i], tool_models(ms)[k]));
    }
    assert forall|i: int, j: int| 0 <= i < j < out.len() implies !text_less(
        (#[trigger] out[j]).id@,
        (#[trigger] out[i]).id@,
    ) by {
        assert(sorts_before(u, p[i], p[j]));
        texts_are_ordered(out[i].id@, out[j].id@, out[i].id@);
    }
}

/// Whether texts come in order, and none twice.
pub open spec fn ascending(ids: Seq<Seq<char>>) -> bool {
    forall|i: int, j: int| 0 <= i < j < ids.len() ==> text_less(#[trigger] ids[i], #[trigger] ids[j])
}

proof fn lemma_ascending(a: Seq<Seq<char>>, b: Seq<Seq<char>>)
    requires
        ascending(a),
        ascending(b),
        forall|x: Seq<char>| #[trigger] a.contains(x) <==> b.contains(x),
    ensures
        a == b,
    decreases a.len(),
{
    if a.len() == 0 {
        if b.len() > 0 {
            assert(b.contains(b[0]));
            assert(a.contains(b[0]));
        }
        assert(a =~= b);
    } else {
        let x = a.last();
        assert(a.contains(x));
        assert(b.contains(x));
        let y = b.last();
        assert(b.contains(y));
        assert(a.contains(y));
        let i = choose|i: int| 0 <= i < a.len() && a[i] == y;
        let j = choose|j: int| 0 <= j < b.len() && b[j] == x;
        texts_are_ordered(x, y, x);
        assert(x == y) by {
            if i < a.len() - 1 {
                assert(text_less(a[i], a[a.len() - 1]));
            }
            if j < b.len() - 1 {
                assert(text_less(b[j], b[b.len() - 1]));
            }
        }
        let c = a.drop_last();
        let d = b.drop_last();
        assert forall|z: Seq<char>| #[trigger] c.contains(z) <==> d.contains(z) by {
            texts_are_ordered(x, x, x);
            if c.contains(z) {
                let k = choose|k: int| 0 <= k < c.len() && c[k] == z;
                assert(a[k] == z);
                assert(text_less(a[k], a[a.len() - 1]));
                assert(a.contains(z));
                assert(b.contains(z));
                let l = choose|l: int| 0 <= l < b.len() && b[l] == z;
                assert(d[l] == z);
            }
            if d.contains(z) {
                let k = choose|k: int| 0 <= k < d.len() && d[k] == z;
                assert(b[k] == z);
                assert(text_less(b[k], b[b.len() - 1]));
                assert(b.contains(z));
                assert(a.contains(z));
                let l = choose|l: int| 0 <= l < a.len() && a[l] == z;
                assert(c[l] == z);
            }
        }
        lemma_ascending(c, d);
        assert(a =~= c.push(x));
        assert(b =~= d.push(x));
    }
}

/// What the catalog reads of a published model.
pub struct ModelEntry {
    pub id: Seq<char>,
    pub name: Seq<char>,
    pub limit: Option<Limit>,
    pub calls_tools: bool,
    pub reasoning: bool,
    pub images: bool,
    pub options: Seq<catalog::OptionView>,
}

pub open spec fn model_entry(m: Model) -> ModelEntry {
    ModelEntry {
        id: m.id@,
        name: m.name@,
        limit: m.limit,
        calls_tools: calls_tools(m),
        reasoning: m.reasoning,
        images: takes_images(m),
        options: known_options(m.reasoning_options@),
    }
}

/// Whether one of `ms` is the entry `e`.
pub open spec fn lists_model(ms: Seq<Model>, e: ModelEntry) -> bool {
    exists|k: int| 0 <= k < ms.len() && model_entry(#[trigger] ms[k]) == e
}

/// Whether two lists hold the same models, in any order.
pub open spec fn same_models(ms: Seq<Model>, ns: Seq<Model>) -> bool {
    forall|e: ModelEntry| #[trigger] lists_model(ms, e) <==> lists_model(ns, e)
}

/// Whether no two models have one id.
pub open spec fn model_ids_differ(ms: Seq<Model>) -> bool {
    forall|i: int, j: int|
        0 <= i < j < ms.len() ==> (#[trigger] ms[i]).id@ != (#[trigger] ms[j]).id@
}

/// What the catalog makes of an entry.
pub open spec fn entry_view(e: ModelEntry) -> catalog::ModelView {
    catalog::ModelView {
        id: e.id,
        name: if e.name.len() == 0 {
            e.id
        } else {
            e.name
        },
        context_window: match e.limit {
            Some(l) => limit_of(l.context),
            None => None,
        },
        max_output_tokens: match e.limit {
            Some(l) => limit_of(l.output),
            None => None,
        },
        reasoning: e.reasoning,
        vision: e.images,
        reasoning_options: e.options,
    }
}

pub open spec fn model_ids(ms: Seq<catalog::CatalogModel>) -> Seq<Seq<char>> {
    Seq::new(ms.len(), |i: int| ms[i].id@)
}

proof fn lemma_tool_model_at(ms: Seq<Model>, k: int) -> (at: int)
    requires
        0 <= k < tool_models(ms).len(),
    ensures
        0 <= at < ms.len(),
        ms[at] == tool_models(ms)[k],
        calls_tools(ms[at]),
        forall|l: int| 0 <= l < ms.len() && calls_tools(#[trigger] ms[l]) ==> tool_models(
            ms,
        ).contains(ms[l]),
        model_ids_differ(ms) ==> forall|l: int|
            0 <= l < tool_models(ms).len() && l != k ==> (#[trigger] tool_models(ms)[l]).id@
                != tool_models(ms)[k].id@,
    decreases ms.len(),
{
    lemma_tool_models(ms);
    lemma_all_tool_models(ms);
    let before = ms.drop_last();
    let tb = tool_models(before);
    let t = tool_models(ms);
    let at = if k < tb.len() {
        assert(t[k] == tb[k]);
        let at = lemma_tool_model_at(before, k);
        assert(before[at] == ms[at]);
        at
    } else {
        ms.len() - 1
    };
    if model_ids_differ(ms) {
        assert forall|i: int, j: int| 0 <= i < j < before.len() implies (#[trigger] before[i]).id@ != (
        #[trigger] before[j]).id@ by {
            assert(before[i] == ms[i] && before[j] == ms[j]);
        }
        assert forall|l: int| 0 <= l < t.len() && l != k implies (#[trigger] t[l]).id@
            != t[k].id@ by {
            if l < tb.len() && k < tb.len() {
                assert(t[l] == tb[l]);
            } else if l < tb.len() {
                let b = lemma_tool_model_at(before, l);
                assert(t[l] == tb[l]);
                assert(ms[b] == before[b]);
                assert(t[k] == ms[ms.len() - 1]);
            } else {
                let b = at;
                assert(t[l] == ms[ms.len() - 1]);
                assert(b < ms.len() - 1);
            }
        }
    }
    at
}

proof fn lemma_all_tool_models(ms: Seq<Model>)
    ensures
        forall|l: int| 0 <= l < ms.len() && calls_tools(#[trigger] ms[l]) ==> tool_models(
            ms,
        ).contains(ms[l]),
    decreases ms.len(),
{
    if ms.len() > 0 {
        let before = ms.drop_last();
        let tb = tool_models(before);
        let t = tool_models(ms);
        lemma_all_tool_models(before);
        assert forall|l: int| 0 <= l < ms.len() && calls_tools(#[trigger] ms[l]) implies t.contains(
            ms[l],
        ) by {
            if l < before.len() {
                assert(before[l] == ms[l]);
                let k = choose|k: int| 0 <= k < tb.len() && tb[k] == ms[l];
                assert(t[k] == ms[l]);
            } else {
                assert(t[t.len() - 1] == ms[l]);
            }
        }
    }
}

proof fn lemma_models(out: Seq<catalog::CatalogModel>, ms: Seq<Model>)
    requires
        are_models_from(out, ms),
        model_ids_differ(ms),
    ensures
        ascending(model_ids(out)),
{
    let t = tool_models(ms);
    let u = choose|u: Seq<catalog::CatalogModel>|
        #[trigger] pairs_up(u, t) && is_sorted_of(out, u);
    let p = choose|p: Seq<int>| #[trigger] is_order_of(p, u) && out == arranged(u, p);
    let ids = model_ids(out);
    assert forall|i: int, j: int| 0 <= i < j < ids.len() implies text_less(
        #[trigger] ids[i],
        #[trigger] ids[j],
    ) by {
        assert(sorts_before(u, p[i], p[j]));
        texts_are_ordered(ids[i], ids[j], ids[i]);
        assert(is_model_from(u[p[i]], t[p[i]]));
        assert(is_model_from(u[p[j]], t[p[j]]));
        if ids[i] == ids[j] {
            assert(p[i] != p[j]);
            let at = lemma_tool_model_at(ms, p[j]);
        }
    }
}

proof fn lemma_entry_of(out: Seq<catalog::CatalogModel>, ms: Seq<Model>, i: int) -> (e: ModelEntry)
    requires
        are_models_from(out, ms),
        0 <= i < out.len(),
    ensures
        lists_model(ms, e),
        e.calls_tools,
        out[i]@ == entry_view(e),
{
    let t = tool_models(ms);
    let u = choose|u: Seq<catalog::CatalogModel>|
        #[trigger] pairs_up(u, t) && is_sorted_of(out, u);
    let p = choose|p: Seq<int>| #[trigger] is_order_of(p, u) && out == arranged(u, p);
    let k = p[i];
    assert(out[i] == u[k]);
    assert(is_model_from(u[k], t[k]));
    let at = lemma_tool_model_at(ms, k);
    assert(lists_model(ms, model_entry(ms[at])));
    model_entry(ms[at])
}

proof fn lemma_place_of(out: Seq<catalog::CatalogModel>, ms: Seq<Model>, e: ModelEntry) -> (i: int)
    requires
        are_models_from(out, ms),
        lists_model(ms, e),
        e.calls_tools,
    ensures
        0 <= i < out.len(),
        out[i]@ == entry_view(e),
{
    let t = tool_models(ms);
    let u = choose|u: Seq<catalog::CatalogModel>|
        #[trigger] pairs_up(u, t) && is_sorted_of(out, u);
    let p = choose|p: Seq<int>| #[trigger] is_order_of(p, u) && out == arranged(u, p);
    let l = choose|l: int| 0 <= l < ms.len() && model_entry(#[trigger] ms[l]) == e;
    lemma_all_tool_models(ms);
    let k = choose|k: int| 0 <= k < t.len() && t[k] == ms[l];
    assert(p.contains(k));
    let i = choose|i: int| 0 <= i < p.len() && p[i] == k;
    assert(out[i] == u[k]);
    assert(is_model_from(u[k], t[k]));
    i
}

/// Where the model in place `i` of one catalog stands in the other.
proof fn lemma_model_within(
    out: Seq<catalog::CatalogModel>,
    ms: Seq<Model>,
    other: Seq<catalog::CatalogModel>,
    ns: Seq<Model>,
    i: int,
) -> (j: int)
    requires
        are_models_from(out, ms),
        are_models_from(other, ns),
        forall|e: ModelEntry| #[trigger] lists_model(ms, e) ==> lists_model(ns, e),
        0 <= i < out.len(),
    ensures
        0 <= j < other.len(),
        out[i]@ == other[j]@,
{
    let e = lemma_entry_of(out, ms, i);
    lemma_place_of(other, ns, e)
}

proof fn lemma_ascending_place(ids: Seq<Seq<char>>, i: int, j: int)
    requires
        ascending(ids),
        0 <= i < ids.len(),
        0 <= j < ids.len(),
        ids[i] == ids[j],
    ensures
        i == j,
{
    texts_are_ordered(ids[i], ids[i], ids[i]);
    if i < j {
        assert(text_less(ids[i], ids[j]));
    }
    if j < i {
        assert(text_less(ids[j], ids[i]));
    }
}

proof fn lemma_same_models(
    out: Seq<catalog::CatalogModel>,
    ms: Seq<Model>,
    other: Seq<catalog::CatalogModel>,
    ns: Seq<Model>,
)
    requires
        are_models_from(out, ms),
        are_models_from(other, ns),
        model_ids_differ(ms),
        model_ids_differ(ns),
        same_models(ms, ns),
    ensures
        catalog::model_views(out) == catalog::model_views(other),
{
    lemma_models(out, ms);
    lemma_models(other, ns);
    let a = model_ids(out);
    let b = model_ids(other);
    assert forall|x: Seq<char>| #[trigger] a.contains(x) <==> b.contains(x) by {
        if a.contains(x) {
            let i = choose|i: int| 0 <= i < a.len() && a[i] == x;
            let j = lemma_model_within(out, ms, other, ns, i);
            assert(out[i]@.id == other[j]@.id);
            assert(b[j] == x);
        }
        if b.contains(x) {
            let j = choose|j: int| 0 <= j < b.len() && b[j] == x;
            let i = lemma_model_within(other, ns, out, ms, j);
            assert(out[i]@.id == other[j]@.id);
            assert(a[i] == x);
        }
    }
    lemma_ascending(a, b);
    assert(a.len() == b.len());
    assert forall|i: int| 0 <= i < out.len() implies (#[trigger] out[i])@ == other[i]@ by {
        let j = lemma_model_within(out, ms, other, ns, i);
        assert(a[i] == b[i]);
        assert(out[i]@.id == other[j]@.id);
        assert(b[j] == b[i]);
        lemma_ascending_place(b, i, j);
    }
    assert(catalog::model_views(out) =~= catalog::model_views(other));
}

/// Whether two published providers are the same, with their models in any order.
pub open spec fn same_provider(p: Provider, q: Provider) -> bool {
    &&& p.id@ == q.id@
    &&& p.name@ == q.name@
    &&& p.npm@ == q.npm@
    &&& opt_text(p.api) == opt_text(q.api)
    &&& texts(p.env@) == texts(q.env@)
    &&& same_models(p.models@, q.models@)
}

/// Whether one of `ps` is the same as `p`.
pub open spec fn lists_provider(ps: Seq<Provider>, p: Provider) -> bool {
    exists|k: int| 0 <= k < ps.len() && same_provider(#[trigger] ps[k], p)
}

/// Whether two listings hold the same providers and models, in any order.
pub open spec fn same_listing(ps: Seq<Provider>, qs: Seq<Provider>) -> bool {
    &&& forall|k: int| 0 <= k < ps.len() ==> lists_provider(qs, #[trigger] ps[k])
    &&& forall|k: int| 0 <= k < qs.len() ==> lists_provider(ps, #[trigger] qs[k])
}

/// Whether no two providers have one id, and no two models of a provider.
pub open spec fn ids_differ(ps: Seq<Provider>) -> bool {
    &&& forall|i: int, j: int|
        0 <= i < j < ps.len() ==> (#[trigger] ps[i]).id@ != (#[trigger] ps[j]).id@
    &&& forall|i: int| 0 <= i < ps.len() ==> model_ids_differ((#[trigger] ps[i]).models@)
}

pub open spec fn provider_ids(ps: Seq<catalog::CatalogProvider>) -> Seq<Seq<char>> {
    Seq::new(ps.len(), |i: int| ps[i].id@)
}

/// Whether two providers of a catalog say the same.
pub open spec fn same_catalog_provider(c: catalog::CatalogProvider, d: catalog::CatalogProvider) -> bool {
    &&& c.id@ == d.id@
    &&& c.name@ == d.name@
    &&& c.base_url@ == d.base_url@
    &&& c.protocol == d.protocol
    &&& texts(c.env@) == texts(d.env@)
    &&& catalog::model_views(c.models@) == catalog::model_views(d.models@)
}

proof fn lemma_all_usable(ps: Seq<Provider>)
    ensures
        forall|l: int| 0 <= l < ps.len() && is_usable(#[trigger] ps[l]) ==> usable(ps).contains(ps[l]),
    decreases ps.len(),
{
    if ps.len() > 0 {
        let before = ps.drop_last();
        let ub = usable(before);
        let u = usable(ps);
        lemma_all_usable(before);
        assert forall|l: int| 0 <= l < ps.len() && is_usable(#[trigger] ps[l]) implies u.contains(
            ps[l],
        ) by {
            if l < before.len() {
                assert(before[l] == ps[l]);
                let k = choose|k: int| 0 <= k < ub.len() && ub[k] == ps[l];
                assert(u[k] == ps[l]);
            } else {
                assert(u[u.len() - 1] == ps[l]);
            }
        }
    }
}

proof fn lemma_usable_at(ps: Seq<Provider>, k: int) -> (at: int)
    requires
        0 <= k < usable(ps).len(),
    ensures
        0 <= at < ps.len(),
        ps[at] == usable(ps)[k],
        ids_differ(ps) ==> forall|l: int|
            0 <= l < usable(ps).len() && l != k ==> (#[trigger] usable(ps)[l]).id@
                != usable(ps)[k].id@,
    decreases ps.len(),
{
    let before = ps.drop_last();
    let ub = usable(before);
    let u = usable(ps);
    let at = if k < ub.len() {
        assert(u[k] == ub[k]);
        let at = lemma_usable_at(before, k);
        assert(before[at] == ps[at]);
        at
    } else {
        ps.len() - 1
    };
    if ids_differ(ps) {
        assert(ids_differ(before)) by {
            assert forall|i: int, j: int| 0 <= i < j < before.len() implies (#[trigger] before[i]).id@
                != (#[trigger] before[j]).id@ by {
                assert(before[i] == ps[i] && before[j] == ps[j]);
            }
            assert forall|i: int| 0 <= i < before.len() implies model_ids_differ(
                (#[trigger] before[i]).models@,
            ) by {
                assert(before[i] == ps[i]);
            }
        }
        assert forall|l: int| 0 <= l < u.len() && l != k implies (#[trigger] u[l]).id@
            != u[k].id@ by {
            if l < ub.len() && k < ub.len() {
                assert(u[l] == ub[l]);
            } else if l < ub.len() {
                let b = lemma_usable_at(before, l);
                assert(u[l] == ub[l]);
                assert(ps[b] == before[b]);
                assert(u[k] == ps[ps.len() - 1]);
            } else {
                assert(u[l] == ps[ps.len() - 1]);
                assert(at < ps.len() - 1);
            }
        }
    }
    at
}

proof fn lemma_providers(out: Seq<catalog::CatalogProvider>, ps: Seq<Provider>)
    requires
        are_providers_from(out, ps),
        ids_differ(ps),
    ensures
        ascending(provider_ids(out)),
{
    let t = usable(ps);
    let u = choose|u: Seq<catalog::CatalogProvider>|
        #[trigger] providers_pair_up(u, t) && is_sorted_of(out, u);
    let p = choose|p: Seq<int>| #[trigger] is_order_of(p, u) && out == arranged(u, p);
    let ids = provider_ids(out);
    assert forall|i: int, j: int| 0 <= i < j < ids.len() implies text_less(
        #[trigger] ids[i],
        #[trigger] ids[j],
    ) by {
        assert(sorts_before(u, p[i], p[j]));
        texts_are_ordered(ids[i], ids[j], ids[i]);
        assert(is_provider_from(u[p[i]], t[p[i]]));
        assert(is_provider_from(u[p[j]], t[p[j]]));
        if ids[i] == ids[j] {
            assert(p[i] != p[j]);
            let at = lemma_usable_at(ps, p[j]);
        }
    }
}

proof fn lemma_source_of(out: Seq<catalog::CatalogProvider>, ps: Seq<Provider>, i: int) -> (at: int)
    requires
        are_providers_from(out, ps),
        0 <= i < out.len(),
    ensures
        0 <= at < ps.len(),
        is_usable(ps[at]),
        is_provider_from(out[i], ps[at]),
{
    let t = usable(ps);
    let u = choose|u: Seq<catalog::CatalogProvider>|
        #[trigger] providers_pair_up(u, t) && is_sorted_of(out, u);
    let p = choose|p: Seq<int>| #[trigger] is_order_of(p, u) && out == arranged(u, p);
    lemma_usable(ps);
    let k = p[i];
    assert(out[i] == u[k]);
    assert(is_provider_from(u[k], t[k]));
    assert(is_usable(t[k]));
    lemma_usable_at(ps, k)
}

proof fn lemma_provider_place(out: Seq<catalog::CatalogProvider>, ps: Seq<Provider>, l: int) -> (i: int)
    requires
        are_providers_from(out, ps),
        0 <= l < ps.len(),
        is_usable(ps[l]),
    ensures
        0 <= i < out.len(),
        is_provider_from(out[i], ps[l]),
{
    let t = usable(ps);
    let u = choose|u: Seq<catalog::CatalogProvider>|
        #[trigger] providers_pair_up(u, t) && is_sorted_of(out, u);
    let p = choose|p: Seq<int>| #[trigger] is_order_of(p, u) && out == arranged(u, p);
    lemma_all_usable(ps);
    assert(t.contains(ps[l]));
    let k = choose|k: int| 0 <= k < t.len() && t[k] == ps[l];
    assert(p.contains(k));
    let i = choose|i: int| 0 <= i < p.len() && p[i] == k;
    assert(out[i] == u[k]);
    assert(is_provider_from(u[k], t[k]));
    i
}

/// Where no two providers have one id, and no two models of a provider, the catalog's providers
/// come in strictly ascending order of their ids, and so do the models of each, of which there
/// is at least one.
pub proof fn catalogs_are_strictly_sorted(out: Seq<catalog::CatalogProvider>, ps: Seq<Provider>)
    requires
        are_providers_from(out, ps),
        ids_differ(ps),
    ensures
        ascending(provider_ids(out)),
        forall|i: int|
            0 <= i < out.len() ==> (#[trigger] out[i]).models@.len() > 0 && ascending(
                model_ids(out[i].models@),
            ),
{
    lemma_providers(out, ps);
    catalogs_are_sorted(out, ps);
    assert forall|i: int| 0 <= i < out.len() implies (#[trigger] out[i]).models@.len() > 0
        && ascending(model_ids(out[i].models@)) by {
        let k = lemma_source_of(out, ps, i);
        lemma_models(out[i].models@, ps[k].models@);
    }
}

proof fn lemma_same_usable(p: Provider, q: Provider)
    requires
        same_provider(p, q),
        is_usable(p),
    ensures
        is_usable(q),
{
    let t = tool_models(p.models@);
    let at = lemma_tool_model_at(p.models@, 0);
    let e = model_entry(p.models@[at]);
    assert(lists_model(p.models@, e));
    assert(lists_model(q.models@, e));
    let k = choose|k: int| 0 <= k < q.models@.len() && model_entry(#[trigger] q.models@[k]) == e;
    lemma_all_tool_models(q.models@);
    assert(tool_models(q.models@).contains(q.models@[k]));
}

proof fn lemma_same_provider_is_same(p: Provider, q: Provider)
    requires
        same_provider(p, q),
    ensures
        same_provider(q, p),
{
}

proof fn lemma_ids_within(
    out: Seq<catalog::CatalogProvider>,
    ps: Seq<Provider>,
    other: Seq<catalog::CatalogProvider>,
    qs: Seq<Provider>,
    i: int,
) -> (j: int)
    requires
        are_providers_from(out, ps),
        are_providers_from(other, qs),
        ids_differ(ps),
        ids_differ(qs),
        forall|k: int| 0 <= k < ps.len() ==> lists_provider(qs, #[trigger] ps[k]),
        0 <= i < out.len(),
    ensures
        0 <= j < other.len(),
        same_catalog_provider(out[i], other[j]),
{
    let k = lemma_source_of(out, ps, i);
    assert(lists_provider(qs, ps[k]));
    let l = choose|l: int| 0 <= l < qs.len() && same_provider(#[trigger] qs[l], ps[k]);
    lemma_same_provider_is_same(qs[l], ps[k]);
    lemma_same_usable(ps[k], qs[l]);
    let j = lemma_provider_place(other, qs, l);
    lemma_same_models(out[i].models@, ps[k].models@, other[j].models@, qs[l].models@);
    j
}

/// The catalog does not depend on the order in which providers and models are listed: two
/// listings that hold the same give catalogs that say the same, place by place.
pub proof fn catalogs_do_not_depend_on_the_order(
    out: Seq<catalog::CatalogProvider>,
    ps: Seq<Provider>,
    other: Seq<catalog::CatalogProvider>,
    qs: Seq<Provider>,
)
    requires
        are_providers_from(out, ps),
        are_providers_from(other, qs),
        ids_differ(ps),
        ids_differ(qs),
        same_listing(ps, qs),
    ensures
        out.len() == other.len(),
        forall|i: int|
            0 <= i < out.len() ==> same_catalog_provider(#[trigger] out[i], other[i]),
{
    lemma_providers(out, ps);
    lemma_providers(other, qs);
    let a = provider_ids(out);
    let b = provider_ids(other);
    assert forall|x: Seq<char>| #[trigger] a.contains(x) <==> b.contains(x) by {
        if a.contains(x) {
            let i = choose|i: int| 0 <= i < a.len() && a[i] == x;
            let j = lemma_ids_within(out, ps, other, qs, i);
            assert(b[j] == x);
        }
        if b.contains(x) {
            let j = choose|j: int| 0 <= j < b.len() && b[j] == x;
            let i = lemma_ids_within(other, qs, out, ps, j);
            assert(a[i] == x);
        }
    }
    lemma_ascending(a, b);
    assert(a.len() == b.len());
    assert forall|i: int| 0 <= i < out.len() implies same_catalog_provider(
        #[trigger] out[i],
        other[i],
    ) by {
        let j = lemma_ids_within(out, ps, other, qs, i);
        assert(a[i] == b[i]);
        assert(b[j] == b[i]);
        lemma_ascending_place(b, i, j);
    }
}

/// Each way to control reasoning that is known is kept as it is published, in order.
pub proof fn known_options_are_kept(s: Seq<ReasoningOption>, o: ReasoningOption)
    ensures
        known_options(s.push(o)) == (match o {
            ReasoningOption::Toggle => known_options(s).push(catalog::OptionView::Toggle),
            ReasoningOption::Effort { values } => known_options(s).push(
                catalog::OptionView::Effort { values: texts(values@) },
            ),
            ReasoningOption::BudgetTokens { min, max } => known_options(s).push(
                catalog::OptionView::BudgetTokens { min, max },
            ),
            ReasoningOption::Unknown => known_options(s),
        }),
        known_options(Seq::empty()).len() == 0,
{
    assert(s.push(o).drop_last() =~= s);
}

/// What is published of a model is what the catalog says of it: a model without a name goes by
/// its id, and it takes images where images are among what it takes.
pub proof fn published_models_are_kept(m: catalog::CatalogModel, r: Model)
    requires
        is_model_from(m, r),
    ensures
        m.id@ == r.id@,
        r.name@.len() > 0 ==> m.name@ == r.name@,
        r.name@.len() == 0 ==> m.name@ == r.id@,
        m.reasoning == r.reasoning,
        m.vision == (r.modalities is Some && texts((r.modalities->0).input@).contains("image"@)),
        r.limit matches Some(l) ==> (l.context matches Some(n) ==> m.context_window == Some(
            n as usize,
        )) && (l.output matches Some(n) ==> m.max_output_tokens == Some(n as usize)),
        r.limit is None ==> m.context_window is None && m.max_output_tokens is None,
        catalog::option_views(m.reasoning_options@) == known_options(r.reasoning_options@),
{
}

/// Every provider that can be used is in the catalog: one whose protocol is supported, whose
/// address is published or known, and that has a model which is not said to be unable to call
/// tools. It is there under its id, with its address and its protocol.
pub proof fn usable_providers_are_listed(
    out: Seq<catalog::CatalogProvider>,
    ps: Seq<Provider>,
    l: int,
    k: int,
) -> (i: int)
    requires
        are_providers_from(out, ps),
        0 <= l < ps.len(),
        catalog::npm_protocol(ps[l].npm@) is Some,
        ps[l].api is Some || catalog::base_url_of(ps[l].id@) is Some,
        0 <= k < ps[l].models@.len(),
        ps[l].models@[k].tool_call != Some(false),
    ensures
        0 <= i < out.len(),
        out[i].id@ == ps[l].id@,
        out[i].name@ == ps[l].name@,
        ps[l].api matches Some(a) ==> out[i].base_url@ == a@,
        ps[l].api is None ==> Some(out[i].base_url@) == catalog::base_url_of(ps[l].id@),
        Some(out[i].protocol) == catalog::npm_protocol(ps[l].npm@),
        out[i].env@ == ps[l].env@,
        are_models_from(out[i].models@, ps[l].models@),
{
    lemma_all_tool_models(ps[l].models@);
    assert(tool_models(ps[l].models@).contains(ps[l].models@[k]));
    lemma_provider_place(out, ps, l)
}

/// Every model of a provider that is not said to be unable to call tools is in the catalog.
pub proof fn tool_models_are_listed(
    out: Seq<catalog::CatalogModel>,
    ms: Seq<Model>,
    k: int,
) -> (i: int)
    requires
        are_models_from(out, ms),
        0 <= k < ms.len(),
        ms[k].tool_call != Some(false),
    ensures
        0 <= i < out.len(),
        out[i].id@ == ms[k].id@,
        out[i].reasoning == ms[k].reasoning,
        out[i].vision == takes_images(ms[k]),
{
    assert(lists_model(ms, model_entry(ms[k])));
    let i = lemma_place_of(out, ms, model_entry(ms[k]));
    assert(out[i]@.id == out[i].id@);
    assert(out[i]@.reasoning == out[i].reasoning && out[i]@.vision == out[i].vision);
    i
}

} // verus!
