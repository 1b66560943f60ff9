//! A user's configuration: which provider and model each agent uses, and how.
use crate::byte_path::opt_bytes;
use crate::paths::{ConfigDir, PathError, config_file_under, home_dir, in_config_home, path_bytes};
use crate::text::{copy, copy_opt, opt_str, opt_text, same};
use crate::text_map::TextMap;
use vstd::prelude::*;

verus! {

/// Settings of long-term memory.
#[derive(Debug, PartialEq, Eq)]
pub struct MemoryConfig {
    /// Whether there is long-term memory at all.
    pub enabled: bool,
    /// The model for semantic recall, as `provider/model`; without one recall goes by words.
    pub embedder: Option<String>,
    /// How many memories are shown to an agent per turn at most.
    pub recall_limit: usize,
    /// Whether memories are distilled from conversations without being asked.
    pub auto_distill: bool,
}

impl Default for MemoryConfig {
    fn default() -> (r: MemoryConfig)
        ensures
            r.enabled,
            r.embedder is None,
            r.recall_limit == 5,
            r.auto_distill,
    {
        MemoryConfig { enabled: true, embedder: None, recall_limit: 5, auto_distill: true }
    }
}

/// How a user wants a model to reason.
#[derive(Debug, PartialEq, Eq)]
pub struct ReasoningPref {
    /// On, off, or as the catalog says.
    pub enabled: Option<bool>,
    pub effort: Option<String>,
    pub budget_tokens: Option<u32>,
}

impl Default for ReasoningPref {
    fn default() -> (r: ReasoningPref)
        ensures
            r.enabled is None,
            r.effort is None,
            r.budget_tokens is None,
    {
        ReasoningPref { enabled: None, effort: None, budget_tokens: None }
    }
}

impl ReasoningPref {
    pub fn copied(&self) -> (r: ReasoningPref)
        ensures
            r == *self,
    {
        ReasoningPref {
            enabled: self.enabled,
            effort: copy_opt(&self.effort),
            budget_tokens: self.budget_tokens,
        }
    }
}

/// How a user wants a model to sample. What is absent is left to the model. Fractions are kept
/// as the bits of a single-precision number.
pub struct SamplingPref {
    pub temperature: Option<u32>,
    pub top_p: Option<u32>,
    pub top_k: Option<u32>,
    pub seed: Option<u64>,
    pub stop: Vec<String>,
    pub frequency_penalty: Option<u32>,
    pub presence_penalty: Option<u32>,
    pub max_tokens: Option<usize>,
    /// Other fields of a request, each as JSON text.
    pub options: TextMap<String>,
}

impl Default for SamplingPref {
    fn default() -> (r: SamplingPref)
        ensures
            r.temperature is None,
            r.top_p is None,
            r.top_k is None,
            r.seed is None,
            r.stop@.len() == 0,
            r.frequency_penalty is None,
            r.presence_penalty is None,
            r.max_tokens is None,
            r.options@ == Map::<Seq<char>, String>::empty(),
    {
        SamplingPref {
            temperature: None,
            top_p: None,
            top_k: None,
            seed: None,
            stop: Vec::new(),
            frequency_penalty: None,
            presence_penalty: None,
            max_tokens: None,
            options: TextMap::new(),
        }
    }
}

/// The provider and the model of an agent, and how it uses them.
pub struct AgentModelConfig {
    pub provider: String,
    pub model: String,
    pub web_search: Option<String>,
    pub reasoning: Option<ReasoningPref>,
    pub sampling: Option<SamplingPref>,
}

impl Default for AgentModelConfig {
    fn default() -> (r: AgentModelConfig)
        ensures
            r.provider@.len() == 0,
            r.model@.len() == 0,
            r.web_search is None,
            r.reasoning is None,
            r.sampling is None,
    {
        AgentModelConfig {
            provider: String::new(),
            model: String::new(),
            web_search: None,
            reasoning: None,
            sampling: None,
        }
    }
}

/// A provider that a user defined.
#[derive(Debug, PartialEq, Eq)]
pub struct CustomProviderEntry {
    pub base_url: String,
    pub protocol: String,
    pub display_name: Option<String>,
}

/// What a user says of a model.
#[derive(Debug, PartialEq, Eq)]
pub struct ModelExtension {
    pub display_name: Option<String>,
    pub context_window: Option<usize>,
}

/// The configuration.
pub struct ShirlConfig {
    pub default: AgentModelConfig,
    pub memory: MemoryConfig,
    /// What an agent uses in the place of the default.
    pub agents: TextMap<AgentModelConfig>,
    pub providers: TextMap<CustomProviderEntry>,
    /// Models by provider and model.
    pub models: TextMap<TextMap<ModelExtension>>,
}

impl Default for ShirlConfig {
    fn default() -> (r: ShirlConfig)
        ensures
            r.default.provider@.len() == 0,
            r.default.model@.len() == 0,
            r.default.web_search is None,
            r.default.reasoning is None,
            r.default.sampling is None,
            r.memory.enabled && r.memory.embedder is None && r.memory.recall_limit == 5
                && r.memory.auto_distill,
            r.agents@ == Map::<Seq<char>, AgentModelConfig>::empty(),
            r.providers@ == Map::<Seq<char>, CustomProviderEntry>::empty(),
            r.models@ == Map::<Seq<char>, TextMap<ModelExtension>>::empty(),
    {
        ShirlConfig {
            default: AgentModelConfig::default(),
            memory: MemoryConfig::default(),
            agents: TextMap::new(),
            providers: TextMap::new(),
            models: TextMap::new(),
        }
    }
}

impl ShirlConfig {
    /// What the configuration says of an agent itself.
    pub open spec fn own_entry(&self, agent: Seq<char>) -> Option<AgentModelConfig> {
        if self.agents@.contains_key(agent) {
            Some(self.agents@[agent])
        } else {
            None
        }
    }

    /// The provider of an agent: its own, or else the default.
    pub open spec fn provider_of(&self, agent: Seq<char>) -> Seq<char> {
        match self.own_entry(agent) {
            Some(a) => a.provider@,
            None => self.default.provider@,
        }
    }

    /// The model of an agent: its own, or else the default.
    pub open spec fn model_of(&self, agent: Seq<char>) -> Seq<char> {
        match self.own_entry(agent) {
            Some(a) => a.model@,
            None => self.default.model@,
        }
    }

    /// The web search of an agent: its own, or else the default.
    pub open spec fn web_search_of(&self, agent: Seq<char>) -> Option<String> {
        match self.own_entry(agent) {
            Some(a) => if a.web_search is Some {
                a.web_search
            } else {
                self.default.web_search
            },
            None => self.default.web_search,
        }
    }

    /// How an agent reasons: as it is told itself, or else as by default.
    pub open spec fn reasoning_of(&self, agent: Seq<char>) -> Option<ReasoningPref> {
        match self.own_entry(agent) {
            Some(a) => if a.reasoning is Some {
                a.reasoning
            } else {
                self.default.reasoning
            },
            None => self.default.reasoning,
        }
    }

    /// How an agent samples: as it is told itself, or else as by default.
    pub open spec fn sampling_of(&self, agent: Seq<char>) -> Option<SamplingPref> {
        match self.own_entry(agent) {
            Some(a) => if a.sampling is Some {
                a.sampling
            } else {
                self.default.sampling
            },
            None => self.default.sampling,
        }
    }

    /// The configuration file, below the home directory `home`.
    pub fn default_path_under(home: Option<Vec<u8>>, dir: &ConfigDir) -> (r: Result<Vec<u8>, PathError>)
        ensures
            path_bytes(r) == in_config_home(opt_bytes(home), dir.name(), "config.toml"@),
    {
        config_file_under(home, dir, "config.toml")
    }

    /// The configuration file.
    pub fn default_path(dir: &ConfigDir) -> (r: Result<Vec<u8>, PathError>)
        ensures
            exists|home: Option<Seq<u8>>|
                path_bytes(r) == #[trigger] in_config_home(home, dir.name(), "config.toml"@),
    {
        let home = home_dir();
        let ghost h = opt_bytes(home);
        let r = Self::default_path_under(home, dir);
        assert(path_bytes(r) == in_config_home(h, dir.name(), "config.toml"@));
        r
    }

    /// Whether a default provider and a default model are set.
    pub fn is_complete(&self) -> (r: bool)
        ensures
            r == (self.default.provider@.len() > 0 && self.default.model@.len() > 0),
    {
        !self.default.provider.as_str().is_empty() && !self.default.model.as_str().is_empty()
    }

    pub fn provider_for(&self, agent: &str) -> (r: &str)
        ensures
            r@ == self.provider_of(agent@),
    {
        match self.agents.get(agent) {
            Some(a) => a.provider.as_str(),
            None => self.default.provider.as_str(),
        }
    }

    pub fn model_for(&self, agent: &str) -> (r: &str)
        ensures
            r@ == self.model_of(agent@),
    {
        match self.agents.get(agent) {
            Some(a) => a.model.as_str(),
            None => self.default.model.as_str(),
        }
    }

    pub fn web_search_for(&self, agent: &str) -> (r: Option<&str>)
        ensures
            opt_str(r) == opt_text(self.web_search_of(agent@)),
    {
        let own = match self.agents.get(agent) {
            Some(a) => match &a.web_search {
                Some(w) => Some(w.as_str()),
                None => None,
            },
            None => None,
        };
        match own {
            Some(w) => Some(w),
            None => match &self.default.web_search {
                Some(w) => Some(w.as_str()),
                None => None,
            },
        }
    }

    pub fn reasoning_for(&self, agent: &str) -> (r: Option<&ReasoningPref>)
        ensures
            (r is Some) == (self.reasoning_of(agent@) is Some),
            r matches Some(p) ==> self.reasoning_of(agent@) == Some(*p),
    {
        let own = match self.agents.get(agent) {
            Some(a) => a.reasoning.as_ref(),
            None => None,
        };
        match own {
            Some(p) => Some(p),
            None => self.default.reasoning.as_ref(),
        }
    }

    pub fn sampling_for(&self, agent: &str) -> (r: Option<&SamplingPref>)
        ensures
            (r is Some) == (self.sampling_of(agent@) is Some),
            r matches Some(p) ==> self.sampling_of(agent@) == Some(*p),
    {
        let own = match self.agents.get(agent) {
            Some(a) => a.sampling.as_ref(),
            None => None,
        };
        match own {
            Some(p) => Some(p),
            None => self.default.sampling.as_ref(),
        }
    }

    /// Tells an agent how to reason, or with `None` no longer does. For `main` that is the
    /// default; another agent without an entry gets one with the default provider and model.
    pub fn set_reasoning(&mut self, agent: &str, pref: Option<ReasoningPref>)
        ensures
            reasoning_set(*old(self), *final(self), agent@, pref),
    {
        if same(agent, "main") {
            self.default.reasoning = pref;
            return;
        }
        let provider = copy(self.provider_for(agent));
        let model = copy(self.model_for(agent));
        let mut entry = match self.agents.remove(agent) {
            Some(a) => a,
            None => AgentModelConfig {
                provider,
                model,
                web_search: None,
                reasoning: None,
                sampling: None,
            },
        };
        entry.reasoning = pref;
        self.agents.insert(copy(agent), entry);
        assert(self.agents@.remove(agent@) =~= old(self).agents@.remove(agent@));
    }

    /// Gives an agent a provider and a model of its own. What else its entry says stays.
    pub fn set_agent_model(&mut self, agent: &str, provider: &str, model: &str)
        ensures
            agent_model_set(*old(self), *final(self), agent@, provider@, model@),
    {
        let entry = match self.agents.remove(agent) {
            Some(a) => AgentModelConfig {
                provider: copy(provider),
                model: copy(model),
                web_search: a.web_search,
                reasoning: a.reasoning,
                sampling: a.sampling,
            },
            None => AgentModelConfig {
                provider: copy(provider),
                model: copy(model),
                web_search: None,
                reasoning: None,
                sampling: None,
            },
        };
        self.agents.insert(copy(agent), entry);
        assert(self.agents@.remove(agent@) =~= old(self).agents@.remove(agent@));
    }

    /// Sets the default provider and the default model. What else the default says stays.
    pub fn set_default(&mut self, provider: &str, model: &str)
        ensures
            default_set(*old(self), *final(self), provider@, model@),
    {
        self.default.provider = copy(provider);
        self.default.model = copy(model);
    }
}

/// Whether `new` is `old` but for the entry of `agent`.
pub open spec fn only_entry_differs(old: ShirlConfig, new: ShirlConfig, agent: Seq<char>) -> bool {
    &&& new.default == old.default
    &&& new.memory == old.memory
    &&& new.providers == old.providers
    &&& new.models == old.models
    &&& new.agents@.contains_key(agent)
    &&& new.agents@.remove(agent) == old.agents@.remove(agent)
}

/// `new` is `old` after telling `agent` to reason as `pref`.
pub open spec fn reasoning_set(
    old: ShirlConfig,
    new: ShirlConfig,
    agent: Seq<char>,
    pref: Option<ReasoningPref>,
) -> bool {
    if agent == "main"@ {
        new == (ShirlConfig {
            default: AgentModelConfig { reasoning: pref, ..old.default },
            ..old
        })
    } else {
        &&& only_entry_differs(old, new, agent)
        &&& match old.own_entry(agent) {
            Some(a) => new.agents@[agent] == (AgentModelConfig { reasoning: pref, ..a }),
            None => {
                let a = new.agents@[agent];
                a.provider@ == old.default.provider@ && a.model@ == old.default.model@
                    && a.web_search is None && a.reasoning == pref && a.sampling is None
            },
        }
    }
}

/// `new` is `old` after giving `agent` a provider and a model.
pub open spec fn agent_model_set(
    old: ShirlConfig,
    new: ShirlConfig,
    agent: Seq<char>,
    provider: Seq<char>,
    model: Seq<char>,
) -> bool {
    &&& only_entry_differs(old, new, agent)
    &&& new.agents@[agent].provider@ == provider
    &&& new.agents@[agent].model@ == model
    &&& match old.own_entry(agent) {
        Some(a) => new.agents@[agent].web_search == a.web_search && new.agents@[agent].reasoning
            == a.reasoning && new.agents@[agent].sampling == a.sampling,
        None => new.agents@[agent].web_search is None && new.agents@[agent].reasoning is None
            && new.agents@[agent].sampling is None,
    }
}

/// `new` is `old` after setting the default provider and the default model.
pub open spec fn default_set(
    old: ShirlConfig,
    new: ShirlConfig,
    provider: Seq<char>,
    model: Seq<char>,
) -> bool {
    &&& new == (ShirlConfig {
        default: AgentModelConfig {
            provider: new.default.provider,
            model: new.default.model,
            ..old.default
        },
        ..old
    })
    &&& new.default.provider@ == provider
    &&& new.default.model@ == model
}

proof fn lemma_other_entries(old: ShirlConfig, new: ShirlConfig, agent: Seq<char>, other: Seq<char>)
    requires
        only_entry_differs(old, new, agent),
        other != agent,
    ensures
        new.own_entry(other) == old.own_entry(other),
{
    assert(new.agents@.contains_key(other) == new.agents@.remove(agent).contains_key(other));
    assert(old.agents@.contains_key(other) == old.agents@.remove(agent).contains_key(other));
    if new.agents@.contains_key(other) {
        assert(new.agents@[other] == new.agents@.remove(agent)[other]);
        assert(old.agents@[other] == old.agents@.remove(agent)[other]);
    }
}

/// An agent that was given a provider and a model uses them, the other agents use what they
/// used before, and nobody's web search, reasoning or sampling changes.
pub proof fn switching_a_model_changes_nothing_else(
    old: ShirlConfig,
    new: ShirlConfig,
    agent: Seq<char>,
    provider: Seq<char>,
    model: Seq<char>,
    other: Seq<char>,
)
    requires
        agent_model_set(old, new, agent, provider, model),
    ensures
        new.provider_of(agent) == provider,
        new.model_of(agent) == model,
        other != agent ==> new.provider_of(other) == old.provider_of(other) && new.model_of(other)
            == old.model_of(other),
        new.web_search_of(other) == old.web_search_of(other),
        new.reasoning_of(other) == old.reasoning_of(other),
        new.sampling_of(other) == old.sampling_of(other),
{
    if other != agent {
        lemma_other_entries(old, new, agent, other);
    }
}

/// The agents without an entry of their own use the default, those with one keep theirs, and
/// nobody's web search, reasoning or sampling changes with the default provider and model.
pub proof fn agents_fall_back_to_the_default(
    old: ShirlConfig,
    new: ShirlConfig,
    provider: Seq<char>,
    model: Seq<char>,
    agent: Seq<char>,
)
    requires
        default_set(old, new, provider, model),
    ensures
        old.own_entry(agent) is None ==> new.provider_of(agent) == provider && new.model_of(agent)
            == model,
        old.own_entry(agent) is Some ==> new.provider_of(agent) == old.provider_of(agent)
            && new.model_of(agent) == old.model_of(agent),
        new.web_search_of(agent) == old.web_search_of(agent),
        new.reasoning_of(agent) == old.reasoning_of(agent),
        new.sampling_of(agent) == old.sampling_of(agent),
{
}

/// Telling an agent how to reason leaves every agent its provider, model, web search and
/// sampling. The agent then reasons as it was told, and without being told as by default,
/// unless it is `main`, whose own entry, if it has one, goes first.
pub proof fn telling_an_agent_to_reason_changes_nothing_else(
    old: ShirlConfig,
    new: ShirlConfig,
    agent: Seq<char>,
    pref: Option<ReasoningPref>,
    other: Seq<char>,
)
    requires
        reasoning_set(old, new, agent, pref),
    ensures
        new.provider_of(other) == old.provider_of(other),
        new.model_of(other) == old.model_of(other),
        new.web_search_of(other) == old.web_search_of(other),
        new.sampling_of(other) == old.sampling_of(other),
        agent != "main"@ && other != agent ==> new.reasoning_of(other) == old.reasoning_of(other),
        agent != "main"@ ==> new.reasoning_of(agent) == (if pref is Some {
            pref
        } else {
            old.default.reasoning
        }),
        agent == "main"@ && old.own_entry(agent) is None ==> new.reasoning_of(agent) == pref,
{
    if agent != "main"@ && other != agent {
        lemma_other_entries(old, new, agent, other);
    }
}

/// What the configuration says of an agent itself goes before the default, in each thing that it
/// says; what it leaves open is as by default.
pub proof fn own_entries_go_first(config: ShirlConfig, agent: Seq<char>)
    ensures
        config.own_entry(agent) matches Some(a) ==> {
            &&& config.provider_of(agent) == a.provider@
            &&& config.model_of(agent) == a.model@
            &&& a.web_search is Some ==> config.web_search_of(agent) == a.web_search
            &&& a.web_search is None ==> config.web_search_of(agent) == config.default.web_search
            &&& a.reasoning is Some ==> config.reasoning_of(agent) == a.reasoning
            &&& a.reasoning is None ==> config.reasoning_of(agent) == config.default.reasoning
            &&& a.sampling is Some ==> config.sampling_of(agent) == a.sampling
            &&& a.sampling is None ==> config.sampling_of(agent) == config.default.sampling
        },
        config.own_entry(agent) is None ==> {
            &&& config.provider_of(agent) == config.default.provider@
            &&& config.model_of(agent) == config.default.model@
            &&& config.web_search_of(agent) == config.default.web_search
            &&& config.reasoning_of(agent) == config.default.reasoning
            &&& config.sampling_of(agent) == config.default.sampling
        },
        (config.own_entry(agent) is Some) == config.agents@.contains_key(agent),
{
}

/// A configuration is complete exactly where it names a default provider and a default model.
pub proof fn complete_means_provider_and_model(config: ShirlConfig, r: bool)
    requires
        call_ensures(ShirlConfig::is_complete, (&config,), r),
    ensures
        r == (config.default.provider@.len() > 0 && config.default.model@.len() > 0),
{
}

} // verus!
