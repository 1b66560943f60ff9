//! Long-term memory: how it is set up, and the command `/memory`.
use crate::auth::AuthStore;
use crate::catalog::{Catalog, provider_in};
use crate::config::ShirlConfig;
use crate::factory::{EmbedderPlan, build_embedder, no_embedder, non_empty};
use crate::model::{key_or_empty, protocol_of, resolve_provider_params, unreachable_because};
use crate::text::{
    chars_of, contains, copy, decimal, decimal_text, is_blank, is_space, join, joined,
    lemma_contains, lemma_run_is, lemma_trim_is, non_spaces, opt_text, run, same, skip_word,
    split_at_first, split_once, starts_with, text_of, texts, trim, trim_span, trimmed,
    white_space_divides_words, words, words_of,
};
use crate::turn::lemma_named_by_provider;
use vstd::prelude::*;

verus! {

/// How many memories `/memory list` shows at most.
pub const LIST_LIMIT: usize = 20;

/// How many memories `/memory search` shows at most.
pub const SEARCH_LIMIT: usize = 10;

/// How many memories are deleted at a time when a scope is wiped.
pub const WIPE_BATCH: usize = 100;

/// How long a pass of distilling may take, in seconds.
pub const DISTILL_TIMEOUT_SECS: u64 = 120;

// ---------------------------------------------------------------------------
// Scopes and records
// ---------------------------------------------------------------------------
/// Whom a memory belongs to.
#[derive(Debug, PartialEq, Eq)]
pub enum MemoryScope {
    User(String),
    Project(String),
}

pub enum ScopeView {
    User(Seq<char>),
    Project(Seq<char>),
}

impl View for MemoryScope {
    type V = ScopeView;

    open spec fn view(&self) -> ScopeView {
        match *self {
            MemoryScope::User(k) => ScopeView::User(k@),
            MemoryScope::Project(k) => ScopeView::Project(k@),
        }
    }
}

impl MemoryScope {
    pub fn copied(&self) -> (r: MemoryScope)
        ensures
            r == *self,
    {
        match self {
            MemoryScope::User(k) => MemoryScope::User(k.clone()),
            MemoryScope::Project(k) => MemoryScope::Project(k.clone()),
        }
    }

    /// Whether two scopes are the same.
    pub fn is_same(&self, other: &MemoryScope) -> (r: bool)
        ensures
            r == (self@ == other@),
    {
        match (self, other) {
            (MemoryScope::User(a), MemoryScope::User(b)) => same(a.as_str(), b.as_str()),
            (MemoryScope::Project(a), MemoryScope::Project(b)) => same(a.as_str(), b.as_str()),
            _ => false,
        }
    }
}

/// The scope of the user.
pub fn user_scope() -> (r: MemoryScope)
    ensures
        r@ == ScopeView::User("default"@),
{
    MemoryScope::User(copy("default"))
}

/// The scope of the project whose root has the resolved path `root`.
pub fn project_scope(root: &str) -> (r: MemoryScope)
    ensures
        r@ == ScopeView::Project(root@),
{
    MemoryScope::Project(copy(root))
}

/// A memory.
#[derive(Debug, PartialEq, Eq)]
pub struct MemoryRecord {
    pub id: String,
    pub scope: MemoryScope,
    pub content: String,
    pub tags: Vec<String>,
}

/// The scopes of a run: what is saved goes to the project's, and both are searched.
pub struct RunScopes {
    pub user: MemoryScope,
    pub project: MemoryScope,
}

impl RunScopes {
    /// The scopes that are searched: the project's first.
    pub fn searchable_scopes(&self) -> (r: Vec<MemoryScope>)
        ensures
            r@ == seq![self.project, self.user],
    {
        let mut r: Vec<MemoryScope> = Vec::new();
        r.push(self.project.copied());
        r.push(self.user.copied());
        assert(r@ =~= seq![self.project, self.user]);
        r
    }

    /// Whether a scope is one of this run.
    pub open spec fn covers(&self, scope: ScopeView) -> bool {
        scope == self.project@ || scope == self.user@
    }
}

// ---------------------------------------------------------------------------
// Setting up
// ---------------------------------------------------------------------------
/// How an embedder is set up, and the key to reach it with; or why there is none.
pub open spec fn embedder_refusal(
    spec: Seq<char>,
    config: ShirlConfig,
    auth: AuthStore,
    catalog: Catalog,
) -> Option<Seq<char>> {
    match split_once(spec, "/"@) {
        None => Some("expected `provider/model-id`"@),
        Some((provider, _)) => match unreachable_because(catalog, config, provider) {
            Some(e) => Some(e),
            None => if key_or_empty(auth, provider).len() == 0 {
                Some("no API key for provider `"@ + provider + "` in auth.toml"@)
            } else {
                no_embedder(protocol_of(catalog, config, provider)->0)
            },
        },
    }
}

/// Whether `p` is the embedder that `spec` names, a provider and a model, with the provider's key.
pub open spec fn embeds_with(
    p: (EmbedderPlan, String),
    spec: Seq<char>,
    config: ShirlConfig,
    auth: AuthStore,
    catalog: Catalog,
) -> bool {
    let (provider, model) = split_once(spec, "/"@)->0;
    &&& Some(p.0.protocol) == protocol_of(catalog, config, provider)
    &&& p.0.model_id@ == model
    &&& p.1@ == key_or_empty(auth, provider)
    &&& opt_text(p.0.base_url) == non_empty(
        if config.providers@.contains_key(provider) {
            config.providers@[provider].base_url@
        } else {
            (provider_in(catalog, provider)->0).base_url@
        },
    )
}

/// How the embedder `provider/model` is set up, and the key to reach it with.
pub fn build_embedder_from_spec(
    spec: &str,
    config: &ShirlConfig,
    auth: &AuthStore,
    catalog: &Catalog,
) -> (r: Result<(EmbedderPlan, String), String>)
    ensures
        match r {
            Err(e) => embedder_refusal(spec@, *config, *auth, *catalog) == Some(e@),
            Ok(p) => embedder_refusal(spec@, *config, *auth, *catalog) is None && embeds_with(
                p,
                spec@,
                *config,
                *auth,
                *catalog,
            ),
        },
{
    let (provider, model) = match split_at_first(spec, "/") {
        Some(p) => p,
        None => {
            return Err(copy("expected `provider/model-id`"));
        },
    };
    let params = match resolve_provider_params(
        provider.as_str(),
        config,
        auth,
        catalog,
        model.as_str(),
        None,
        None,
    ) {
        Ok(p) => p,
        Err(e) => {
            return Err(e);
        },
    };
    if params.api_key.as_str().is_empty() {
        let mut e = copy("no API key for provider `");
        e.append(provider.as_str());
        e.append("` in auth.toml");
        return Err(e);
    }
    match build_embedder(params.protocol, model.as_str(), params.base_url.as_str()) {
        Ok(plan) => Ok((plan, params.api_key)),
        Err(e) => Err(e),
    }
}

/// How long-term memory starts: whether it does, the embedder where there is one, and what the
/// user is warned of.
pub struct MemoryStart {
    pub enabled: bool,
    pub embedder: Option<(EmbedderPlan, String)>,
    pub warning: Option<String>,
}

/// How long-term memory starts. Without the embedder that is configured it goes by words
/// alone, and the user is warned.
pub fn build_wiring(config: &ShirlConfig, auth: &AuthStore, catalog: &Catalog) -> (r: MemoryStart)
    ensures
        r.enabled == config.memory.enabled,
        match config.memory.embedder {
            Some(spec) if config.memory.enabled => match embedder_refusal(
                spec@,
                *config,
                *auth,
                *catalog,
            ) {
                None => r.embedder is Some && r.warning is None,
                Some(e) => r.embedder is None && opt_text(r.warning) == Some(
                    "Warning: memory embedder `"@ + spec@ + "` unavailable ("@ + e
                        + "); falling back to keyword-only recall."@,
                ),
            },
            _ => r.embedder is None && r.warning is None,
        },
        r.embedder matches Some(p) ==> (config.memory.embedder matches Some(spec) && embeds_with(
            p,
            spec@,
            *config,
            *auth,
            *catalog,
        )),
{
    if !config.memory.enabled {
        return MemoryStart { enabled: false, embedder: None, warning: None };
    }
    match &config.memory.embedder {
        None => MemoryStart { enabled: true, embedder: None, warning: None },
        Some(spec) => match build_embedder_from_spec(spec.as_str(), config, auth, catalog) {
            Ok(p) => MemoryStart { enabled: true, embedder: Some(p), warning: None },
            Err(e) => {
                let mut w = copy("Warning: memory embedder `");
                w.append(spec.as_str());
                w.append("` unavailable (");
                w.append(e.as_str());
                w.append("); falling back to keyword-only recall.");
                MemoryStart { enabled: true, embedder: None, warning: Some(w) }
            },
        },
    }
}

/// What the user is warned of where memory cannot be opened.
pub fn memory_disabled_warning(error: &str) -> (r: String)
    ensures
        r@ == "Warning: long-term memory disabled: "@ + error@,
{
    let mut r = copy("Warning: long-term memory disabled: ");
    r.append(error);
    r
}

// ---------------------------------------------------------------------------
// Distilling
// ---------------------------------------------------------------------------
/// What distilling a conversation wrote.
pub struct DistillReport {
    pub saved: Vec<MemoryRecord>,
    pub updated: usize,
}

/// What was written, part by part.
pub open spec fn report_parts(saved: nat, updated: nat) -> Seq<Seq<char>> {
    let a = if saved > 0 {
        seq![decimal(saved) + " saved"@]
    } else {
        Seq::empty()
    };
    let b = if updated > 0 {
        seq![decimal(updated) + " updated"@]
    } else {
        Seq::empty()
    };
    a + b
}

/// What was written, on one line; nothing where nothing was.
pub fn distill_summary(report: &DistillReport) -> (r: Option<String>)
    ensures
        opt_text(r) == (if report.saved@.len() == 0 && report.updated == 0 {
            None
        } else {
            Some(
                "✦ long-term memory: "@ + join(
                    report_parts(report.saved@.len(), report.updated as nat),
                    ", "@,
                ),
            )
        }),
{
    let mut parts: Vec<String> = Vec::new();
    if report.saved.len() > 0 {
        let mut p = decimal_text(report.saved.len() as u64);
        p.append(" saved");
        parts.push(p);
    }
    if report.updated > 0 {
        let mut p = decimal_text(report.updated as u64);
        p.append(" updated");
        parts.push(p);
    }
    assert(texts(parts@) =~= report_parts(report.saved@.len(), report.updated as nat));
    if parts.len() == 0 {
        return None;
    }
    let mut r = copy("✦ long-term memory: ");
    let list = joined(&parts, ", ");
    r.append(list.as_str());
    Some(r)
}

/// Memories on lines of their own.
pub open spec fn fact_lines(records: Seq<MemoryRecord>) -> Seq<Seq<char>> {
    Seq::new(records.len(), |i: int| "  ("@ + records[i].id@ + ") "@ + records[i].content@)
}

/// What was written, memory by memory.
pub open spec fn result_lines(saved: Seq<MemoryRecord>, updated: nat) -> Seq<Seq<char>> {
    if saved.len() == 0 && updated == 0 {
        seq!["Nothing qualified for long-term memory."@]
    } else if updated > 0 {
        fact_lines(saved).push("  "@ + decimal(updated) + " existing updated"@)
    } else {
        fact_lines(saved)
    }
}

/// What was written, memory by memory.
pub fn distill_result_lines(report: &DistillReport) -> (r: Vec<String>)
    ensures
        texts(r@) == result_lines(report.saved@, report.updated as nat),
{
    let mut lines: Vec<String> = Vec::new();
    if report.saved.len() == 0 && report.updated == 0 {
        lines.push(copy("Nothing qualified for long-term memory."));
        assert(texts(lines@) =~= seq!["Nothing qualified for long-term memory."@]);
        return lines;
    }
    let ghost want = fact_lines(report.saved@);
    let mut i: usize = 0;
    while i < report.saved.len()
        invariant
            i <= report.saved@.len(),
            want == fact_lines(report.saved@),
            texts(lines@) =~= want.take(i as int),
        decreases report.saved@.len() - i,
    {
        let m = &report.saved[i];
        let ghost l0 = texts(lines@);
        let mut line = copy("  (");
        line.append(m.id.as_str());
        line.append(") ");
        line.append(m.content.as_str());
        lines.push(line);
        assert(texts(lines@) =~= l0.push(line@));
        i += 1;
    }
    assert(texts(lines@) =~= want);
    if report.updated > 0 {
        let mut line = copy("  ");
        let d = decimal_text(report.updated as u64);
        line.append(d.as_str());
        line.append(" existing updated");
        lines.push(line);
        assert(texts(lines@) =~= want.push(line@));
    }
    lines
}

/// How a pass of distilling ended.
pub enum DistillOutcome {
    /// There was nothing new to look at.
    NothingNew,
    Written(DistillReport),
    Failed(String),
    TimedOut,
}

/// What the user is told of a pass in the background: nothing where nothing was written.
pub fn background_line(outcome: &DistillOutcome) -> (r: Option<String>)
    ensures
        opt_text(r) == (match *outcome {
            DistillOutcome::NothingNew => None,
            DistillOutcome::Written(report) => if report.saved@.len() == 0 && report.updated == 0 {
                None
            } else {
                Some(
                    "✦ long-term memory: "@ + join(
                        report_parts(report.saved@.len(), report.updated as nat),
                        ", "@,
                    ),
                )
            },
            DistillOutcome::Failed(e) => Some("⚠ memory distillation failed: "@ + e@),
            DistillOutcome::TimedOut => Some("⚠ memory distillation timed out"@),
        }),
{
    match outcome {
        DistillOutcome::NothingNew => None,
        DistillOutcome::Written(report) => distill_summary(report),
        DistillOutcome::Failed(e) => {
            let mut s = copy("⚠ memory distillation failed: ");
            s.append(e.as_str());
            Some(s)
        },
        DistillOutcome::TimedOut => Some(copy("⚠ memory distillation timed out")),
    }
}

/// What the user is told who asked for a pass. `waited` says that one in the background was
/// waited for first.
pub fn distill_command_lines(waited: bool, outcome: &DistillOutcome) -> (r: Vec<String>)
    ensures
        texts(r@) == (match *outcome {
            DistillOutcome::NothingNew => seq![
                if waited {
                    "Background distill pass finished; nothing further."@
                } else {
                    "Nothing new to distill."@
                },
            ],
            DistillOutcome::Written(report) => result_lines(report.saved@, report.updated as nat),
            DistillOutcome::Failed(e) => seq!["Error: distillation failed: "@ + e@],
            DistillOutcome::TimedOut => seq!["Error: distillation timed out."@],
        }),
{
    match outcome {
        DistillOutcome::Written(report) => distill_result_lines(report),
        DistillOutcome::NothingNew => one_line(
            if waited {
                copy("Background distill pass finished; nothing further.")
            } else {
                copy("Nothing new to distill.")
            },
        ),
        DistillOutcome::Failed(e) => {
            let mut s = copy("Error: distillation failed: ");
            s.append(e.as_str());
            one_line(s)
        },
        DistillOutcome::TimedOut => one_line(copy("Error: distillation timed out.")),
    }
}

fn one_line(line: String) -> (r: Vec<String>)
    ensures
        texts(r@) == seq![line@],
        r@ == seq![line],
{
    let mut r: Vec<String> = Vec::new();
    r.push(line);
    assert(texts(r@) =~= seq![line@]);
    assert(r@ =~= seq![line]);
    r
}

// ---------------------------------------------------------------------------
// /memory
// ---------------------------------------------------------------------------
pub open spec fn usage_text() -> Seq<char> {
    "Usage: /memory [list [user|project] | add <text> | search <query> | forget <id> | distill | help]"@
}

/// How the command is used.
pub fn memory_usage() -> (r: String)
    ensures
        r@ == usage_text(),
{
    copy(
        "Usage: /memory [list [user|project] | add <text> | search <query> | forget <id> | distill | help]",
    )
}

pub open spec fn help_on_memory(debug: bool) -> Seq<Seq<char>> {
    let lines = seq![
        usage_text(),
        "  list [user|project]        show saved memories (default: both scopes)"@,
        "  add <text>                 save a memory to the project scope"@,
        "  search <query>             search memories in both scopes"@,
        "  forget <id>                delete a memory by id"@,
        "  distill                    extract durable facts from this session now"@,
        "  help                       show this help"@,
    ];
    if debug {
        lines.push(
            "  forget all <user|project>  delete every memory in that scope (debug builds only)"@,
        )
    } else {
        lines
    }
}

/// The help on the command; `debug` adds what only debug builds can do.
pub fn memory_help(debug: bool) -> (r: Vec<String>)
    ensures
        texts(r@) == help_on_memory(debug),
{
    let mut r: Vec<String> = Vec::new();
    r.push(memory_usage());
    r.push(copy("  list [user|project]        show saved memories (default: both scopes)"));
    r.push(copy("  add <text>                 save a memory to the project scope"));
    r.push(copy("  search <query>             search memories in both scopes"));
    r.push(copy("  forget <id>                delete a memory by id"));
    r.push(copy("  distill                    extract durable facts from this session now"));
    r.push(copy("  help                       show this help"));
    if debug {
        r.push(
            copy(
                "  forget all <user|project>  delete every memory in that scope (debug builds only)",
            ),
        );
    }
    assert(texts(r@) =~= help_on_memory(debug));
    r
}

/// Which of a run's scopes is meant.
#[derive(Clone, Copy, Debug, PartialEq, Eq, Structural)]
pub enum WhichScopes {
    Both,
    User,
    Project,
}

/// What the command asks for.
#[derive(Debug, PartialEq, Eq)]
pub enum MemoryRequest {
    Distill,
    /// The user is told something, and nothing else happens.
    Say(Vec<String>),
    /// The memories of these scopes are listed, twenty at most.
    List(WhichScopes),
    /// This text is saved for the project.
    Save(String),
    /// The memories of both scopes are searched for this text, ten at most.
    Search(String),
    /// Every memory of this scope is deleted.
    ForgetAll(WhichScopes),
    /// The memory with this id, as it was typed, is deleted.
    Forget(String),
}

pub enum MemoryView {
    Distill,
    Say(Seq<Seq<char>>),
    List(WhichScopes),
    Save(Seq<char>),
    Search(Seq<char>),
    ForgetAll(WhichScopes),
    Forget(Seq<char>),
}

impl View for MemoryRequest {
    type V = MemoryView;

    open spec fn view(&self) -> MemoryView {
        match *self {
            MemoryRequest::Distill => MemoryView::Distill,
            MemoryRequest::Say(lines) => MemoryView::Say(texts(lines@)),
            MemoryRequest::List(w) => MemoryView::List(w),
            MemoryRequest::Save(t) => MemoryView::Save(t@),
            MemoryRequest::Search(t) => MemoryView::Search(t@),
            MemoryRequest::ForgetAll(w) => MemoryView::ForgetAll(w),
            MemoryRequest::Forget(t) => MemoryView::Forget(t@),
        }
    }
}

/// The first word of the arguments and the rest of them, trimmed.
pub open spec fn word_and_rest(args: Seq<char>) -> (Seq<char>, Seq<char>) {
    let t = trim(args);
    let k = run(t, non_spaces(), 0) as int;
    if k < t.len() {
        (t.take(k), trim(t.skip(k + 1)))
    } else {
        (t, ""@)
    }
}

fn split_word(args: &str) -> (r: (String, String))
    ensures
        (r.0@, r.1@) == word_and_rest(args@),
{
    let t = trimmed(args);
    let v = chars_of(t.as_str());
    let k = skip_word(&v, 0);
    if k < v.len() {
        let word = text_of(&v, 0, k);
        let rest = text_of(&v, k + 1, v.len());
        assert(word@ =~= t@.take(k as int));
        assert(rest@ =~= t@.skip(k + 1));
        (word, trimmed(rest.as_str()))
    } else {
        (t, copy(""))
    }
}

/// What `forget` asks for. Everything can be forgotten in debug builds only, and only of a
/// scope that is named.
pub open spec fn forget_request(rest: Seq<char>, debug: bool) -> MemoryView {
    let ws = words(rest);
    if debug && ws.len() > 0 && ws[0] == "all"@ {
        if ws.len() > 1 && ws[1] == "user"@ {
            MemoryView::ForgetAll(WhichScopes::User)
        } else if ws.len() > 1 && ws[1] == "project"@ {
            MemoryView::ForgetAll(WhichScopes::Project)
        } else {
            MemoryView::Say(
                seq![
                    "Specify which scope to wipe: /memory forget all <user|project> (the user scope is shared across all projects)."@,
                ],
            )
        }
    } else {
        MemoryView::Forget(rest)
    }
}

/// What a subcommand asks for.
pub open spec fn subcommand(args: Seq<char>, debug: bool) -> MemoryView {
    let (sub, rest) = word_and_rest(args);
    if sub.len() == 0 || sub == "list"@ {
        if rest.len() == 0 {
            MemoryView::List(WhichScopes::Both)
        } else if rest == "user"@ {
            MemoryView::List(WhichScopes::User)
        } else if rest == "project"@ {
            MemoryView::List(WhichScopes::Project)
        } else {
            MemoryView::Say(seq!["Unknown scope `"@ + rest + "`. "@ + usage_text()])
        }
    } else if sub == "add"@ {
        if rest.len() == 0 {
            MemoryView::Say(seq![usage_text()])
        } else {
            MemoryView::Save(rest)
        }
    } else if sub == "search"@ {
        if rest.len() == 0 {
            MemoryView::Say(seq![usage_text()])
        } else {
            MemoryView::Search(rest)
        }
    } else if sub == "forget"@ {
        forget_request(rest, debug)
    } else if sub == "help"@ {
        MemoryView::Say(help_on_memory(debug))
    } else {
        MemoryView::Say(seq!["Unknown subcommand `"@ + sub + "`. "@ + usage_text()])
    }
}

fn say_with_usage(before: &str, what: &str) -> (r: MemoryRequest)
    ensures
        r@ == MemoryView::Say(seq![before@ + what@ + "`. "@ + usage_text()]),
{
    let mut line = copy(before);
    line.append(what);
    line.append("`. ");
    let u = memory_usage();
    line.append(u.as_str());
    MemoryRequest::Say(one_line(line))
}

fn parse_forget(rest: String, debug: bool) -> (r: MemoryRequest)
    ensures
        r@ == forget_request(rest@, debug),
{
    let ws = words_of(rest.as_str());
    let ghost views = texts(ws@);
    if debug && ws.len() > 0 {
        assert(views[0] == ws@[0]@);
        if same(ws[0].as_str(), "all") {
            if ws.len() > 1 {
                assert(views[1] == ws@[1]@);
                if same(ws[1].as_str(), "user") {
                    return MemoryRequest::ForgetAll(WhichScopes::User);
                }
                if same(ws[1].as_str(), "project") {
                    return MemoryRequest::ForgetAll(WhichScopes::Project);
                }
            }
            return MemoryRequest::Say(
                one_line(
                    copy(
                        "Specify which scope to wipe: /memory forget all <user|project> (the user scope is shared across all projects).",
                    ),
                ),
            );
        }
    }
    MemoryRequest::Forget(rest)
}

/// What a subcommand asks for; `debug` says whether this is a debug build.
pub fn run_subcommand(args: &str, debug: bool) -> (r: MemoryRequest)
    ensures
        r@ == subcommand(args@, debug),
{
    let (sub, rest) = split_word(args);
    let s = sub.as_str();
    if s.is_empty() || same(s, "list") {
        if rest.as_str().is_empty() {
            MemoryRequest::List(WhichScopes::Both)
        } else if same(rest.as_str(), "user") {
            MemoryRequest::List(WhichScopes::User)
        } else if same(rest.as_str(), "project") {
            MemoryRequest::List(WhichScopes::Project)
        } else {
            say_with_usage("Unknown scope `", rest.as_str())
        }
    } else if same(s, "add") {
        if rest.as_str().is_empty() {
            MemoryRequest::Say(one_line(memory_usage()))
        } else {
            MemoryRequest::Save(rest)
        }
    } else if same(s, "search") {
        if rest.as_str().is_empty() {
            MemoryRequest::Say(one_line(memory_usage()))
        } else {
            MemoryRequest::Search(rest)
        }
    } else if same(s, "forget") {
        parse_forget(rest, debug)
    } else if same(s, "help") {
        MemoryRequest::Say(memory_help(debug))
    } else {
        say_with_usage("Unknown subcommand `", s)
    }
}

/// What `/memory args` asks for: nothing can be done while memory is off.
pub fn handle_memory_command(args: &str, wired: bool, debug: bool) -> (r: MemoryRequest)
    ensures
        r@ == (if !wired {
            MemoryView::Say(seq!["Long-term memory is disabled ([memory] in config.toml)."@])
        } else if words(args@).len() > 0 && words(args@)[0] == "distill"@ {
            MemoryView::Distill
        } else {
            subcommand(args@, debug)
        }),
{
    if !wired {
        return MemoryRequest::Say(
            one_line(copy("Long-term memory is disabled ([memory] in config.toml).")),
        );
    }
    let ws = words_of(args);
    let ghost views = texts(ws@);
    if ws.len() > 0 {
        assert(views[0] == ws@[0]@);
        if same(ws[0].as_str(), "distill") {
            return MemoryRequest::Distill;
        }
    }
    run_subcommand(args, debug)
}

/// Everything of a scope is forgotten in debug builds only, and never without naming the
/// scope.
pub proof fn wiping_names_its_scope(args: Seq<char>, debug: bool)
    ensures
        subcommand(args, debug) matches MemoryView::ForgetAll(w) ==> debug && w
            != WhichScopes::Both,
{
}

// ---------------------------------------------------------------------------
// Answers of the store
// ---------------------------------------------------------------------------
/// The scopes that are meant.
pub fn scopes_meant(which: WhichScopes, scopes: &RunScopes) -> (r: Vec<MemoryScope>)
    ensures
        r@ == (match which {
            WhichScopes::Both => seq![scopes.project, scopes.user],
            WhichScopes::User => seq![scopes.user],
            WhichScopes::Project => seq![scopes.project],
        }),
{
    match which {
        WhichScopes::Both => scopes.searchable_scopes(),
        WhichScopes::User => {
            let mut r: Vec<MemoryScope> = Vec::new();
            r.push(scopes.user.copied());
            assert(r@ =~= seq![scopes.user]);
            r
        },
        WhichScopes::Project => {
            let mut r: Vec<MemoryScope> = Vec::new();
            r.push(scopes.project.copied());
            assert(r@ =~= seq![scopes.project]);
            r
        },
    }
}

/// A memory on a line.
pub open spec fn hit_text(m: MemoryRecord, scopes: RunScopes) -> Seq<char> {
    "  ("@ + m.id@ + ") ["@ + (if m.scope@ == scopes.user@ {
        "user"@
    } else {
        "project"@
    }) + "]"@ + (if m.tags@.len() == 0 {
        Seq::empty()
    } else {
        " ["@ + join(texts(m.tags@), ", "@) + "]"@
    }) + " "@ + m.content@
}

/// A memory on a line.
pub fn render_hit(m: &MemoryRecord, scopes: &RunScopes) -> (r: String)
    ensures
        r@ == hit_text(*m, *scopes),
{
    let scope = if m.scope.is_same(&scopes.user) {
        "user"
    } else {
        "project"
    };
    let tags = if m.tags.len() == 0 {
        String::new()
    } else {
        let mut t = copy(" [");
        let list = joined(&m.tags, ", ");
        t.append(list.as_str());
        t.append("]");
        t
    };
    let mut r = copy("  (");
    r.append(m.id.as_str());
    r.append(") [");
    r.append(scope);
    r.append("]");
    r.append(tags.as_str());
    r.append(" ");
    r.append(m.content.as_str());
    r
}

pub open spec fn hit_texts(hits: Seq<MemoryRecord>, scopes: RunScopes) -> Seq<Seq<char>> {
    Seq::new(hits.len(), |i: int| hit_text(hits[i], scopes))
}

/// What the user is told of memories that were looked for: `searching` says that a text was.
pub fn hit_lines(hits: &Result<Vec<MemoryRecord>, String>, scopes: &RunScopes, searching: bool) -> (r:
    Vec<String>)
    ensures
        texts(r@) == (match *hits {
            Err(e) => seq![
                (if searching {
                    "Error searching memories: "@
                } else {
                    "Error listing memories: "@
                }) + e@,
            ],
            Ok(hits) => if hits@.len() == 0 {
                seq![
                    if searching {
                        "No matching memories."@
                    } else {
                        "No memories saved yet."@
                    },
                ]
            } else {
                hit_texts(hits@, *scopes)
            },
        }),
{
    match hits {
        Err(e) => {
            let mut line = if searching {
                copy("Error searching memories: ")
            } else {
                copy("Error listing memories: ")
            };
            line.append(e.as_str());
            one_line(line)
        },
        Ok(hits) => {
            if hits.len() == 0 {
                return one_line(
                    if searching {
                        copy("No matching memories.")
                    } else {
                        copy("No memories saved yet.")
                    },
                );
            }
            let ghost want = hit_texts(hits@, *scopes);
            let mut r: Vec<String> = Vec::new();
            let mut i: usize = 0;
            while i < hits.len()
                invariant
                    i <= hits@.len(),
                    want == hit_texts(hits@, *scopes),
                    texts(r@) =~= want.take(i as int),
                decreases hits@.len() - i,
            {
                let ghost r0 = texts(r@);
                let line = render_hit(&hits[i], scopes);
                r.push(line);
                assert(texts(r@) =~= r0.push(line@));
                i += 1;
            }
            assert(texts(r@) =~= want);
            r
        },
    }
}

/// What the user is told of a memory that was to be saved: its id.
pub fn saved_line(saved: &Result<String, String>) -> (r: String)
    ensures
        r@ == (match *saved {
            Ok(id) => "Saved memory ("@ + id@ + ")"@,
            Err(e) => "Error saving memory: "@ + e@,
        }),
{
    match saved {
        Ok(id) => {
            let mut r = copy("Saved memory (");
            r.append(id.as_str());
            r.append(")");
            r
        },
        Err(e) => {
            let mut r = copy("Error saving memory: ");
            r.append(e.as_str());
            r
        },
    }
}

/// What comes of forgetting a memory, as far as it was looked up.
#[derive(Debug, PartialEq, Eq)]
pub enum ForgetStep {
    Say(String),
    Delete,
}

/// What is said of a text that is no id.
pub fn invalid_id_line(typed: &str) -> (r: String)
    ensures
        r@ == "Invalid memory id `"@ + typed@ + "`. "@ + usage_text(),
{
    let mut r = copy("Invalid memory id `");
    r.append(typed);
    r.append("`. ");
    let u = memory_usage();
    r.append(u.as_str());
    r
}

/// What comes of forgetting the memory `id`, whose scope is `found`, where it is there. Only
/// what belongs to a scope of this run is deleted.
pub fn forget_step(id: &str, found: &Result<Option<MemoryScope>, String>, scopes: &RunScopes) -> (r:
    ForgetStep)
    ensures
        match *found {
            Err(e) => r matches ForgetStep::Say(line) && line@ == "Error looking up memory: "@ + e@,
            Ok(scope) => if scope is Some && scopes.covers((scope->0)@) {
                r is Delete
            } else {
                r matches ForgetStep::Say(line) && line@ == "No memory with id "@ + id@ + "."@
            },
        },
{
    match found {
        Err(e) => {
            let mut line = copy("Error looking up memory: ");
            line.append(e.as_str());
            ForgetStep::Say(line)
        },
        Ok(scope) => {
            let visible = match scope {
                Some(s) => s.is_same(&scopes.project) || s.is_same(&scopes.user),
                None => false,
            };
            if visible {
                return ForgetStep::Delete;
            }
            let mut line = copy("No memory with id ");
            line.append(id);
            line.append(".");
            ForgetStep::Say(line)
        },
    }
}

/// What the user is told of a memory that was to be deleted.
pub fn deleted_line(id: &str, deleted: &Result<(), String>) -> (r: String)
    ensures
        r@ == (match *deleted {
            Ok(_) => "Deleted memory ("@ + id@ + ")"@,
            Err(e) => "Error deleting memory: "@ + e@,
        }),
{
    match deleted {
        Ok(_) => {
            let mut r = copy("Deleted memory (");
            r.append(id);
            r.append(")");
            r
        },
        Err(e) => {
            let mut r = copy("Error deleting memory: ");
            r.append(e.as_str());
            r
        },
    }
}

// ---------------------------------------------------------------------------
// Forgetting everything
// ---------------------------------------------------------------------------
/// How far forgetting everything of a scope is: how many memories were deleted, and how many
/// before the batch at hand.
pub struct Wipe {
    pub user: bool,
    pub deleted: u64,
    pub before_batch: u64,
}

pub open spec fn scope_word(user: bool) -> Seq<char> {
    if user {
        "user"@
    } else {
        "project"@
    }
}

/// What is said at the end.
pub open spec fn wiped_text(user: bool, deleted: nat) -> Seq<char> {
    if deleted == 0 {
        "No memories in the "@ + scope_word(user) + " scope."@
    } else {
        "Deleted "@ + decimal(deleted) + " memories from the "@ + scope_word(user) + " scope."@
    }
}

impl Wipe {
    pub fn new(user: bool) -> (r: Wipe)
        ensures
            r == (Wipe { user, deleted: 0, before_batch: 0 }),
    {
        Wipe { user, deleted: 0, before_batch: 0 }
    }

    /// A batch of memories was asked for, and `found` were there. Says how it ended, where it
    /// did; else the batch is to be deleted.
    pub fn batch(&mut self, found: &Result<usize, String>) -> (r: Option<String>)
        ensures
            *final(self) == (Wipe { before_batch: old(self).deleted, ..*old(self) }),
            opt_text(r) == (match *found {
                Err(e) => Some(
                    "Error listing memories: "@ + e@ + " ("@ + decimal(old(self).deleted as nat)
                        + " deleted)"@,
                ),
                Ok(n) => if n == 0 {
                    Some(wiped_text(old(self).user, old(self).deleted as nat))
                } else {
                    None
                },
            }),
    {
        self.before_batch = self.deleted;
        match found {
            Err(e) => {
                let mut line = copy("Error listing memories: ");
                line.append(e.as_str());
                line.append(" (");
                let d = decimal_text(self.deleted);
                line.append(d.as_str());
                line.append(" deleted)");
                Some(line)
            },
            Ok(n) => {
                if *n > 0 {
                    return None;
                }
                let word = if self.user {
                    "user"
                } else {
                    "project"
                };
                if self.deleted == 0 {
                    let mut line = copy("No memories in the ");
                    line.append(word);
                    line.append(" scope.");
                    Some(line)
                } else {
                    let mut line = copy("Deleted ");
                    let d = decimal_text(self.deleted);
                    line.append(d.as_str());
                    line.append(" memories from the ");
                    line.append(word);
                    line.append(" scope.");
                    Some(line)
                }
            },
        }
    }

    /// The memory `id` was to be deleted: `gone` says whether it was. Says how it ended, where
    /// it did.
    pub fn one(&mut self, id: &str, gone: &Result<bool, String>) -> (r: Option<String>)
        requires
            old(self).deleted < u64::MAX,
        ensures
            match *gone {
                Ok(b) => r is None && *final(self) == (Wipe {
                    deleted: if b {
                        (old(self).deleted + 1) as u64
                    } else {
                        old(self).deleted
                    },
                    ..*old(self)
                }),
                Err(e) => *final(self) == *old(self) && opt_text(r) == Some(
                    "Error deleting memory ("@ + id@ + "): "@ + e@ + " ("@ + decimal(
                        old(self).deleted as nat,
                    ) + " deleted)"@,
                ),
            },
    {
        match gone {
            Ok(b) => {
                if *b {
                    self.deleted = self.deleted + 1;
                }
                None
            },
            Err(e) => {
                let mut line = copy("Error deleting memory (");
                line.append(id);
                line.append("): ");
                line.append(e.as_str());
                line.append(" (");
                let d = decimal_text(self.deleted);
                line.append(d.as_str());
                line.append(" deleted)");
                Some(line)
            },
        }
    }

    /// The batch is done. It ends here where nothing of it could be deleted: else the same
    /// memories would come again and again.
    pub fn batch_done(&self) -> (r: Option<String>)
        ensures
            opt_text(r) == (if self.deleted == self.before_batch {
                Some(
                    "Stopped: store kept returning undeletable memories ("@ + decimal(
                        self.deleted as nat,
                    ) + " deleted)."@,
                )
            } else {
                None
            }),
    {
        if self.deleted == self.before_batch {
            let mut line = copy("Stopped: store kept returning undeletable memories (");
            let d = decimal_text(self.deleted);
            line.append(d.as_str());
            line.append(" deleted).");
            Some(line)
        } else {
            None
        }
    }
}

/// What is typed behind `/memory` is a word, white space and the rest: both are read, the rest
/// without the white space around it.
pub proof fn words_and_rests_read_back(word: Seq<char>, c: char, rest: Seq<char>)
    requires
        word.len() > 0,
        forall|k: int| 0 <= k < word.len() ==> !is_space(#[trigger] word[k]),
        is_space(c),
    ensures
        word_and_rest(word.push(c) + rest) == (word, trim(rest)),
        word_and_rest(word) == (word, trim(Seq::empty())),
{
    reveal_strlit("");
    let s = word.push(c) + rest;
    let n = word.len() as int;
    let (a, b) = trim_span(rest);
    assert(s[0] == word[0] && s[n - 1] == word[n - 1]);
    assert forall|k: int| 0 <= k < n implies non_spaces()(#[trigger] s[k]) by {
        assert(s[k] == word[k]);
    }
    assert(word.subrange(0, n) =~= word);
    lemma_trim_is(word, 0, n);
    assert forall|k: int| 0 <= k < n implies non_spaces()(#[trigger] word[k]) by {}
    lemma_run_is(word, non_spaces(), 0, n as nat);
    let none = Seq::<char>::empty();
    lemma_trim_is(none, 0, 0);
    assert(""@ =~= trim(none));
    if a >= b {
        assert forall|k: int| n <= k < s.len() implies is_space(#[trigger] s[k]) by {
            if k > n {
                assert(s[k] == rest[k - n - 1]);
            }
        }
        lemma_trim_is(s, 0, n);
        assert(s.subrange(0, n) =~= word);
        assert(""@ =~= trim(rest));
    } else {
        let e = n + 1 + b;
        assert(s[e - 1] == rest[b - 1]);
        assert forall|k: int| e <= k < s.len() implies is_space(#[trigger] s[k]) by {
            assert(s[k] == rest[k - n - 1]);
        }
        lemma_trim_is(s, 0, e);
        let t = trim(s);
        assert(t[n] == c);
        assert forall|k: int| 0 <= k < n implies non_spaces()(#[trigger] t[k]) by {
            assert(t[k] == word[k]);
        }
        lemma_run_is(t, non_spaces(), 0, n as nat);
        assert(t.take(n) =~= word);
        let u = t.skip(n + 1);
        assert(u =~= rest.take(b));
        assert forall|k: int| 0 <= k < a implies is_space(#[trigger] u[k]) by {
            assert(u[k] == rest[k]);
        }
        assert(u[a] == rest[a] && u[b - 1] == rest[b - 1]);
        lemma_trim_is(u, a, b);
        assert(u.subrange(a, b) =~= rest.subrange(a, b));
    }
}

proof fn lemma_subcommand_names()
    ensures
        "list"@.len() == 4 && "list"@[0] == 'l',
        "add"@.len() == 3,
        "search"@.len() == 6 && "search"@[0] == 's',
        "forget"@.len() == 6 && "forget"@[0] == 'f',
        "help"@.len() == 4 && "help"@[0] == 'h',
        "user"@.len() == 4,
        "project"@.len() == 7,
        forall|k: int| 0 <= k < 4 ==> !is_space(#[trigger] "list"@[k]),
        forall|k: int| 0 <= k < 3 ==> !is_space(#[trigger] "add"@[k]),
        forall|k: int| 0 <= k < 6 ==> !is_space(#[trigger] "search"@[k]),
        forall|k: int| 0 <= k < 6 ==> !is_space(#[trigger] "forget"@[k]),
        forall|k: int| 0 <= k < 4 ==> !is_space(#[trigger] "help"@[k]),
{
    reveal_strlit("list");
    reveal_strlit("add");
    reveal_strlit("search");
    reveal_strlit("forget");
    reveal_strlit("help");
    reveal_strlit("user");
    reveal_strlit("project");
    let l = "list"@;
    assert(l[0] == 'l' && l[1] == 'i' && l[2] == 's' && l[3] == 't');
    let a = "add"@;
    assert(a[0] == 'a' && a[1] == 'd' && a[2] == 'd');
    let s = "search"@;
    assert(s[0] == 's' && s[1] == 'e' && s[2] == 'a' && s[3] == 'r' && s[4] == 'c' && s[5] == 'h');
    let f = "forget"@;
    assert(f[0] == 'f' && f[1] == 'o' && f[2] == 'r' && f[3] == 'g' && f[4] == 'e' && f[5] == 't');
    let h = "help"@;
    assert(h[0] == 'h' && h[1] == 'e' && h[2] == 'l' && h[3] == 'p');
}

/// What is typed to be remembered is what is saved, and what is typed to be looked for is what is
/// looked for: whole, but for the white space around it. With nothing typed the user is told how
/// the command is used.
pub proof fn typed_texts_are_saved_and_searched(c: char, text: Seq<char>, debug: bool)
    requires
        is_space(c),
    ensures
        !is_blank(text) ==> subcommand("add"@.push(c) + text, debug) == MemoryView::Save(trim(text)),
        !is_blank(text) ==> subcommand("search"@.push(c) + text, debug) == MemoryView::Search(
            trim(text),
        ),
        is_blank(text) ==> subcommand("add"@.push(c) + text, debug) is Say && subcommand(
            "search"@.push(c) + text,
            debug,
        ) is Say,
{
    lemma_subcommand_names();
    words_and_rests_read_back("add"@, c, text);
    words_and_rests_read_back("search"@, c, text);
}

/// Memories are listed of the scope that is named, or of both; a scope that there is not is
/// refused.
pub proof fn listing_goes_by_scope(c: char, scope: Seq<char>, debug: bool)
    requires
        is_space(c),
    ensures
        trim(scope) == "user"@ ==> subcommand("list"@.push(c) + scope, debug) == MemoryView::List(
            WhichScopes::User,
        ),
        trim(scope) == "project"@ ==> subcommand("list"@.push(c) + scope, debug)
            == MemoryView::List(WhichScopes::Project),
        is_blank(scope) ==> subcommand("list"@.push(c) + scope, debug) == MemoryView::List(
            WhichScopes::Both,
        ) && subcommand(scope, debug) == MemoryView::List(WhichScopes::Both),
        !is_blank(scope) && trim(scope) != "user"@ && trim(scope) != "project"@ ==> subcommand(
            "list"@.push(c) + scope,
            debug,
        ) is Say,
{
    lemma_subcommand_names();
    words_and_rests_read_back("list"@, c, scope);
    reveal_strlit("");
    if is_blank(scope) {
        assert(word_and_rest(scope).0.len() == 0);
    }
}

/// What is typed to be forgotten is the memory that is forgotten. Only a debug build takes `all`
/// for every memory, of the scope that is named.
pub proof fn typed_ids_are_forgotten(c: char, text: Seq<char>, debug: bool)
    requires
        is_space(c),
    ensures
        ({
            let r = subcommand("forget"@.push(c) + text, debug);
            let ws = words(trim(text));
            &&& !debug || ws.len() == 0 || ws[0] != "all"@ ==> r == MemoryView::Forget(trim(text))
            &&& debug && ws.len() > 1 && ws[0] == "all"@ && ws[1] == "user"@ ==> r
                == MemoryView::ForgetAll(WhichScopes::User)
            &&& debug && ws.len() > 1 && ws[0] == "all"@ && ws[1] == "project"@ ==> r
                == MemoryView::ForgetAll(WhichScopes::Project)
        }),
{
    lemma_subcommand_names();
    words_and_rests_read_back("forget"@, c, text);
}

/// A subcommand that there is not changes nothing: the user is told so.
pub proof fn unknown_subcommands_change_nothing(args: Seq<char>, debug: bool)
    ensures
        ({
            let sub = word_and_rest(args).0;
            sub.len() > 0 && sub != "list"@ && sub != "add"@ && sub != "search"@ && sub
                != "forget"@ ==> subcommand(args, debug) is Say
        }),
{
}

/// Each memory that was written is told with its id and its text, in order, and behind them how
/// many were changed.
pub proof fn everything_written_is_told(saved: Seq<MemoryRecord>, updated: nat, i: int)
    requires
        0 <= i < saved.len(),
    ensures
        result_lines(saved, updated)[i] == "  ("@ + saved[i].id@ + ") "@ + saved[i].content@,
        updated > 0 ==> result_lines(saved, updated).len() == saved.len() + 1 && result_lines(
            saved,
            updated,
        ).last() == "  "@ + decimal(updated) + " existing updated"@,
        updated == 0 ==> result_lines(saved, updated).len() == saved.len(),
{
}

/// Something is told of a pass exactly where something was written.
pub proof fn counts_are_told(saved: nat, updated: nat)
    ensures
        saved > 0 ==> report_parts(saved, updated).contains(decimal(saved) + " saved"@),
        updated > 0 ==> report_parts(saved, updated).contains(decimal(updated) + " updated"@),
        report_parts(saved, updated).len() == (saved > 0) as int + (updated > 0) as int,
{
    let p = report_parts(saved, updated);
    if saved > 0 {
        assert(p[0] == decimal(saved) + " saved"@);
    }
    if updated > 0 {
        assert(p.last() == decimal(updated) + " updated"@);
    }
}

/// A memory is shown with its id in front and its text, whole, at the end, and it can be told
/// whether it is the user's or the project's.
pub proof fn memories_are_shown_whole(m: MemoryRecord, scopes: RunScopes)
    ensures
        ({
            let t = hit_text(m, scopes);
            &&& starts_with(
                t,
                "  ("@ + m.id@ + ") ["@ + (if m.scope@ == scopes.user@ {
                    "user"@
                } else {
                    "project"@
                }) + "]"@,
            )
            &&& t.len() >= m.content@.len()
            &&& t.skip(t.len() - m.content@.len()) == m.content@
            &&& m.tags@.len() > 0 ==> contains(t, join(texts(m.tags@), ", "@))
        }),
        forall|hits: Seq<MemoryRecord>, i: int|
            0 <= i < hits.len() ==> #[trigger] hit_texts(hits, scopes)[i] == hit_text(
                hits[i],
                scopes,
            ),
{
    let t = hit_text(m, scopes);
    let head = "  ("@ + m.id@ + ") ["@ + (if m.scope@ == scopes.user@ {
        "user"@
    } else {
        "project"@
    }) + "]"@;
    assert(t.take(head.len() as int) =~= head);
    assert(t.skip(t.len() - m.content@.len()) =~= m.content@);
    if m.tags@.len() > 0 {
        let tags = join(texts(m.tags@), ", "@);
        let at = (head + " ["@).len() as int;
        assert(t.subrange(at, at + tags.len()) =~= tags);
        lemma_contains(t, tags, at);
    }
}

/// The embedder is the one that is named by a provider and a model: it is there exactly where the
/// provider can be reached, has a key and offers embeddings.
pub proof fn named_embedders_are_used(
    provider: Seq<char>,
    model: Seq<char>,
    config: ShirlConfig,
    auth: AuthStore,
    catalog: Catalog,
    p: (EmbedderPlan, String),
)
    requires
        forall|i: int| 0 <= i < provider.len() ==> #[trigger] provider[i] != '/',
    ensures
        (embedder_refusal(provider + "/"@ + model, config, auth, catalog) is None) == (
        unreachable_because(catalog, config, provider) is None && key_or_empty(auth, provider).len()
            > 0 && no_embedder(protocol_of(catalog, config, provider)->0) is None),
        embeds_with(p, provider + "/"@ + model, config, auth, catalog) ==> p.0.model_id@ == model
            && p.1@ == key_or_empty(auth, provider) && Some(p.0.protocol) == protocol_of(
            catalog,
            config,
            provider,
        ),
{
    lemma_named_by_provider(provider, model);
}

/// `/memory` does what is typed behind it, whenever memory is on; `distill` distills whatever
/// follows it. While memory is off nothing is done.
pub proof fn memory_commands_need_memory(
    args: &str,
    wired: bool,
    debug: bool,
    r: MemoryRequest,
    c: char,
    text: Seq<char>,
)
    requires
        call_ensures(handle_memory_command, (args, wired, debug), r),
        is_space(c),
    ensures
        !wired ==> r is Say,
        wired && words(args@).len() > 0 && words(args@)[0] == "distill"@ ==> r is Distill,
        wired && !is_blank(text) && args@ == "add"@.push(c) + text ==> r@ == MemoryView::Save(
            trim(text),
        ),
        wired && !is_blank(text) && args@ == "search"@.push(c) + text ==> r@ == MemoryView::Search(
            trim(text),
        ),
        wired && args@.len() == 0 ==> r@ == MemoryView::List(WhichScopes::Both),
{
    typed_texts_are_saved_and_searched(c, text, debug);
    lemma_subcommand_names();
    reveal_strlit("distill");
    assert("distill"@.len() == 7);
    white_space_divides_words("add"@, c, text);
    white_space_divides_words("search"@, c, text);
    if args@.len() == 0 {
        assert(args@ =~= Seq::empty());
        lemma_trim_is(args@, 0, 0);
        listing_goes_by_scope(c, args@, debug);
    }
}

/// Every memory that was found is shown, in order; an error is told.
pub proof fn every_hit_is_shown(
    hits: Result<Vec<MemoryRecord>, String>,
    scopes: RunScopes,
    searching: bool,
    r: Vec<String>,
    i: int,
)
    requires
        call_ensures(hit_lines, (&hits, &scopes, searching), r),
    ensures
        hits matches Ok(h) ==> (0 <= i < h@.len() ==> r@.len() == h@.len() && r@[i]@ == hit_text(
            h@[i],
            scopes,
        )),
        hits is Err ==> r@.len() == 1,
{
    assert(texts(r@).len() == r@.len());
    match hits {
        Ok(h) => {
            if 0 <= i < h@.len() {
                assert(texts(r@)[i] == r@[i]@);
            }
        },
        _ => {},
    }
}

/// A memory is deleted where it belongs to the user or to this project, and nowhere else.
pub proof fn only_own_memories_are_forgotten(
    id: &str,
    found: Result<Option<MemoryScope>, String>,
    scopes: RunScopes,
    r: ForgetStep,
)
    requires
        call_ensures(forget_step, (id, &found, &scopes), r),
    ensures
        (r is Delete) == (found matches Ok(Some(s)) && (s@ == scopes.project@ || s@
            == scopes.user@)),
{
}

/// The scopes that are meant are those that are named; both are the project's and the user's.
pub proof fn named_scopes_are_meant(which: WhichScopes, scopes: RunScopes, r: Vec<MemoryScope>)
    requires
        call_ensures(scopes_meant, (which, &scopes), r),
    ensures
        r@.contains(scopes.user) || which == WhichScopes::Project,
        r@.contains(scopes.project) || which == WhichScopes::User,
        which != WhichScopes::Both ==> r@.len() == 1,
{
    match which {
        WhichScopes::Both => {
            assert(r@[0] == scopes.project && r@[1] == scopes.user);
        },
        _ => {
            assert(r@[0] == r@[0]);
        },
    }
}

/// What a pass of distilling wrote is told to the user who asked for it, memory by memory, and
/// what went wrong is told as well; in the background nothing is said where nothing was written.
pub proof fn passes_are_reported(
    waited: bool,
    outcome: DistillOutcome,
    asked: Vec<String>,
    background: Option<String>,
    i: int,
)
    requires
        call_ensures(distill_command_lines, (waited, &outcome), asked),
        call_ensures(background_line, (&outcome,), background),
    ensures
        outcome matches DistillOutcome::Written(report) ==> (0 <= i < report.saved@.len() ==> i
            < asked@.len() && asked@[i]@ == "  ("@ + report.saved@[i].id@ + ") "@
            + report.saved@[i].content@),
        outcome matches DistillOutcome::Written(report) ==> (background is Some) == (
        report.saved@.len() > 0 || report.updated > 0),
        outcome is Failed || outcome is TimedOut ==> background is Some && asked@.len() == 1,
        outcome is NothingNew ==> background is None,
{
    assert(texts(asked@).len() == asked@.len());
    match outcome {
        DistillOutcome::Written(report) => {
            if 0 <= i < report.saved@.len() {
                everything_written_is_told(report.saved@, report.updated as nat, i);
                assert(texts(asked@)[i] == asked@[i]@);
            }
        },
        _ => {},
    }
}

/// Memory starts exactly where it is on. An embedder that is configured is used, and where it
/// cannot be the user is warned; without one nothing is said.
pub proof fn memory_starts_as_configured(
    config: ShirlConfig,
    auth: AuthStore,
    catalog: Catalog,
    r: MemoryStart,
)
    requires
        call_ensures(build_wiring, (&config, &auth, &catalog), r),
    ensures
        r.enabled == config.memory.enabled,
        config.memory.enabled && config.memory.embedder is Some ==> (r.embedder is Some)
            != (r.warning is Some),
        config.memory.embedder is None || !config.memory.enabled ==> r.embedder is None && r.warning
            is None,
{
}

/// Forgetting everything counts each memory that went, and stops where nothing is left, where
/// something goes wrong, and where a batch leaves everything as it was.
pub proof fn wipes_count_and_end(
    one: &mut Wipe,
    batch: &mut Wipe,
    done: Wipe,
    id: &str,
    gone: bool,
    found: usize,
    on_one: Option<String>,
    on_batch: Option<String>,
    on_done: Option<String>,
)
    requires
        call_ensures(Wipe::one, (one, id, &Ok::<bool, String>(gone)), on_one),
        call_ensures(Wipe::batch, (batch, &Ok::<usize, String>(found)), on_batch),
        call_ensures(Wipe::batch_done, (&done,), on_done),
        old(one).deleted < u64::MAX,
    ensures
        final(one).deleted == old(one).deleted + (gone as int),
        on_one is None,
        (on_batch is Some) == (found == 0),
        final(batch).deleted == old(batch).deleted,
        final(batch).before_batch == old(batch).deleted,
        (on_done is Some) == (done.deleted == done.before_batch),
{
}

/// The memories of two projects are kept apart, and none of a project is the user's.
pub proof fn projects_have_scopes_of_their_own(
    user: MemoryScope,
    a: MemoryScope,
    b: MemoryScope,
    root_a: &str,
    root_b: &str,
    same: bool,
)
    requires
        call_ensures(user_scope, (), user),
        call_ensures(project_scope, (root_a,), a),
        call_ensures(project_scope, (root_b,), b),
        call_ensures(MemoryScope::is_same, (&a, &b), same),
    ensures
        same == (root_a@ == root_b@),
        a@ != user@,
{
}

/// What was saved or deleted is told with its id, and what went wrong with its reason.
pub proof fn stored_memories_are_told(
    id: &str,
    saved: Result<String, String>,
    deleted: Result<(), String>,
    on_save: String,
    on_delete: String,
)
    requires
        call_ensures(saved_line, (&saved,), on_save),
        call_ensures(deleted_line, (id, &deleted), on_delete),
    ensures
        saved matches Ok(s) ==> contains(on_save@, s@),
        saved matches Err(e) ==> contains(on_save@, e@),
        deleted is Ok ==> contains(on_delete@, id@),
        deleted matches Err(e) ==> contains(on_delete@, e@),
{
    match saved {
        Ok(s) => {
            let at = "Saved memory ("@.len() as int;
            assert(on_save@.subrange(at, at + s@.len()) =~= s@);
            lemma_contains(on_save@, s@, at);
        },
        Err(e) => {
            let at = "Error saving memory: "@.len() as int;
            assert(on_save@.subrange(at, at + e@.len()) =~= e@);
            lemma_contains(on_save@, e@, at);
        },
    }
    match deleted {
        Ok(_) => {
            let at = "Deleted memory ("@.len() as int;
            assert(on_delete@.subrange(at, at + id@.len()) =~= id@);
            lemma_contains(on_delete@, id@, at);
        },
        Err(e) => {
            let at = "Error deleting memory: "@.len() as int;
            assert(on_delete@.subrange(at, at + e@.len()) =~= e@);
            lemma_contains(on_delete@, e@, at);
        },
    }
}

/// Both scopes are searched, the project's first.
pub proof fn both_scopes_are_searched(scopes: RunScopes, r: Vec<MemoryScope>)
    requires
        call_ensures(RunScopes::searchable_scopes, (&scopes,), r),
    ensures
        r@.len() == 2,
        r@[0] == scopes.project,
        r@[1] == scopes.user,
{
}

/// What was wiped is told by its scope and its number.
pub proof fn wiped_scopes_are_told(user: bool, deleted: nat)
    ensures
        scope_word(true) != scope_word(false),
        contains(wiped_text(user, deleted), scope_word(user)),
        deleted > 0 ==> contains(wiped_text(user, deleted), decimal(deleted)),
{
    reveal_strlit("user");
    reveal_strlit("project");
    assert("user"@.len() == 4 && "project"@.len() == 7);
    let t = wiped_text(user, deleted);
    let w = scope_word(user);
    let d = decimal(deleted);
    let at = if deleted == 0 {
        "No memories in the "@.len() as int
    } else {
        ("Deleted "@ + d + " memories from the "@).len() as int
    };
    assert(t.subrange(at, at + w.len()) =~= w);
    lemma_contains(t, w, at);
    if deleted > 0 {
        let k = "Deleted "@.len() as int;
        assert(t.subrange(k, k + d.len()) =~= d);
        lemma_contains(t, d, k);
    }
}

} // verus!
