//! The pickers for models and providers, and the prompt for a key.
use crate::auth::{AuthStore, has_put};
use crate::catalog::{
    Catalog, CatalogModel, CatalogProvider, ModelView, OptionView, ReasoningOption, model_views,
    option_views, provider_in,
};
use crate::command::{Command, move_within, moved};
use crate::config::{ModelExtension, ShirlConfig};
use crate::factory::{apply_context_window, positive};
use crate::text::{
    chars_of, copy, decimal, decimal_text, is_blank, join, joined, opt_text, same, split_at_first,
    split_once, starts_with, text_of, texts, trim, trimmed,
};
use crate::text_map::{TextMap, every_key_is_listed, lists};
use crate::turn::lemma_named_by_provider;
use vstd::prelude::*;

verus! {

// ---------------------------------------------------------------------------
// Matching and fitting text
// ---------------------------------------------------------------------------
/// A text in lower case, by `str::to_lowercase`.
pub uninterp spec fn lowercase_of(s: Seq<char>) -> Seq<char>;

/// A text in lower case, by `str::to_lowercase`: which text that is depends on the text alone.
#[verifier::external_body]
fn to_lowercase(s: &str) -> (r: String)
    ensures
        r@ == lowercase_of(s@),
{
    s.to_lowercase()
}

/// Whether the characters of `needle` from `j` on occur in `hay` from `i` on, in their order.
pub open spec fn occurs_from(hay: Seq<char>, i: int, needle: Seq<char>, j: int) -> bool
    decreases hay.len() - i,
{
    if j < 0 || j >= needle.len() {
        true
    } else if i < 0 || i >= hay.len() {
        false
    } else if hay[i] == needle[j] {
        occurs_from(hay, i + 1, needle, j + 1)
    } else {
        occurs_from(hay, i + 1, needle, j)
    }
}

/// Whether the characters of `needle` occur in `hay`, in their order.
pub open spec fn occurs_in_order(hay: Seq<char>, needle: Seq<char>) -> bool {
    occurs_from(hay, 0, needle, 0)
}

/// Whether `needle` fits `hay` but for the case of letters.
pub open spec fn fits(hay: Seq<char>, needle: Seq<char>) -> bool {
    occurs_in_order(lowercase_of(hay), lowercase_of(needle))
}

/// Whether the characters of `needle` occur in `hay`, in their order.
pub fn has_in_order(hay: &str, needle: &str) -> (r: bool)
    ensures
        r == occurs_in_order(hay@, needle@),
{
    let h = chars_of(hay);
    let n = chars_of(needle);
    let mut i: usize = 0;
    let mut j: usize = 0;
    while i < h.len() && j < n.len()
        invariant
            i <= h@.len(),
            j <= n@.len(),
            h@ == hay@,
            n@ == needle@,
            occurs_from(hay@, i as int, needle@, j as int) == occurs_from(hay@, 0, needle@, 0),
        decreases h@.len() - i,
    {
        if h[i] == n[j] {
            j += 1;
        }
        i += 1;
    }
    j == n.len()
}

/// Whether the characters of `needle` occur in `haystack`, in their order, but for the case of
/// letters.
pub fn fuzzy_match(haystack: &str, needle: &str) -> (r: bool)
    ensures
        r == fits(haystack@, needle@),
{
    let hay = to_lowercase(haystack);
    let needle = to_lowercase(needle);
    has_in_order(hay.as_str(), needle.as_str())
}

proof fn lemma_occurs(hay: Seq<char>, i: int, needle: Seq<char>, j: int, at: Seq<int>)
    requires
        0 <= i,
        0 <= j <= needle.len(),
        at.len() == needle.len() - j,
        forall|k: int|
            0 <= k < at.len() ==> i <= (#[trigger] at[k]) < hay.len() && hay[at[k]] == needle[j + k],
        forall|k: int, l: int| 0 <= k < l < at.len() ==> (#[trigger] at[k]) < (#[trigger] at[l]),
    ensures
        occurs_from(hay, i, needle, j),
    decreases hay.len() - i,
{
    if j < needle.len() {
        assert(i <= at[0] < hay.len());
        if hay[i] == needle[j] {
            let rest = at.skip(1);
            assert forall|k: int| 0 <= k < rest.len() implies i + 1 <= (#[trigger] rest[k])
                < hay.len() && hay[rest[k]] == needle[j + 1 + k] by {
                assert(rest[k] == at[k + 1]);
                assert(at[0] < at[k + 1]);
            }
            lemma_occurs(hay, i + 1, needle, j + 1, rest);
        } else {
            assert(hay[at[0]] == needle[j + 0]);
            assert(at[0] != i);
            assert forall|k: int| 0 <= k < at.len() implies i + 1 <= (#[trigger] at[k])
                < hay.len() by {
                if k > 0 {
                    assert(at[0] < at[k]);
                }
            }
            lemma_occurs(hay, i + 1, needle, j, at);
        }
    }
}

/// A text occurs in order wherever its characters can be found at growing places.
pub proof fn found_places_mean_occurrence(hay: Seq<char>, needle: Seq<char>, at: Seq<int>)
    requires
        at.len() == needle.len(),
        forall|k: int|
            0 <= k < at.len() ==> 0 <= (#[trigger] at[k]) < hay.len() && hay[at[k]] == needle[k],
        forall|k: int, l: int| 0 <= k < l < at.len() ==> (#[trigger] at[k]) < (#[trigger] at[l]),
    ensures
        occurs_in_order(hay, needle),
{
    lemma_occurs(hay, 0, needle, 0, at);
}

/// `s` cut to `max` characters, with an ellipsis as the last one where anything is cut.
pub open spec fn cut(s: Seq<char>, max: int) -> Seq<char> {
    if max <= 0 {
        Seq::empty()
    } else if s.len() <= max {
        s
    } else {
        s.take(max - 1).push('…')
    }
}

/// `s` cut to `max` characters, with an ellipsis as the last one where anything is cut.
pub fn truncate_str(s: &str, max: usize) -> (r: String)
    ensures
        r@ == cut(s@, max as int),
{
    if max == 0 {
        return String::new();
    }
    let v = chars_of(s);
    if v.len() <= max {
        return copy(s);
    }
    let mut r = text_of(&v, 0, max - 1);
    assert(r@ =~= s@.take(max - 1));
    r.push('…');
    r
}

/// What is cut is never longer than asked for, and what is short enough is left alone.
pub proof fn cut_text_fits(s: Seq<char>, max: int)
    requires
        max >= 0,
    ensures
        cut(s, max).len() <= max,
        s.len() <= max ==> cut(s, max) == s,
        cut(cut(s, max), max) == cut(s, max),
{
    if s.len() == 0 {
        assert(cut(s, max) =~= s);
    }
}

/// `s` with spaces behind it up to `width` characters.
pub open spec fn padded(s: Seq<char>, width: int) -> Seq<char> {
    if s.len() >= width {
        s
    } else {
        s + Seq::new((width - s.len()) as nat, |i: int| ' ')
    }
}

fn pad_to(s: String, width: usize) -> (r: String)
    ensures
        r@ == padded(s@, width as int),
{
    let n = chars_of(s.as_str()).len();
    let ghost s0 = s@;
    let mut r = s;
    let mut i: usize = n;
    assert(r@ =~= s0 + Seq::new(0, |i: int| ' '));
    while i < width
        invariant
            n == s0.len(),
            n <= i,
            n < width ==> i <= width,
            n >= width ==> i == n,
            r@ == s0 + Seq::new((i - n) as nat, |i: int| ' '),
        decreases width - i,
    {
        r.push(' ');
        i += 1;
        assert(r@ =~= s0 + Seq::new((i - n) as nat, |i: int| ' '));
    }
    assert(r@ =~= padded(s0, width as int));
    r
}

/// `a` less `b`, or zero.
pub open spec fn less_or_zero(a: int, b: int) -> int {
    if a > b {
        a - b
    } else {
        0
    }
}

// ---------------------------------------------------------------------------
// Rows
// ---------------------------------------------------------------------------
/// A row of a picker.
#[derive(Debug, PartialEq, Eq)]
pub struct PickerEntry {
    pub id: String,
    pub display: String,
    pub is_current: bool,
}

pub struct EntryView {
    pub id: Seq<char>,
    pub display: Seq<char>,
    pub is_current: bool,
}

impl View for PickerEntry {
    type V = EntryView;

    open spec fn view(&self) -> EntryView {
        EntryView { id: self.id@, display: self.display@, is_current: self.is_current }
    }
}

pub open spec fn entry_views(s: Seq<PickerEntry>) -> Seq<EntryView> {
    Seq::new(s.len(), |i: int| s[i]@)
}

impl PickerEntry {
    pub fn copied(&self) -> (r: PickerEntry)
        ensures
            r == *self,
    {
        PickerEntry {
            id: self.id.clone(),
            display: self.display.clone(),
            is_current: self.is_current,
        }
    }
}

/// Rows under a heading.
#[derive(Debug, PartialEq, Eq)]
pub struct PickerSection {
    pub header: Option<String>,
    pub entries: Vec<PickerEntry>,
}

pub struct SectionView {
    pub header: Option<Seq<char>>,
    pub entries: Seq<EntryView>,
}

impl View for PickerSection {
    type V = SectionView;

    open spec fn view(&self) -> SectionView {
        SectionView { header: opt_text(self.header), entries: entry_views(self.entries@) }
    }
}

pub open spec fn section_views(s: Seq<PickerSection>) -> Seq<SectionView> {
    Seq::new(s.len(), |i: int| s[i]@)
}

/// The name under which a provider is shown: the user's, or else the catalog's, or else its id.
pub open spec fn display_name(id: Seq<char>, catalog: Catalog, config: ShirlConfig) -> Seq<char> {
    if config.providers@.contains_key(id) {
        match config.providers@[id].display_name {
            Some(n) => n@,
            None => id,
        }
    } else {
        match provider_in(catalog, id) {
            Some(p) => p.name@,
            None => id,
        }
    }
}

/// The name under which a provider is shown.
pub fn provider_display_name(provider_id: &str, catalog: &Catalog, config: &ShirlConfig) -> (r:
    String)
    ensures
        r@ == display_name(provider_id@, *catalog, *config),
{
    match config.providers.get(provider_id) {
        Some(custom) => match &custom.display_name {
            Some(n) => n.clone(),
            None => copy(provider_id),
        },
        None => match catalog.get_provider(provider_id) {
            Some(p) => p.name.clone(),
            None => copy(provider_id),
        },
    }
}

/// The kinds of control of a model's reasoning, one after the other.
pub open spec fn kinds(options: Seq<OptionView>) -> Seq<Seq<char>> {
    Seq::new(options.len(), |i: int| options[i].kind_name())
}

/// What a row says about reasoning.
pub open spec fn hint_text(options: Seq<OptionView>) -> Seq<char> {
    if options.len() == 0 {
        Seq::empty()
    } else {
        "  "@ + join(kinds(options), "/"@)
    }
}

/// What a row says about reasoning: the kinds of control, if there are any.
pub fn reasoning_hint(options: &Vec<ReasoningOption>) -> (r: String)
    ensures
        r@ == hint_text(option_views(options@)),
{
    if options.len() == 0 {
        return String::new();
    }
    let ghost want = kinds(option_views(options@));
    let mut labels: Vec<String> = Vec::new();
    let mut i: usize = 0;
    while i < options.len()
        invariant
            i <= options@.len(),
            want == kinds(option_views(options@)),
            texts(labels@) =~= want.take(i as int),
        decreases options@.len() - i,
    {
        let ghost l0 = texts(labels@);
        let label = copy(options[i].kind_label());
        labels.push(label);
        assert(texts(labels@) =~= l0.push(label@));
        i += 1;
    }
    assert(texts(labels@) =~= want);
    let mut r = copy("  ");
    let list = joined(&labels, "/");
    r.append(list.as_str());
    r
}

/// What a row says about the context window.
pub open spec fn window_text(window: Option<usize>) -> Seq<char> {
    match positive(window) {
        Some(n) => "  "@ + decimal((n / 1000) as nat) + "k"@,
        None => Seq::empty(),
    }
}

/// The row of a model in a picker `width` characters wide.
pub open spec fn model_row(provider: Seq<char>, m: ModelView, current: Seq<char>, width: int) -> EntryView {
    let suffix = hint_text(m.reasoning_options) + window_text(m.context_window);
    let available = less_or_zero(width, suffix.len() as int + 2);
    let id_w = if available * 3 / 5 > 10 {
        available * 3 / 5
    } else {
        10
    };
    let name_w = less_or_zero(available, id_w + 1);
    let id = provider + "/"@ + m.id;
    EntryView {
        id,
        display: padded(cut(m.id, id_w), id_w) + " "@ + padded(cut(m.name, name_w), name_w)
            + suffix,
        is_current: id == current,
    }
}

/// The row of a model.
fn row_of_model(provider: &str, m: &CatalogModel, current: &str, width: usize) -> (r: PickerEntry)
    requires
        width * 3 <= usize::MAX,
    ensures
        r@ == model_row(provider@, m@, current@, width as int),
{
    let mut suffix = reasoning_hint(&m.reasoning_options);
    let ghost hint = suffix@;
    match apply_context_window(m.context_window) {
        Some(n) => {
            let mut w = copy("  ");
            let d = decimal_text((n / 1000) as u64);
            w.append(d.as_str());
            w.append("k");
            suffix.append(w.as_str());
        },
        None => {},
    }
    assert(suffix@ =~= hint + window_text(m@.context_window));
    let n = chars_of(suffix.as_str()).len();
    let available: usize = if n < width && width - n > 2 {
        width - n - 2
    } else {
        0
    };
    let share: usize = available * 3 / 5;
    let id_w: usize = if share > 10 {
        share
    } else {
        10
    };
    let name_w: usize = if available > id_w && available - id_w > 1 {
        available - id_w - 1
    } else {
        0
    };
    let mut id = copy(provider);
    id.append("/");
    id.append(m.id.as_str());
    let mut display = pad_to(truncate_str(m.id.as_str(), id_w), id_w);
    display.append(" ");
    let name = pad_to(truncate_str(m.name.as_str(), name_w), name_w);
    display.append(name.as_str());
    display.append(suffix.as_str());
    let is_current = same(id.as_str(), current);
    PickerEntry { id, display, is_current }
}

/// The row of a provider in a picker `width` characters wide. One that is connected is marked.
pub open spec fn provider_row(
    p: CatalogProvider,
    catalog: Catalog,
    config: ShirlConfig,
    auth: AuthStore,
    width: int,
) -> EntryView {
    let id_w = if width / 2 > 10 {
        width / 2
    } else {
        10
    };
    let name_w = less_or_zero(width, id_w + 1);
    EntryView {
        id: p.id@,
        display: padded(cut(p.id@, id_w), id_w) + " "@ + padded(
            cut(display_name(p.id@, catalog, config), name_w),
            name_w,
        ),
        is_current: auth.llm@.contains_key(p.id@),
    }
}

/// The rows of all providers.
pub open spec fn provider_rows(catalog: Catalog, config: ShirlConfig, auth: AuthStore, width: int) -> Seq<
    EntryView,
> {
    Seq::new(
        catalog.providers@.len(),
        |i: int| provider_row(catalog.providers@[i], catalog, config, auth, width),
    )
}

/// The rows of all providers of the catalog.
pub fn build_provider_entries(
    catalog: &Catalog,
    config: &ShirlConfig,
    auth: &AuthStore,
    max_row_width: usize,
) -> (r: Vec<PickerEntry>)
    ensures
        entry_views(r@) == provider_rows(*catalog, *config, *auth, max_row_width as int),
{
    let half: usize = max_row_width / 2;
    let id_w: usize = if half > 10 {
        half
    } else {
        10
    };
    let name_w: usize = if max_row_width > id_w && max_row_width - id_w > 1 {
        max_row_width - id_w - 1
    } else {
        0
    };
    let ghost want = provider_rows(*catalog, *config, *auth, max_row_width as int);
    let mut r: Vec<PickerEntry> = Vec::new();
    let mut i: usize = 0;
    while i < catalog.providers.len()
        invariant
            i <= catalog.providers@.len(),
            want == provider_rows(*catalog, *config, *auth, max_row_width as int),
            id_w == if max_row_width / 2 > 10 {
                (max_row_width / 2) as int
            } else {
                10int
            },
            name_w == less_or_zero(max_row_width as int, id_w + 1),
            entry_views(r@) =~= want.take(i as int),
        decreases catalog.providers@.len() - i,
    {
        let p = &catalog.providers[i];
        let ghost r0 = entry_views(r@);
        let name = provider_display_name(p.id.as_str(), catalog, config);
        let mut display = pad_to(truncate_str(p.id.as_str(), id_w), id_w);
        display.append(" ");
        let column = pad_to(truncate_str(name.as_str(), name_w), name_w);
        display.append(column.as_str());
        let e = PickerEntry {
            id: p.id.clone(),
            display,
            is_current: auth.contains(p.id.as_str()),
        };
        assert(e@ == want[i as int]);
        r.push(e);
        assert(entry_views(r@) =~= r0.push(e@));
        i += 1;
    }
    assert(entry_views(r@) =~= want);
    r
}

// ---------------------------------------------------------------------------
// The model picker
// ---------------------------------------------------------------------------
/// The state of the model picker.
pub struct PickerState {
    pub entries_by_provider: TextMap<Vec<CatalogModel>>,
    pub providers: Vec<String>,
    pub displayed: Vec<PickerEntry>,
    pub selected_index: usize,
    pub filter: String,
    pub loading: bool,
    pub current: String,
}

/// Whether the filter lets a model through.
pub open spec fn passes(m: ModelView, filter: Seq<char>) -> bool {
    lowercase_of(filter).len() == 0 || fits(m.id, lowercase_of(filter)) || fits(
        m.name,
        lowercase_of(filter),
    )
}

/// The rows of the models of a provider that the filter lets through.
pub open spec fn model_rows(
    provider: Seq<char>,
    ms: Seq<ModelView>,
    filter: Seq<char>,
    current: Seq<char>,
    width: int,
) -> Seq<EntryView>
    decreases ms.len(),
{
    if ms.len() == 0 {
        Seq::empty()
    } else {
        let before = model_rows(provider, ms.drop_last(), filter, current, width);
        if passes(ms.last(), filter) {
            before.push(model_row(provider, ms.last(), current, width))
        } else {
            before
        }
    }
}

/// The rows of a provider in the state of a picker.
pub open spec fn rows_of(s: PickerState, provider: Seq<char>, width: int) -> Seq<EntryView> {
    if s.entries_by_provider@.contains_key(provider) {
        model_rows(
            provider,
            model_views(s.entries_by_provider@[provider]@),
            s.filter@,
            s.current@,
            width,
        )
    } else {
        Seq::empty()
    }
}

/// The sections of the first `n` providers: those with rows, each under the provider's name.
pub open spec fn model_sections(
    s: PickerState,
    catalog: Catalog,
    config: ShirlConfig,
    width: int,
    n: int,
) -> Seq<SectionView>
    decreases n,
{
    if n <= 0 || n > s.providers@.len() {
        Seq::empty()
    } else {
        let provider = s.providers@[n - 1]@;
        let rows = rows_of(s, provider, width);
        let before = model_sections(s, catalog, config, width, n - 1);
        if rows.len() == 0 {
            before
        } else {
            before.push(
                SectionView { header: Some(display_name(provider, catalog, config)), entries: rows },
            )
        }
    }
}

/// All sections.
pub open spec fn all_sections(
    s: PickerState,
    catalog: Catalog,
    config: ShirlConfig,
    width: int,
) -> Seq<SectionView> {
    model_sections(s, catalog, config, width, s.providers@.len() as int)
}

/// The rows of sections, one after the other.
pub open spec fn flat(sections: Seq<SectionView>) -> Seq<EntryView>
    decreases sections.len(),
{
    if sections.len() == 0 {
        Seq::empty()
    } else {
        flat(sections.drop_last()) + sections.last().entries
    }
}

fn rows_of_models(
    provider: &str,
    models: &Vec<CatalogModel>,
    filter: &str,
    current: &str,
    width: usize,
) -> (r: Vec<PickerEntry>)
    requires
        width * 3 <= usize::MAX,
    ensures
        entry_views(r@) == model_rows(
            provider@,
            model_views(models@),
            filter@,
            current@,
            width as int,
        ),
{
    let ghost views = model_views(models@);
    let lowered = to_lowercase(filter);
    let all = lowered.as_str().is_empty();
    let mut r: Vec<PickerEntry> = Vec::new();
    let mut i: usize = 0;
    assert(views.take(0) =~= Seq::empty());
    assert(entry_views(r@) =~= Seq::empty());
    while i < models.len()
        invariant
            i <= models@.len(),
            width * 3 <= usize::MAX,
            views == model_views(models@),
            lowered@ == lowercase_of(filter@),
            all == (lowered@.len() == 0),
            entry_views(r@) == model_rows(
                provider@,
                views.take(i as int),
                filter@,
                current@,
                width as int,
            ),
        decreases models@.len() - i,
    {
        let m = &models[i];
        let ghost r0 = entry_views(r@);
        proof {
            let t = views.take(i + 1);
            assert(t.drop_last() =~= views.take(i as int));
            assert(t.last() == m@);
        }
        if all || fuzzy_match(m.id.as_str(), lowered.as_str()) || fuzzy_match(
            m.name.as_str(),
            lowered.as_str(),
        ) {
            let e = row_of_model(provider, m, current, width);
            r.push(e);
            assert(entry_views(r@) =~= r0.push(e@));
        }
        i += 1;
    }
    assert(views.take(i as int) =~= views);
    r
}

/// The sections of the picker: the models that the filter lets through, under the names of
/// their providers.
pub fn build_model_sections(
    state: &PickerState,
    catalog: &Catalog,
    config: &ShirlConfig,
    max_row_width: usize,
) -> (r: Vec<PickerSection>)
    requires
        max_row_width * 3 <= usize::MAX,
    ensures
        section_views(r@) == all_sections(*state, *catalog, *config, max_row_width as int),
{
    let mut r: Vec<PickerSection> = Vec::new();
    let mut i: usize = 0;
    assert(section_views(r@) =~= Seq::empty());
    while i < state.providers.len()
        invariant
            i <= state.providers@.len(),
            max_row_width * 3 <= usize::MAX,
            section_views(r@) == model_sections(
                *state,
                *catalog,
                *config,
                max_row_width as int,
                i as int,
            ),
        decreases state.providers@.len() - i,
    {
        let provider = state.providers[i].as_str();
        let ghost r0 = section_views(r@);
        match state.entries_by_provider.get(provider) {
            Some(models) => {
                let entries = rows_of_models(
                    provider,
                    models,
                    state.filter.as_str(),
                    state.current.as_str(),
                    max_row_width,
                );
                if entries.len() > 0 {
                    let section = PickerSection {
                        header: Some(provider_display_name(provider, catalog, config)),
                        entries,
                    };
                    r.push(section);
                    assert(section_views(r@) =~= r0.push(section@));
                }
            },
            None => {},
        }
        i += 1;
    }
    r
}

/// Whether `new` is `old` with the rows shown anew and the selection among them.
pub open spec fn is_rebuilt(
    old: PickerState,
    new: PickerState,
    catalog: Catalog,
    config: ShirlConfig,
    width: int,
) -> bool {
    &&& new.entries_by_provider == old.entries_by_provider
    &&& new.providers == old.providers
    &&& new.filter == old.filter
    &&& new.loading == old.loading
    &&& new.current == old.current
    &&& entry_views(new.displayed@) == flat(all_sections(old, catalog, config, width))
    &&& new.selected_index == if old.selected_index >= new.displayed@.len() {
        less_or_zero(new.displayed@.len() as int, 1)
    } else {
        old.selected_index as int
    }
}

/// Shows the rows anew. The selection stays, but not behind the last row.
pub fn rebuild_displayed(
    state: &mut PickerState,
    catalog: &Catalog,
    config: &ShirlConfig,
    max_row_width: usize,
)
    requires
        max_row_width * 3 <= usize::MAX,
    ensures
        is_rebuilt(*old(state), *final(state), *catalog, *config, max_row_width as int),
{
    let sections = build_model_sections(&*state, catalog, config, max_row_width);
    let ghost views = section_views(sections@);
    let mut entries: Vec<PickerEntry> = Vec::new();
    let mut i: usize = 0;
    assert(views.take(0) =~= Seq::empty());
    assert(entry_views(entries@) =~= Seq::empty());
    while i < sections.len()
        invariant
            i <= sections@.len(),
            views == section_views(sections@),
            entry_views(entries@) == flat(views.take(i as int)),
        decreases sections@.len() - i,
    {
        let part = &sections[i].entries;
        let ghost before = entry_views(entries@);
        let ghost rows = entry_views(part@);
        let mut k: usize = 0;
        assert(before + rows.take(0) =~= before);
        while k < part.len()
            invariant
                k <= part@.len(),
                rows == entry_views(part@),
                entry_views(entries@) == before + rows.take(k as int),
            decreases part@.len() - k,
        {
            let ghost e0 = entry_views(entries@);
            entries.push(part[k].copied());
            assert(entry_views(entries@) =~= e0.push(rows[k as int]));
            k += 1;
            assert(before + rows.take(k as int) =~= e0.push(rows[k - 1]));
        }
        assert(rows.take(k as int) =~= rows);
        proof {
            let t = views.take(i + 1);
            assert(t.drop_last() =~= views.take(i as int));
            assert(t.last() == sections@[i as int]@);
        }
        i += 1;
    }
    assert(views.take(i as int) =~= views);
    state.displayed = entries;
    if state.selected_index >= state.displayed.len() {
        state.selected_index = if state.displayed.len() > 0 {
            state.displayed.len() - 1
        } else {
            0
        };
    }
}

/// What a command comes to in a picker.
pub enum PickerStep<T> {
    /// Nothing.
    Ignore,
    /// The picker is to be drawn anew.
    Redraw,
    /// The picker is closed, with what was picked or with nothing.
    Done(Option<T>),
    /// No more commands will come.
    Closed,
}

/// Whether the selection stands on a row, where there is one.
pub open spec fn selection_is_shown(displayed: nat, selected: int) -> bool {
    0 <= selected && (displayed > 0 ==> selected < displayed) && (displayed == 0 ==> selected == 0)
}

impl PickerState {
    /// The picker before the models are there.
    pub fn new(providers: Vec<String>, current: String) -> (r: PickerState)
        ensures
            r.providers == providers,
            r.current == current,
            r.entries_by_provider@ == Map::<Seq<char>, Vec<CatalogModel>>::empty(),
            r.displayed@.len() == 0,
            r.selected_index == 0,
            r.filter@.len() == 0,
            r.loading,
    {
        PickerState {
            entries_by_provider: TextMap::new(),
            providers,
            displayed: Vec::new(),
            selected_index: 0,
            filter: String::new(),
            loading: true,
            current,
        }
    }

    /// Moves the selection by so many rows, but not off the rows.
    pub fn move_selection(&mut self, delta: i32)
        ensures
            *final(self) == (PickerState {
                selected_index: final(self).selected_index,
                ..*old(self)
            }),
            final(self).selected_index == if old(self).displayed@.len() == 0 {
                old(self).selected_index as int
            } else {
                moved(
                    old(self).selected_index as int,
                    delta as int,
                    old(self).displayed@.len() - 1,
                )
            },
    {
        let total = self.displayed.len();
        if total == 0 {
            return;
        }
        self.selected_index = move_within(self.selected_index, delta, total - 1);
    }

    /// The selected row.
    pub fn selected_entry(&self) -> (r: Option<&PickerEntry>)
        ensures
            (r is Some) == (self.selected_index < self.displayed@.len()),
            r matches Some(e) ==> *e == self.displayed@[self.selected_index as int],
    {
        if self.selected_index < self.displayed.len() {
            Some(&self.displayed[self.selected_index])
        } else {
            None
        }
    }

    /// What is picked: the provider and the model of the selected row.
    pub open spec fn picked(self) -> Option<(Seq<char>, Seq<char>)> {
        if self.selected_index < self.displayed@.len() {
            split_once(self.displayed@[self.selected_index as int].id@, "/"@)
        } else {
            None
        }
    }

    /// What a command comes to; without one, no more will come.
    pub fn step(
        &mut self,
        command: Option<Command>,
        catalog: &Catalog,
        config: &ShirlConfig,
        max_row_width: usize,
    ) -> (r: PickerStep<(String, String)>)
        requires
            max_row_width * 3 <= usize::MAX,
        ensures
            match command {
                Some(Command::Submit(_)) => *final(self) == *old(self) && match old(self).picked() {
                    Some(p) => r matches PickerStep::Done(Some(q)) && (q.0@, q.1@) == p,
                    None => r is Ignore,
                },
                Some(Command::Partial(text)) => r is Redraw && is_rebuilt(
                    (PickerState { filter: text, selected_index: 0, ..*old(self) }),
                    *final(self),
                    *catalog,
                    *config,
                    max_row_width as int,
                ),
                Some(Command::SelectMove(delta)) => r is Redraw && *final(self) == (PickerState {
                    selected_index: final(self).selected_index,
                    ..*old(self)
                }) && final(self).selected_index == if old(self).displayed@.len() == 0 {
                    old(self).selected_index as int
                } else {
                    moved(
                        old(self).selected_index as int,
                        delta as int,
                        old(self).displayed@.len() - 1,
                    )
                },
                Some(Command::Resize) => r is Redraw && is_rebuilt(
                    *old(self),
                    *final(self),
                    *catalog,
                    *config,
                    max_row_width as int,
                ),
                Some(Command::Cancel) => *final(self) == *old(self) && r == PickerStep::<
                    (String, String),
                >::Done(None),
                Some(Command::Exit) => *final(self) == *old(self) && r == PickerStep::<
                    (String, String),
                >::Done(None),
                Some(_) => *final(self) == *old(self) && r is Ignore,
                None => *final(self) == *old(self) && r is Closed,
            },
    {
        match command {
            Some(Command::Submit(_)) => {
                match self.selected_entry() {
                    Some(entry) => match split_at_first(entry.id.as_str(), "/") {
                        Some((provider, model)) => PickerStep::Done(Some((provider, model))),
                        None => PickerStep::Ignore,
                    },
                    None => PickerStep::Ignore,
                }
            },
            Some(Command::Partial(text)) => {
                self.filter = text;
                self.selected_index = 0;
                rebuild_displayed(self, catalog, config, max_row_width);
                PickerStep::Redraw
            },
            Some(Command::SelectMove(delta)) => {
                self.move_selection(delta);
                PickerStep::Redraw
            },
            Some(Command::Resize) => {
                rebuild_displayed(self, catalog, config, max_row_width);
                PickerStep::Redraw
            },
            Some(Command::Cancel) => PickerStep::Done(None),
            Some(Command::Exit) => PickerStep::Done(None),
            Some(_) => PickerStep::Ignore,
            None => PickerStep::Closed,
        }
    }
}

/// The selection of the model picker always stands on a row, where there is one: it does when
/// the rows are shown, and moving it keeps it there.
pub proof fn the_selection_stays_on_the_rows(
    before: PickerState,
    after: PickerState,
    catalog: Catalog,
    config: ShirlConfig,
    width: int,
    displayed: nat,
    at: int,
    delta: int,
)
    ensures
        is_rebuilt(before, after, catalog, config, width) ==> selection_is_shown(
            after.displayed@.len(),
            after.selected_index as int,
        ),
        displayed > 0 ==> selection_is_shown(displayed, moved(at, delta, displayed - 1)),
{
}

// ---------------------------------------------------------------------------
// What the model picker offers
// ---------------------------------------------------------------------------
/// A model that the user added to a provider.
pub open spec fn added_model(id: Seq<char>, e: ModelExtension) -> ModelView {
    ModelView {
        id,
        name: match e.display_name {
            Some(n) => n@,
            None => id,
        },
        context_window: e.context_window,
        max_output_tokens: None,
        reasoning: false,
        vision: false,
        reasoning_options: Seq::empty(),
    }
}

pub open spec fn has_model(ms: Seq<ModelView>, id: Seq<char>) -> bool {
    exists|i: int| 0 <= i < ms.len() && (#[trigger] ms[i]).id == id
}

/// `ms` with the models of the first `n` entries that are not among them.
pub open spec fn with_added(ms: Seq<ModelView>, entries: Seq<(String, ModelExtension)>, n: int) -> Seq<
    ModelView,
>
    decreases n,
{
    if n <= 0 || n > entries.len() {
        ms
    } else {
        let before = with_added(ms, entries, n - 1);
        let e = entries[n - 1];
        if has_model(before, e.0@) {
            before
        } else {
            before.push(added_model(e.0@, e.1))
        }
    }
}

/// The models of the catalog for a provider.
pub open spec fn catalog_models_of(catalog: Catalog, provider: Seq<char>) -> Seq<ModelView> {
    match provider_in(catalog, provider) {
        Some(p) => model_views(p.models@),
        None => Seq::empty(),
    }
}

/// Whether `ms` are the models offered for a provider: those of the catalog, then those that
/// the user added.
pub open spec fn are_offered(
    ms: Seq<ModelView>,
    provider: Seq<char>,
    catalog: Catalog,
    config: ShirlConfig,
) -> bool {
    if config.models@.contains_key(provider) {
        exists|entries: Seq<(String, ModelExtension)>|
            #[trigger] lists(entries, config.models@[provider]@) && ms == with_added(
                catalog_models_of(catalog, provider),
                entries,
                entries.len() as int,
            )
    } else {
        ms == catalog_models_of(catalog, provider)
    }
}

/// The models offered for a provider: those of the catalog, then those that the user added.
pub fn offered_models(provider_id: &str, catalog: &Catalog, config: &ShirlConfig) -> (r: Vec<
    CatalogModel,
>)
    ensures
        are_offered(model_views(r@), provider_id@, *catalog, *config),
{
    let mut models: Vec<CatalogModel> = Vec::new();
    assert(model_views(models@) =~= Seq::empty());
    match catalog.get_provider(provider_id) {
        Some(p) => {
            let ghost want = model_views(p.models@);
            let mut i: usize = 0;
            while i < p.models.len()
                invariant
                    i <= p.models@.len(),
                    want == model_views(p.models@),
                    model_views(models@) =~= want.take(i as int),
                decreases p.models@.len() - i,
            {
                let ghost m0 = model_views(models@);
                models.push(p.models[i].copied());
                assert(model_views(models@) =~= m0.push(want[i as int]));
                i += 1;
            }
            assert(model_views(models@) =~= want);
        },
        None => {},
    }
    let ghost base = model_views(models@);
    assert(base == catalog_models_of(*catalog, provider_id@));
    match config.models.get(provider_id) {
        Some(extensions) => {
            let entries = extensions.entries();
            let mut i: usize = 0;
            while i < entries.len()
                invariant
                    i <= entries@.len(),
                    model_views(models@) == with_added(base, entries@, i as int),
                decreases entries@.len() - i,
            {
                let e = &entries[i];
                let ghost m0 = model_views(models@);
                let mut known: bool = false;
                let mut k: usize = 0;
                while k < models.len()
                    invariant
                        k <= models@.len(),
                        m0 == model_views(models@),
                        known == exists|j: int| 0 <= j < k && (#[trigger] m0[j]).id == e.0@,
                    decreases models@.len() - k,
                {
                    assert(m0[k as int] == models@[k as int]@);
                    if same(models[k].id.as_str(), e.0.as_str()) {
                        known = true;
                    }
                    k += 1;
                }
                assert(known == has_model(m0, e.0@));
                if !known {
                    let name = match &e.1.display_name {
                        Some(n) => n.clone(),
                        None => e.0.clone(),
                    };
                    let m = CatalogModel {
                        id: e.0.clone(),
                        name,
                        context_window: e.1.context_window,
                        max_output_tokens: None,
                        reasoning: false,
                        vision: false,
                        reasoning_options: Vec::new(),
                    };
                    assert(m@.reasoning_options =~= Seq::empty());
                    models.push(m);
                    assert(model_views(models@) =~= m0.push(m@));
                }
                i += 1;
            }
        },
        None => {},
    }
    models
}

/// Fills the picker with the models offered for its providers.
pub fn populate_model_picker(
    state: &mut PickerState,
    catalog: &Catalog,
    config: &ShirlConfig,
    max_row_width: usize,
)
    requires
        max_row_width * 3 <= usize::MAX,
    ensures
        !final(state).loading,
        final(state).providers == old(state).providers,
        final(state).filter == old(state).filter,
        final(state).current == old(state).current,
        forall|p: Seq<char>|
            #![trigger final(state).entries_by_provider@.contains_key(p)]
            if texts(old(state).providers@).contains(p) {
                final(state).entries_by_provider@.contains_key(p) && are_offered(
                    model_views(final(state).entries_by_provider@[p]@),
                    p,
                    *catalog,
                    *config,
                )
            } else {
                final(state).entries_by_provider@.contains_key(p)
                    == old(state).entries_by_provider@.contains_key(p) && (old(state).entries_by_provider@.contains_key(p) ==> final(state).entries_by_provider@[p]
                    == old(state).entries_by_provider@[p])
            },
        is_rebuilt(
            (PickerState {
                entries_by_provider: final(state).entries_by_provider,
                loading: false,
                ..*old(state)
            }),
            *final(state),
            *catalog,
            *config,
            max_row_width as int,
        ),
{
    let mut i: usize = 0;
    let ghost before = *state;
    while i < state.providers.len()
        invariant
            i <= state.providers@.len(),
            before == *old(state),
            *state == (PickerState {
                entries_by_provider: state.entries_by_provider,
                ..before
            }),
            forall|k: int|
                0 <= k < i ==> state.entries_by_provider@.contains_key(
                    (#[trigger] before.providers@[k])@,
                ) && are_offered(
                    model_views(state.entries_by_provider@[before.providers@[k]@]@),
                    before.providers@[k]@,
                    *catalog,
                    *config,
                ),
            forall|p: Seq<char>|
                #![trigger state.entries_by_provider@.contains_key(p)]
                !texts(before.providers@).contains(p) ==> state.entries_by_provider@.contains_key(p)
                    == before.entries_by_provider@.contains_key(p) && (
                before.entries_by_provider@.contains_key(p) ==> state.entries_by_provider@[p]
                    == before.entries_by_provider@[p]),
        decreases state.providers@.len() - i,
    {
        let id = state.providers[i].clone();
        let models = offered_models(id.as_str(), catalog, config);
        assert(texts(before.providers@)[i as int] == id@);
        state.entries_by_provider.insert(id, models);
        i += 1;
    }
    state.loading = false;
    proof {
        assert forall|p: Seq<char>| texts(before.providers@).contains(p) implies (
        state.entries_by_provider@.contains_key(p) && are_offered(
            model_views(state.entries_by_provider@[p]@),
            p,
            *catalog,
            *config,
        )) by {
            let k = choose|k: int|
                0 <= k < texts(before.providers@).len() && texts(before.providers@)[k] == p;
            assert(before.providers@[k]@ == p);
        }
    }
    rebuild_displayed(state, catalog, config, max_row_width);
}

// ---------------------------------------------------------------------------
// What a picker shows
// ---------------------------------------------------------------------------
/// What a picker shows.
#[derive(Debug, PartialEq, Eq)]
pub struct PickerRenderState {
    pub title: String,
    pub sections: Vec<PickerSection>,
    pub selected_index: usize,
    pub filter: String,
    pub hint: String,
    pub item_label: String,
    pub input_prefix: String,
}

/// What the model picker shows before the models are there.
pub fn loading_picker_state() -> (r: PickerRenderState)
    ensures
        r.title@ == "Select model"@,
        r.sections@.len() == 0,
        r.selected_index == 0,
        r.filter@.len() == 0,
        r.hint@ == "Loading models..."@,
        r.item_label@ == "models"@,
        r.input_prefix@ == "search: "@,
{
    PickerRenderState {
        title: copy("Select model"),
        sections: Vec::new(),
        selected_index: 0,
        filter: String::new(),
        hint: copy("Loading models..."),
        item_label: copy("models"),
        input_prefix: copy("search: "),
    }
}

/// The line of help under the model picker.
pub open spec fn model_hint(loading: bool, shown: nat, filter: Seq<char>) -> Seq<char> {
    if loading {
        "Loading models..."@
    } else if shown == 0 {
        "No matches found. Esc to clear"@
    } else if filter.len() == 0 {
        "↑↓ navigate · Enter select · Esc exit"@
    } else {
        "↑↓ navigate · Enter select · Esc clear"@
    }
}

/// What the model picker shows.
pub fn model_picker_render(
    state: &PickerState,
    catalog: &Catalog,
    config: &ShirlConfig,
    max_row_width: usize,
) -> (r: PickerRenderState)
    requires
        max_row_width * 3 <= usize::MAX,
    ensures
        r.title@ == "Select model"@,
        section_views(r.sections@) == all_sections(
            *state,
            *catalog,
            *config,
            max_row_width as int,
        ),
        r.selected_index == state.selected_index,
        r.filter@ == state.filter@,
        r.hint@ == model_hint(state.loading, state.displayed@.len(), state.filter@),
        r.item_label@ == "models"@,
        r.input_prefix@ == "search: "@,
{
    let hint = if state.loading {
        copy("Loading models...")
    } else if state.displayed.len() == 0 {
        copy("No matches found. Esc to clear")
    } else if state.filter.as_str().is_empty() {
        copy("↑↓ navigate · Enter select · Esc exit")
    } else {
        copy("↑↓ navigate · Enter select · Esc clear")
    };
    PickerRenderState {
        title: copy("Select model"),
        sections: build_model_sections(state, catalog, config, max_row_width),
        selected_index: state.selected_index,
        filter: state.filter.clone(),
        hint,
        item_label: copy("models"),
        input_prefix: copy("search: "),
    }
}

/// What the provider picker shows, with the first row selected.
pub fn provider_picker_render(entries: Vec<PickerEntry>, filter: &str) -> (r: PickerRenderState)
    ensures
        r.title@ == "Select a provider"@,
        r.sections@.len() == 1,
        opt_text(r.sections@[0].header) == Some("Providers"@),
        r.sections@[0].entries == entries,
        r.selected_index == 0,
        r.filter@ == filter@,
        r.hint@ == (if filter@.len() == 0 {
            "↑↓ navigate · Enter select · Esc cancel"@
        } else {
            "↑↓ navigate · Enter select · Esc clear"@
        }),
        r.item_label@ == "providers"@,
        r.input_prefix@ == "search: "@,
{
    let hint = if filter.is_empty() {
        copy("↑↓ navigate · Enter select · Esc cancel")
    } else {
        copy("↑↓ navigate · Enter select · Esc clear")
    };
    let mut sections: Vec<PickerSection> = Vec::new();
    sections.push(PickerSection { header: Some(copy("Providers")), entries });
    PickerRenderState {
        title: copy("Select a provider"),
        sections,
        selected_index: 0,
        filter: copy(filter),
        hint,
        item_label: copy("providers"),
        input_prefix: copy("search: "),
    }
}

/// What the prompt for a key shows.
pub fn api_key_render(display: &str, current: &str) -> (r: PickerRenderState)
    ensures
        r.title@ == "Enter API key for "@ + display@,
        r.sections@.len() == 0,
        r.selected_index == 0,
        r.filter@ == current@,
        r.hint@ == "Enter to confirm · Esc to cancel"@,
        r.item_label@.len() == 0,
        r.input_prefix@ == "key: "@,
{
    let mut title = copy("Enter API key for ");
    title.append(display);
    PickerRenderState {
        title,
        sections: Vec::new(),
        selected_index: 0,
        filter: copy(current),
        hint: copy("Enter to confirm · Esc to cancel"),
        item_label: String::new(),
        input_prefix: copy("key: "),
    }
}

// ---------------------------------------------------------------------------
// The provider picker
// ---------------------------------------------------------------------------
/// The state of the provider picker.
pub struct ProviderPicker {
    pub entries: Vec<PickerEntry>,
    pub displayed: Vec<PickerEntry>,
    pub selected_index: usize,
    pub filter: String,
}

/// The rows that the filter lets through.
pub open spec fn fitting(entries: Seq<PickerEntry>, filter: Seq<char>) -> Seq<PickerEntry>
    decreases entries.len(),
{
    if entries.len() == 0 {
        Seq::empty()
    } else {
        let e = entries.last();
        let before = fitting(entries.drop_last(), filter);
        if fits(e.id@, filter) || fits(e.display@, filter) {
            before.push(e)
        } else {
            before
        }
    }
}

fn fitting_entries(entries: &Vec<PickerEntry>, filter: &str) -> (r: Vec<PickerEntry>)
    ensures
        r@ == fitting(entries@, filter@),
{
    let mut r: Vec<PickerEntry> = Vec::new();
    let mut i: usize = 0;
    assert(entries@.take(0) =~= Seq::empty());
    while i < entries.len()
        invariant
            i <= entries@.len(),
            r@ == fitting(entries@.take(i as int), filter@),
        decreases entries@.len() - i,
    {
        let e = &entries[i];
        proof {
            let t = entries@.take(i + 1);
            assert(t.drop_last() =~= entries@.take(i as int));
            assert(t.last() == *e);
        }
        if fuzzy_match(e.id.as_str(), filter) || fuzzy_match(e.display.as_str(), filter) {
            r.push(e.copied());
        }
        i += 1;
    }
    assert(entries@.take(i as int) =~= entries@);
    r
}

impl ProviderPicker {
    /// The picker when it opens: all providers, the first one selected.
    pub fn new(
        catalog: &Catalog,
        config: &ShirlConfig,
        auth: &AuthStore,
        max_row_width: usize,
    ) -> (r: ProviderPicker)
        ensures
            entry_views(r.entries@) == provider_rows(
                *catalog,
                *config,
                *auth,
                max_row_width as int,
            ),
            r.displayed@ == r.entries@,
            r.selected_index == 0,
            r.filter@.len() == 0,
    {
        let entries = build_provider_entries(catalog, config, auth, max_row_width);
        let mut displayed: Vec<PickerEntry> = Vec::new();
        let mut i: usize = 0;
        while i < entries.len()
            invariant
                i <= entries@.len(),
                displayed@ =~= entries@.take(i as int),
            decreases entries@.len() - i,
        {
            displayed.push(entries[i].copied());
            i += 1;
        }
        assert(displayed@ =~= entries@);
        ProviderPicker { entries, displayed, selected_index: 0, filter: String::new() }
    }

    /// What a command comes to; without one, no more will come.
    pub fn step(
        &mut self,
        command: Option<Command>,
        catalog: &Catalog,
        config: &ShirlConfig,
        auth: &AuthStore,
        max_row_width: usize,
    ) -> (r: PickerStep<String>)
        ensures
            match command {
                Some(Command::Submit(_)) => *final(self) == *old(self) && if old(self).selected_index < old(self).displayed@.len() {
                    r == PickerStep::Done(
                        Some(old(self).displayed@[old(self).selected_index as int].id),
                    )
                } else {
                    r is Ignore
                },
                Some(Command::Partial(text)) => {
                    &&& r is Redraw
                    &&& final(self).filter@ == lowercase_of(text@)
                    &&& final(self).entries == old(self).entries
                    &&& final(self).displayed@ == fitting(old(self).entries@, lowercase_of(text@))
                    &&& final(self).selected_index == 0
                },
                Some(Command::SelectMove(delta)) => {
                    &&& r is Redraw
                    &&& *final(self) == (ProviderPicker {
                        selected_index: final(self).selected_index,
                        ..*old(self)
                    })
                    &&& final(self).selected_index == moved(
                        old(self).selected_index as int,
                        delta as int,
                        less_or_zero(old(self).displayed@.len() as int, 1),
                    )
                },
                Some(Command::Resize) => {
                    &&& r is Redraw
                    &&& final(self).filter == old(self).filter
                    &&& entry_views(final(self).entries@) == provider_rows(
                        *catalog,
                        *config,
                        *auth,
                        max_row_width as int,
                    )
                    &&& final(self).displayed@ == fitting(final(self).entries@, old(self).filter@)
                    &&& final(self).selected_index == if old(self).selected_index >= final(self).displayed@.len() {
                        less_or_zero(final(self).displayed@.len() as int, 1)
                    } else {
                        old(self).selected_index as int
                    }
                },
                Some(Command::Cancel) => *final(self) == *old(self) && r == PickerStep::<
                    String,
                >::Done(None),
                Some(Command::Exit) => *final(self) == *old(self) && r == PickerStep::<
                    String,
                >::Done(None),
                Some(_) => *final(self) == *old(self) && r is Ignore,
                None => *final(self) == *old(self) && r is Closed,
            },
    {
        match command {
            Some(Command::Submit(_)) => if self.selected_index < self.displayed.len() {
                PickerStep::Done(Some(self.displayed[self.selected_index].id.clone()))
            } else {
                PickerStep::Ignore
            },
            Some(Command::Partial(text)) => {
                self.filter = to_lowercase(text.as_str());
                self.displayed = fitting_entries(&self.entries, self.filter.as_str());
                self.selected_index = 0;
                PickerStep::Redraw
            },
            Some(Command::SelectMove(delta)) => {
                let max: usize = if self.displayed.len() > 0 {
                    self.displayed.len() - 1
                } else {
                    0
                };
                self.selected_index = move_within(self.selected_index, delta, max);
                PickerStep::Redraw
            },
            Some(Command::Resize) => {
                self.entries = build_provider_entries(catalog, config, auth, max_row_width);
                self.displayed = fitting_entries(&self.entries, self.filter.as_str());
                if self.selected_index >= self.displayed.len() {
                    self.selected_index = if self.displayed.len() > 0 {
                        self.displayed.len() - 1
                    } else {
                        0
                    };
                }
                PickerStep::Redraw
            },
            Some(Command::Cancel) => PickerStep::Done(None),
            Some(Command::Exit) => PickerStep::Done(None),
            Some(_) => PickerStep::Ignore,
            None => PickerStep::Closed,
        }
    }

    /// What the picker shows.
    pub fn render(&self) -> (r: PickerRenderState)
        ensures
            r.title@ == "Select a provider"@,
            r.sections@.len() == 1,
            opt_text(r.sections@[0].header) == Some("Providers"@),
            r.sections@[0].entries@ == self.displayed@,
            r.selected_index == self.selected_index,
            r.filter@ == self.filter@,
            r.hint@ == (if self.filter@.len() == 0 {
                "↑↓ navigate · Enter select · Esc cancel"@
            } else {
                "↑↓ navigate · Enter select · Esc clear"@
            }),
            r.item_label@ == "providers"@,
            r.input_prefix@ == "search: "@,
    {
        let mut shown: Vec<PickerEntry> = Vec::new();
        let mut i: usize = 0;
        while i < self.displayed.len()
            invariant
                i <= self.displayed@.len(),
                shown@ =~= self.displayed@.take(i as int),
            decreases self.displayed@.len() - i,
        {
            shown.push(self.displayed[i].copied());
            i += 1;
        }
        assert(shown@ =~= self.displayed@);
        let mut r = provider_picker_render(shown, self.filter.as_str());
        r.selected_index = self.selected_index;
        r
    }
}

// ---------------------------------------------------------------------------
// The prompt for a key
// ---------------------------------------------------------------------------
/// The state of the prompt for the key of a provider that is shown as `display`.
pub struct ApiKeyPrompt {
    pub display: String,
    pub filter: String,
}

/// What a command comes to in the prompt for a key.
pub enum KeyStep {
    Ignore,
    /// The prompt is to be drawn anew.
    Redraw,
    /// Nothing was entered: the prompt is to be drawn anew and say so.
    Empty,
    Done(Option<String>),
    Closed,
}

impl ApiKeyPrompt {
    pub fn new(provider_id: &str, catalog: &Catalog, config: &ShirlConfig) -> (r: ApiKeyPrompt)
        ensures
            r.display@ == display_name(provider_id@, *catalog, *config),
            r.filter@.len() == 0,
    {
        ApiKeyPrompt {
            display: provider_display_name(provider_id, catalog, config),
            filter: String::new(),
        }
    }

    /// What a command comes to; without one, no more will come. A key is what was entered,
    /// trimmed, and is never empty.
    pub fn step(&mut self, command: Option<Command>) -> (r: KeyStep)
        ensures
            final(self).display == old(self).display,
            match command {
                Some(Command::Submit(_)) => if is_blank(old(self).filter@) {
                    r is Empty && final(self).filter@.len() == 0
                } else {
                    *final(self) == *old(self) && (r matches KeyStep::Done(Some(k)) && k@ == trim(
                        old(self).filter@,
                    ))
                },
                Some(Command::Partial(text)) => r is Redraw && final(self).filter == text,
                Some(Command::Cancel) => *final(self) == *old(self) && r == KeyStep::Done(None),
                Some(Command::Exit) => *final(self) == *old(self) && r == KeyStep::Done(None),
                Some(_) => *final(self) == *old(self) && r is Ignore,
                None => *final(self) == *old(self) && r is Closed,
            },
    {
        match command {
            Some(Command::Submit(_)) => {
                let key = trimmed(self.filter.as_str());
                if key.as_str().is_empty() {
                    self.filter = String::new();
                    KeyStep::Empty
                } else {
                    KeyStep::Done(Some(key))
                }
            },
            Some(Command::Partial(text)) => {
                self.filter = text;
                KeyStep::Redraw
            },
            Some(Command::Cancel) => KeyStep::Done(None),
            Some(Command::Exit) => KeyStep::Done(None),
            Some(_) => KeyStep::Ignore,
            None => KeyStep::Closed,
        }
    }

    /// What the prompt shows; `empty` says that nothing was entered.
    pub fn render(&self, empty: bool) -> (r: PickerRenderState)
        ensures
            r.title@ == (if empty {
                "Enter API key for "@ + (self.display@ + " (cannot be empty)"@)
            } else {
                "Enter API key for "@ + self.display@
            }),
            r.filter@ == (if empty {
                ""@
            } else {
                self.filter@
            }),
            r.sections@.len() == 0,
            r.selected_index == 0,
            r.hint@ == "Enter to confirm · Esc to cancel"@,
            r.item_label@.len() == 0,
            r.input_prefix@ == "key: "@,
    {
        if empty {
            let mut display = self.display.clone();
            display.append(" (cannot be empty)");
            api_key_render(display.as_str(), "")
        } else {
            api_key_render(self.display.as_str(), self.filter.as_str())
        }
    }
}

/// Keeps the key of a provider.
pub fn save_provider_key(auth: &mut AuthStore, provider_id: &str, api_key: &str)
    ensures
        has_put(old(auth).llm@, final(auth).llm@, provider_id@, api_key@),
        final(auth).web_search == old(auth).web_search,
        final(auth).mcp == old(auth).mcp,
{
    auth.set(provider_id, api_key);
}

// ---------------------------------------------------------------------------
// Setting up
// ---------------------------------------------------------------------------
/// What a first setup asks for next.
#[derive(Debug, PartialEq, Eq)]
pub enum SetupStage {
    /// A provider is to be picked.
    Provider,
    /// The key of this provider is to be entered.
    Key(String),
    /// The key of this provider is to be kept; then a model is to be picked.
    Connect { provider: String, key: String },
    /// A model is to be picked.
    Model,
    /// The setup is done with this provider and model.
    Chosen { provider: String, model: String },
    /// The setup was given up.
    Cancelled,
}

/// The start: a provider, unless one is connected.
pub fn setup_start(any_connected: bool) -> (r: SetupStage)
    ensures
        r == (if any_connected {
            SetupStage::Model
        } else {
            SetupStage::Provider
        }),
{
    if any_connected {
        SetupStage::Model
    } else {
        SetupStage::Provider
    }
}

/// After a provider was picked or not: its key, or the setup is given up.
pub fn setup_after_provider(picked: Option<String>) -> (r: SetupStage)
    ensures
        r == (match picked {
            Some(id) => SetupStage::Key(id),
            None => SetupStage::Cancelled,
        }),
{
    match picked {
        Some(id) => SetupStage::Key(id),
        None => SetupStage::Cancelled,
    }
}

/// After a key was entered or not: the provider is connected, or another one is to be picked.
pub fn setup_after_key(provider: String, key: Option<String>) -> (r: SetupStage)
    ensures
        r == (match key {
            Some(key) => SetupStage::Connect { provider, key },
            None => SetupStage::Provider,
        }),
{
    match key {
        Some(key) => SetupStage::Connect { provider, key },
        None => SetupStage::Provider,
    }
}

/// After a model was picked or not: the setup is done or given up.
pub fn setup_after_model(picked: Option<(String, String)>) -> (r: SetupStage)
    ensures
        r == (match picked {
            Some(p) => SetupStage::Chosen { provider: p.0, model: p.1 },
            None => SetupStage::Cancelled,
        }),
{
    match picked {
        Some((provider, model)) => SetupStage::Chosen { provider, model },
        None => SetupStage::Cancelled,
    }
}

/// What the user is told of a provider that was connected.
pub fn connected_line(display: &str, provider_id: &str) -> (r: String)
    ensures
        r@ == "Connected: "@ + display@ + " ("@ + provider_id@ + ")"@,
{
    let mut r = copy("Connected: ");
    r.append(display);
    r.append(" (");
    r.append(provider_id);
    r.append(")");
    r
}

/// The ids of the providers of the catalog that are connected, in order.
pub open spec fn connected_of(ps: Seq<CatalogProvider>, auth: AuthStore) -> Seq<Seq<char>>
    decreases ps.len(),
{
    if ps.len() == 0 {
        Seq::empty()
    } else if auth.llm@.contains_key(ps.last().id@) {
        connected_of(ps.drop_last(), auth).push(ps.last().id@)
    } else {
        connected_of(ps.drop_last(), auth)
    }
}

/// The ids of the providers of the catalog that are connected, in order.
pub fn connected_providers(catalog: &Catalog, auth: &AuthStore) -> (r: Vec<String>)
    ensures
        texts(r@) == connected_of(catalog.providers@, *auth),
{
    let mut r: Vec<String> = Vec::new();
    let mut i: usize = 0;
    assert(catalog.providers@.take(0) =~= Seq::empty());
    assert(texts(r@) =~= Seq::empty());
    while i < catalog.providers.len()
        invariant
            i <= catalog.providers@.len(),
            texts(r@) == connected_of(catalog.providers@.take(i as int), *auth),
        decreases catalog.providers@.len() - i,
    {
        let p = &catalog.providers[i];
        let ghost r0 = texts(r@);
        proof {
            let t = catalog.providers@.take(i + 1);
            assert(t.drop_last() =~= catalog.providers@.take(i as int));
            assert(t.last() == *p);
        }
        if auth.contains(p.id.as_str()) {
            r.push(p.id.clone());
            assert(texts(r@) =~= r0.push(p.id@));
        }
        i += 1;
    }
    assert(catalog.providers@.take(i as int) =~= catalog.providers@);
    r
}

proof fn lemma_places(hay: Seq<char>, i: int, needle: Seq<char>, j: int) -> (at: Seq<int>)
    requires
        0 <= i,
        0 <= j <= needle.len(),
        occurs_from(hay, i, needle, j),
    ensures
        at.len() == needle.len() - j,
        forall|k: int|
            0 <= k < at.len() ==> i <= (#[trigger] at[k]) < hay.len() && hay[at[k]] == needle[j + k],
        forall|k: int, l: int| 0 <= k < l < at.len() ==> (#[trigger] at[k]) < (#[trigger] at[l]),
    decreases hay.len() - i,
{
    if j == needle.len() {
        Seq::empty()
    } else if hay[i] == needle[j] {
        let rest = lemma_places(hay, i + 1, needle, j + 1);
        let at = seq![i] + rest;
        assert forall|k: int| 0 <= k < at.len() implies i <= (#[trigger] at[k]) < hay.len()
            && hay[at[k]] == needle[j + k] by {
            if k > 0 {
                assert(at[k] == rest[k - 1]);
                assert(hay[rest[k - 1]] == needle[j + 1 + (k - 1)]);
            }
        }
        assert forall|k: int, l: int| 0 <= k < l < at.len() implies (#[trigger] at[k]) < (
        #[trigger] at[l]) by {
            assert(at[l] == rest[l - 1]);
            if k > 0 {
                assert(at[k] == rest[k - 1]);
            }
        }
        at
    } else {
        lemma_places(hay, i + 1, needle, j)
    }
}

/// What occurs in order can be found at growing places: nothing else does.
pub proof fn occurrence_means_found_places(hay: Seq<char>, needle: Seq<char>) -> (at: Seq<int>)
    requires
        occurs_in_order(hay, needle),
    ensures
        at.len() == needle.len(),
        forall|k: int|
            0 <= k < at.len() ==> 0 <= (#[trigger] at[k]) < hay.len() && hay[at[k]] == needle[k],
        forall|k: int, l: int| 0 <= k < l < at.len() ==> (#[trigger] at[k]) < (#[trigger] at[l]),
{
    lemma_places(hay, 0, needle, 0)
}

/// Every part of a text occurs in it, and so does the text itself; letter case does not count
/// where a picker looks for a text.
pub proof fn parts_occur(hay: Seq<char>, a: int, b: int, needle: Seq<char>)
    requires
        0 <= a <= b <= hay.len(),
    ensures
        occurs_in_order(hay, hay.subrange(a, b)),
        lowercase_of(needle) == lowercase_of(hay) ==> fits(hay, needle),
        lowercase_of(needle).len() == 0 ==> fits(hay, needle),
        0 <= a <= b <= lowercase_of(hay).len() && lowercase_of(needle) == lowercase_of(
            hay,
        ).subrange(a, b) ==> fits(hay, needle),
{
    lemma_part_occurs(hay, a, b);
    let low = lowercase_of(hay);
    lemma_part_occurs(low, 0, low.len() as int);
    assert(low.subrange(0, low.len() as int) =~= low);
    if b <= low.len() {
        lemma_part_occurs(low, a, b);
    }
}

proof fn lemma_part_occurs(hay: Seq<char>, a: int, b: int)
    requires
        0 <= a <= b <= hay.len(),
    ensures
        occurs_in_order(hay, hay.subrange(a, b)),
{
    let at = Seq::new((b - a) as nat, |k: int| a + k);
    found_places_mean_occurrence(hay, hay.subrange(a, b), at);
}

/// A text that is cut keeps its start and is marked as cut.
pub proof fn cut_texts_keep_their_beginning(s: Seq<char>, max: int)
    requires
        0 < max < s.len(),
    ensures
        cut(s, max).len() == max,
        cut(s, max).last() == '…',
        forall|k: int| 0 <= k < max - 1 ==> #[trigger] cut(s, max)[k] == s[k],
{
}

/// A padded text is the text and then spaces, up to the width.
pub proof fn padding_adds_spaces(s: Seq<char>, width: int)
    ensures
        starts_with(padded(s, width), s),
        padded(s, width).len() >= width,
        s.len() >= width ==> padded(s, width) == s,
        s.len() < width ==> padded(s, width).len() == width,
        forall|k: int| s.len() <= k < padded(s, width).len() ==> #[trigger] padded(s, width)[k] == ' ',
{
    assert(padded(s, width).take(s.len() as int) =~= s);
}

/// A provider is shown under the name that the user gave it, and else under that of the catalog;
/// without either it goes by its id.
pub proof fn providers_are_shown_by_name(id: Seq<char>, catalog: Catalog, config: ShirlConfig)
    ensures
        config.providers@.contains_key(id) ==> (config.providers@[id].display_name matches Some(n)
            ==> display_name(id, catalog, config) == n@),
        config.providers@.contains_key(id) && config.providers@[id].display_name is None
            ==> display_name(id, catalog, config) == id,
        !config.providers@.contains_key(id) ==> (provider_in(catalog, id) matches Some(p)
            ==> display_name(id, catalog, config) == p.name@),
        !config.providers@.contains_key(id) && provider_in(catalog, id) is None ==> display_name(
            id,
            catalog,
            config,
        ) == id,
{
}

/// The row of a model stands for that model: what is picked with it is its provider and its id,
/// it is marked exactly where it is in use, and it shows the id, as far as ten characters, at its
/// start.
pub proof fn rows_stand_for_their_model(
    provider: Seq<char>,
    m: ModelView,
    current: Seq<char>,
    width: int,
)
    requires
        forall|i: int| 0 <= i < provider.len() ==> #[trigger] provider[i] != '/',
    ensures
        split_once(model_row(provider, m, current, width).id, "/"@) == Some((provider, m.id)),
        model_row(provider, m, current, width).is_current == (current == provider + "/"@ + m.id),
        m.id.len() <= 10 ==> starts_with(model_row(provider, m, current, width).display, m.id),
{
    lemma_named_by_provider(provider, m.id);
    let r = model_row(provider, m, current, width);
    if m.id.len() <= 10 {
        assert(r.display.take(m.id.len() as int) =~= m.id);
    }
}

/// A row says of a context window how many thousands of tokens it holds, and nothing where it is
/// not known.
pub proof fn windows_are_told_in_thousands(n: usize)
    ensures
        n > 0 ==> window_text(Some(n)) == "  "@ + decimal((n / 1000) as nat) + "k"@,
        window_text(None).len() == 0,
        window_text(Some(0)).len() == 0,
{
}

/// The filter lets a model through whose id or whose name it fits, and no other; one that is empty
/// lets every model through.
pub proof fn filters_look_at_ids_and_names(m: ModelView, filter: Seq<char>)
    ensures
        fits(m.id, lowercase_of(filter)) ==> passes(m, filter),
        fits(m.name, lowercase_of(filter)) ==> passes(m, filter),
        lowercase_of(filter).len() == 0 ==> passes(m, filter),
        passes(m, filter) ==> lowercase_of(filter).len() == 0 || fits(m.id, lowercase_of(filter))
            || fits(m.name, lowercase_of(filter)),
{
}

/// Each model that the filter lets through has its row, in the order of the models: one more
/// model is one more row at the end.
pub proof fn each_model_has_its_row(
    provider: Seq<char>,
    ms: Seq<ModelView>,
    m: ModelView,
    filter: Seq<char>,
    current: Seq<char>,
    width: int,
)
    ensures
        model_rows(provider, ms.push(m), filter, current, width) == if passes(m, filter) {
            model_rows(provider, ms, filter, current, width).push(
                model_row(provider, m, current, width),
            )
        } else {
            model_rows(provider, ms, filter, current, width)
        },
        model_rows(provider, Seq::empty(), filter, current, width).len() == 0,
{
    assert(ms.push(m).drop_last() =~= ms);
}

/// Each provider with rows has its section, in the order of the providers, with all its rows under
/// its name; the rows that are shown are those of the sections, one after the other.
pub proof fn each_provider_has_its_section(
    s: PickerState,
    catalog: Catalog,
    config: ShirlConfig,
    width: int,
    n: int,
    sections: Seq<SectionView>,
    section: SectionView,
)
    requires
        0 <= n < s.providers@.len(),
    ensures
        rows_of(s, s.providers@[n]@, width).len() > 0 ==> model_sections(
            s,
            catalog,
            config,
            width,
            n + 1,
        ) == model_sections(s, catalog, config, width, n).push(
            SectionView {
                header: Some(display_name(s.providers@[n]@, catalog, config)),
                entries: rows_of(s, s.providers@[n]@, width),
            },
        ),
        rows_of(s, s.providers@[n]@, width).len() == 0 ==> model_sections(
            s,
            catalog,
            config,
            width,
            n + 1,
        ) == model_sections(s, catalog, config, width, n),
        model_sections(s, catalog, config, width, 0).len() == 0,
        flat(sections.push(section)) == flat(sections) + section.entries,
        flat(Seq::empty()).len() == 0,
{
    assert(sections.push(section).drop_last() =~= sections);
}

proof fn lemma_with_added(ms: Seq<ModelView>, entries: Seq<(String, ModelExtension)>, n: int)
    requires
        0 <= n <= entries.len(),
    ensures
        with_added(ms, entries, n).len() >= ms.len(),
        with_added(ms, entries, n).take(ms.len() as int) == ms,
        forall|k: int| 0 <= k < n ==> has_model(with_added(ms, entries, n), (#[trigger] entries[k]).0@),
    decreases n,
{
    let r = with_added(ms, entries, n);
    if n == 0 {
        assert(ms.take(ms.len() as int) =~= ms);
    } else {
        lemma_with_added(ms, entries, n - 1);
        let before = with_added(ms, entries, n - 1);
        assert(r.take(ms.len() as int) =~= before.take(ms.len() as int));
        assert forall|k: int| 0 <= k < n implies has_model(r, (#[trigger] entries[k]).0@) by {
            if k < n - 1 {
                assert(has_model(before, entries[k].0@));
                let i = choose|i: int|
                    0 <= i < before.len() && (#[trigger] before[i]).id == entries[k].0@;
                assert(r[i].id == entries[k].0@);
            } else if !has_model(before, entries[k].0@) {
                assert(r[r.len() - 1].id == entries[k].0@);
            }
        }
    }
}

/// Every model of the catalog is offered, first and in the catalog's order, and every model that
/// the user added.
pub proof fn catalog_and_added_models_are_offered(
    ms: Seq<ModelView>,
    provider: Seq<char>,
    catalog: Catalog,
    config: ShirlConfig,
    id: Seq<char>,
)
    requires
        are_offered(ms, provider, catalog, config),
    ensures
        provider_in(catalog, provider) matches Some(p) ==> ms.len() >= p.models@.len() && ms.take(
            p.models@.len() as int,
        ) == model_views(p.models@),
        config.models@.contains_key(provider) && config.models@[provider]@.contains_key(id)
            ==> has_model(ms, id),
{
    let own = catalog_models_of(catalog, provider);
    if config.models@.contains_key(provider) {
        let m = config.models@[provider]@;
        let entries = choose|entries: Seq<(String, ModelExtension)>|
            #[trigger] lists(entries, m) && ms == with_added(own, entries, entries.len() as int);
        lemma_with_added(own, entries, entries.len() as int);
        if m.contains_key(id) {
            every_key_is_listed(entries, m, id);
            let i = choose|i: int| 0 <= i < entries.len() && (#[trigger] entries[i]).0@ == id;
            assert(has_model(ms, entries[i].0@));
        }
    } else {
        assert(ms.take(ms.len() as int) =~= ms);
    }
}

/// The provider picker shows the rows that the filter fits by id or by name, in their order.
pub proof fn fitting_rows_are_shown(entries: Seq<PickerEntry>, e: PickerEntry, filter: Seq<char>)
    ensures
        fits(e.id@, filter) || fits(e.display@, filter) ==> fitting(entries.push(e), filter)
            == fitting(entries, filter).push(e),
        !fits(e.id@, filter) && !fits(e.display@, filter) ==> fitting(entries.push(e), filter)
            == fitting(entries, filter),
        fitting(Seq::empty(), filter).len() == 0,
{
    assert(entries.push(e).drop_last() =~= entries);
}

/// Every provider of the catalog has its row, which stands for it and says whether it is
/// connected.
pub proof fn every_provider_has_its_row(
    catalog: Catalog,
    config: ShirlConfig,
    auth: AuthStore,
    width: int,
    i: int,
)
    requires
        0 <= i < catalog.providers@.len(),
    ensures
        provider_rows(catalog, config, auth, width).len() == catalog.providers@.len(),
        provider_rows(catalog, config, auth, width)[i].id == catalog.providers@[i].id@,
        provider_rows(catalog, config, auth, width)[i].is_current == auth.llm@.contains_key(
            catalog.providers@[i].id@,
        ),
        catalog.providers@[i].id@.len() <= 10 ==> starts_with(
            provider_rows(catalog, config, auth, width)[i].display,
            catalog.providers@[i].id@,
        ),
{
    let p = catalog.providers@[i];
    let r = provider_row(p, catalog, config, auth, width);
    if p.id@.len() <= 10 {
        assert(r.display.take(p.id@.len() as int) =~= p.id@);
    }
}

/// The providers that models are picked from are those of the catalog that are connected.
pub proof fn connected_providers_are_those_with_keys(
    ps: Seq<CatalogProvider>,
    p: CatalogProvider,
    auth: AuthStore,
)
    ensures
        connected_of(ps.push(p), auth) == if auth.llm@.contains_key(p.id@) {
            connected_of(ps, auth).push(p.id@)
        } else {
            connected_of(ps, auth)
        },
        connected_of(Seq::empty(), auth).len() == 0,
{
    assert(ps.push(p).drop_last() =~= ps);
}

/// A setup goes from a provider to its key, to a model, and ends with the provider and the model
/// that were picked; a provider that is connected already needs no key, and without a key another
/// provider is picked.
pub proof fn setups_end_with_what_was_picked(
    any_connected: bool,
    start: SetupStage,
    provider: String,
    after_provider: SetupStage,
    key: String,
    after_key: SetupStage,
    no_key: SetupStage,
    model: (String, String),
    after_model: SetupStage,
)
    requires
        call_ensures(setup_start, (any_connected,), start),
        call_ensures(setup_after_provider, (Some(provider),), after_provider),
        call_ensures(setup_after_key, (provider, Some(key)), after_key),
        call_ensures(setup_after_key, (provider, None::<String>), no_key),
        call_ensures(setup_after_model, (Some(model),), after_model),
    ensures
        any_connected ==> start is Model,
        !any_connected ==> start is Provider,
        after_provider == SetupStage::Key(provider),
        after_key == (SetupStage::Connect { provider, key }),
        no_key is Provider,
        after_model == (SetupStage::Chosen { provider: model.0, model: model.1 }),
{
}

/// A text is found in another but for letter case: the text itself always is.
pub proof fn texts_match_themselves(haystack: &str, r: bool)
    requires
        call_ensures(fuzzy_match, (haystack, haystack), r),
    ensures
        r,
{
    parts_occur(haystack@, 0, 0, haystack@);
}

/// In the model picker, entering picks the provider and the model of the selected row, typing
/// filters from the top, and leaving picks nothing.
pub proof fn selected_models_are_picked(
    entered: &mut PickerState,
    typed: &mut PickerState,
    left: &mut PickerState,
    catalog: Catalog,
    config: ShirlConfig,
    width: usize,
    line: String,
    text: String,
    on_enter: PickerStep<(String, String)>,
    on_type: PickerStep<(String, String)>,
    on_leave: PickerStep<(String, String)>,
    provider: Seq<char>,
    model: Seq<char>,
)
    requires
        call_ensures(
            PickerState::step,
            (entered, Some(Command::Submit(line)), &catalog, &config, width),
            on_enter,
        ),
        call_ensures(
            PickerState::step,
            (typed, Some(Command::Partial(text)), &catalog, &config, width),
            on_type,
        ),
        call_ensures(
            PickerState::step,
            (left, Some(Command::Cancel), &catalog, &config, width),
            on_leave,
        ),
        forall|i: int| 0 <= i < provider.len() ==> #[trigger] provider[i] != '/',
    ensures
        ({
            let at = old(entered).selected_index as int;
            let rows = old(entered).displayed@;
            at < rows.len() && rows[at].id@ == provider + "/"@ + model
        }) ==> (on_enter matches PickerStep::Done(Some(p)) && p.0@ == provider && p.1@ == model),
        old(entered).displayed@.len() == 0 ==> on_enter is Ignore,
        final(typed).filter == text,
        final(typed).selected_index == 0,
        entry_views(final(typed).displayed@) == flat(
            all_sections(
                (PickerState { filter: text, selected_index: 0, ..*old(typed) }),
                catalog,
                config,
                width as int,
            ),
        ),
        on_leave == PickerStep::<(String, String)>::Done(None),
{
    lemma_named_by_provider(provider, model);
}

/// In the provider picker, entering picks the provider of the selected row, and typing shows what
/// fits what was typed.
pub proof fn selected_providers_are_picked(
    entered: &mut ProviderPicker,
    typed: &mut ProviderPicker,
    catalog: Catalog,
    config: ShirlConfig,
    auth: AuthStore,
    width: usize,
    line: String,
    text: String,
    on_enter: PickerStep<String>,
    on_type: PickerStep<String>,
)
    requires
        call_ensures(
            ProviderPicker::step,
            (entered, Some(Command::Submit(line)), &catalog, &config, &auth, width),
            on_enter,
        ),
        call_ensures(
            ProviderPicker::step,
            (typed, Some(Command::Partial(text)), &catalog, &config, &auth, width),
            on_type,
        ),
    ensures
        old(entered).selected_index < old(entered).displayed@.len() ==> on_enter == PickerStep::Done(
            Some(old(entered).displayed@[old(entered).selected_index as int].id),
        ),
        final(typed).displayed@ == fitting(old(typed).entries@, lowercase_of(text@)),
        final(typed).entries == old(typed).entries,
        final(typed).selected_index == 0,
{
}

/// The key that is entered is what was typed, without the white space around it; nothing but white
/// space is no key.
pub proof fn entered_keys_are_kept(
    prompt: &mut ApiKeyPrompt,
    line: String,
    r: KeyStep,
)
    requires
        call_ensures(ApiKeyPrompt::step, (prompt, Some(Command::Submit(line))), r),
    ensures
        !is_blank(old(prompt).filter@) ==> (r matches KeyStep::Done(Some(k)) && k@ == trim(
            old(prompt).filter@,
        ) && k@.len() > 0),
        is_blank(old(prompt).filter@) ==> r is Empty,
{
}

/// The model picker offers the models of each provider that it is for, and shows them.
pub proof fn pickers_offer_their_providers(
    state: &mut PickerState,
    catalog: Catalog,
    config: ShirlConfig,
    width: usize,
    i: int,
)
    requires
        call_ensures(populate_model_picker, (state, &catalog, &config, width), ()),
        0 <= i < old(state).providers@.len(),
    ensures
        final(state).entries_by_provider@.contains_key(old(state).providers@[i]@),
        are_offered(
            model_views(final(state).entries_by_provider@[old(state).providers@[i]@]@),
            old(state).providers@[i]@,
            catalog,
            config,
        ),
        !final(state).loading,
        entry_views(final(state).displayed@) == flat(
            all_sections(*final(state), catalog, config, width as int),
        ),
{
    let p = old(state).providers@[i]@;
    assert(texts(old(state).providers@)[i] == p);
    assert(final(state).entries_by_provider@.contains_key(p));
    let before = PickerState {
        entries_by_provider: final(state).entries_by_provider,
        loading: false,
        ..*old(state)
    };
    let n = old(state).providers@.len() as int;
    lemma_same_sections(before, *final(state), catalog, config, width as int, n);
}

proof fn lemma_same_sections(
    a: PickerState,
    b: PickerState,
    catalog: Catalog,
    config: ShirlConfig,
    width: int,
    n: int,
)
    requires
        a.entries_by_provider == b.entries_by_provider,
        a.providers == b.providers,
        a.filter == b.filter,
        a.current == b.current,
    ensures
        model_sections(a, catalog, config, width, n) == model_sections(b, catalog, config, width, n),
    decreases n,
{
    if 0 < n <= a.providers@.len() {
        lemma_same_sections(a, b, catalog, config, width, n - 1);
    }
}

/// Moving the selection moves it and nothing else.
pub proof fn moving_moves_the_selection_only(state: &mut PickerState, delta: i32)
    requires
        call_ensures(PickerState::move_selection, (state, delta), ()),
    ensures
        final(state).displayed == old(state).displayed,
        final(state).filter == old(state).filter,
        0 <= old(state).selected_index + delta < old(state).displayed@.len()
            ==> final(state).selected_index == old(state).selected_index + delta,
        old(state).displayed@.len() > 0 ==> final(state).selected_index
            < old(state).displayed@.len(),
{
}

/// What a picker shows is what it holds: the rows that are left by the filter, the filter and the
/// selection.
pub proof fn pickers_show_what_they_hold(
    p: ProviderPicker,
    shown: PickerRenderState,
    state: PickerState,
    catalog: Catalog,
    config: ShirlConfig,
    width: usize,
    models: PickerRenderState,
    prompt: ApiKeyPrompt,
    empty: bool,
    key: PickerRenderState,
    row: Option<&PickerEntry>,
)
    requires
        call_ensures(ProviderPicker::render, (&p,), shown),
        call_ensures(model_picker_render, (&state, &catalog, &config, width), models),
        call_ensures(ApiKeyPrompt::render, (&prompt, empty), key),
        call_ensures(PickerState::selected_entry, (&state,), row),
    ensures
        shown.sections@.len() == 1 && shown.sections@[0].entries@ == p.displayed@,
        shown.selected_index == p.selected_index && shown.filter@ == p.filter@,
        section_views(models.sections@) == all_sections(state, catalog, config, width as int),
        models.selected_index == state.selected_index && models.filter@ == state.filter@,
        starts_with(key.title@, "Enter API key for "@ + prompt.display@),
        !empty ==> key.filter@ == prompt.filter@,
        state.selected_index < state.displayed@.len() ==> (row matches Some(e) && *e
            == state.displayed@[state.selected_index as int]),
{
    let head = "Enter API key for "@ + prompt.display@;
    assert(key.title@.take(head.len() as int) =~= head);
}

/// A model that the user added is shown under the name that the user gave it, with the context
/// window that the user said.
pub proof fn added_models_are_as_the_user_says(id: Seq<char>, e: ModelExtension)
    ensures
        added_model(id, e).id == id,
        e.display_name matches Some(n) ==> added_model(id, e).name == n@,
        e.display_name is None ==> added_model(id, e).name == id,
        added_model(id, e).context_window == e.context_window,
{
}

/// A row tells each kind of control that a model has.
pub proof fn rows_tell_the_controls(options: Seq<OptionView>, i: int)
    requires
        0 <= i < options.len(),
    ensures
        kinds(options).len() == options.len(),
        kinds(options)[i] == options[i].kind_name(),
        hint_text(options) == "  "@ + join(kinds(options), "/"@),
        hint_text(Seq::empty()).len() == 0,
{
}

} // verus!
