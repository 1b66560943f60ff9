//! Instruction files: `AGENTS.md` of the user and of the project.
use crate::file_path::{join_path, joined_path};
use crate::prompt::{Activation, PromptSpec, PromptView, prompt_views};
use crate::text::{blank, copy, is_blank, lower, opt_text, same, same_ignoring_case};
use vstd::prelude::*;

verus! {

/// An entry of a directory: its name, whether it is a file, and its text, where it was read.
pub struct DirEntry {
    pub name: String,
    pub is_file: bool,
    pub content: Option<String>,
}

/// A directory and its entries.
pub struct DirListing {
    pub dir: String,
    pub entries: Vec<DirEntry>,
}

/// The instructions of a file: its path and its text.
#[derive(Debug, PartialEq, Eq)]
pub struct Instructions {
    pub path: String,
    pub content: String,
}

pub struct InstructionsView {
    pub path: Seq<char>,
    pub content: Seq<char>,
}

impl View for Instructions {
    type V = InstructionsView;

    open spec fn view(&self) -> InstructionsView {
        InstructionsView { path: self.path@, content: self.content@ }
    }
}

pub open spec fn opt_instructions(o: Option<Instructions>) -> Option<InstructionsView> {
    match o {
        Some(i) => Some(i@),
        None => None,
    }
}

/// The instructions in a file: none where it is no file, could not be read or is blank.
pub open spec fn instructions_in(
    path: Seq<char>,
    is_file: bool,
    content: Option<Seq<char>>,
) -> Option<InstructionsView> {
    match content {
        Some(c) => if is_file && !is_blank(c) {
            Some(InstructionsView { path, content: c })
        } else {
            None
        },
        None => None,
    }
}

/// The instructions in a file.
pub fn read_if_exists(path: &str, is_file: bool, content: &Option<String>) -> (r: Option<
    Instructions,
>)
    ensures
        opt_instructions(r) == instructions_in(path@, is_file, opt_text(*content)),
{
    match content {
        Some(c) => if is_file && !blank(c.as_str()) {
            Some(Instructions { path: copy(path), content: c.clone() })
        } else {
            None
        },
        None => None,
    }
}

/// Whether a file of that name can hold instructions: `AGENTS.md` in any letter case.
pub fn is_agents_md_name(name: &str) -> (r: bool)
    ensures
        r == (lower(name@) == "agents.md"@),
{
    proof {
        lemma_lower_file_name();
    }
    same_ignoring_case(name, "AGENTS.md")
}

proof fn lemma_lower_file_name()
    ensures
        lower("AGENTS.md"@) == "agents.md"@,
{
    reveal_strlit("AGENTS.md");
    reveal_strlit("agents.md");
    assert(lower("AGENTS.md"@) =~= "agents.md"@);
}

/// What entry `e` of the directory `dir` contributes, where its name fits.
pub open spec fn entry_hit(dir: Seq<char>, e: DirEntry) -> Option<InstructionsView> {
    if lower(e.name@) == "agents.md"@ {
        instructions_in(join_path(dir, e.name@), e.is_file, opt_text(e.content))
    } else {
        None
    }
}

/// The instructions among the entries from `i` on: those of the name `AGENTS.md` itself, or
/// else the first ones; `variant` was found before them.
pub open spec fn hit_from(
    dir: Seq<char>,
    entries: Seq<DirEntry>,
    i: int,
    variant: Option<InstructionsView>,
) -> Option<InstructionsView>
    decreases entries.len() - i,
{
    if i < 0 || i >= entries.len() {
        variant
    } else {
        match entry_hit(dir, entries[i]) {
            None => hit_from(dir, entries, i + 1, variant),
            Some(hit) => if entries[i].name@ == "AGENTS.md"@ {
                Some(hit)
            } else {
                hit_from(
                    dir,
                    entries,
                    i + 1,
                    match variant {
                        Some(v) => Some(v),
                        None => Some(hit),
                    },
                )
            },
        }
    }
}

/// The instructions in a directory: an entry named `AGENTS.md` wins, else the first one that
/// is named so but for letter case.
pub fn find_agents_md_in(listing: &DirListing) -> (r: Option<Instructions>)
    ensures
        opt_instructions(r) == hit_from(listing.dir@, listing.entries@, 0, None),
{
    let mut variant: Option<Instructions> = None;
    let mut i: usize = 0;
    while i < listing.entries.len()
        invariant
            i <= listing.entries@.len(),
            hit_from(listing.dir@, listing.entries@, i as int, opt_instructions(variant))
                == hit_from(listing.dir@, listing.entries@, 0, None),
        decreases listing.entries@.len() - i,
    {
        let e = &listing.entries[i];
        if is_agents_md_name(e.name.as_str()) {
            let path = joined_path(listing.dir.as_str(), e.name.as_str());
            match read_if_exists(path.as_str(), e.is_file, &e.content) {
                Some(hit) => {
                    if same(e.name.as_str(), "AGENTS.md") {
                        return Some(hit);
                    }
                    if variant.is_none() {
                        variant = Some(hit);
                    }
                },
                None => {},
            }
        }
        i += 1;
    }
    variant
}

/// The instructions of the first directory from `i` on that has any.
pub open spec fn nearest_hit(listings: Seq<DirListing>, i: int) -> Option<InstructionsView>
    decreases listings.len() - i,
{
    if i < 0 || i >= listings.len() {
        None
    } else {
        match hit_from(listings[i].dir@, listings[i].entries@, 0, None) {
            Some(hit) => Some(hit),
            None => nearest_hit(listings, i + 1),
        }
    }
}

/// The instructions of the project, from its directories, the nearest first.
pub fn load_project_level(listings: &Vec<DirListing>) -> (r: Option<Instructions>)
    ensures
        opt_instructions(r) == nearest_hit(listings@, 0),
{
    let mut i: usize = 0;
    while i < listings.len()
        invariant
            i <= listings@.len(),
            nearest_hit(listings@, i as int) == nearest_hit(listings@, 0),
        decreases listings@.len() - i,
    {
        match find_agents_md_in(&listings[i]) {
            Some(hit) => {
                return Some(hit);
            },
            None => {},
        }
        i += 1;
    }
    None
}

/// The path of the user's instructions, below the configuration directory.
pub fn user_level_path(config_home: &str) -> (r: String)
    ensures
        r@ == join_path(config_home@, "AGENTS.md"@),
{
    joined_path(config_home, "AGENTS.md")
}

/// The user's instructions, from the configuration directory, where it is known.
pub fn load_user_level(config_home: Option<&str>, is_file: bool, content: &Option<String>) -> (r:
    Option<Instructions>)
    ensures
        opt_instructions(r) == (match config_home {
            Some(home) => instructions_in(
                join_path(home@, "AGENTS.md"@),
                is_file,
                opt_text(*content),
            ),
            None => None,
        }),
{
    match config_home {
        Some(home) => {
            let path = user_level_path(home);
            read_if_exists(path.as_str(), is_file, content)
        },
        None => None,
    }
}

/// The instructions of the user and of the project.
pub struct AgentsMd {
    pub user: Option<Instructions>,
    pub project: Option<Instructions>,
}

/// The user's instructions together with those of the project's directories.
pub fn load_from(user: Option<Instructions>, listings: &Vec<DirListing>) -> (r: AgentsMd)
    ensures
        r.user == user,
        opt_instructions(r.project) == nearest_hit(listings@, 0),
{
    AgentsMd { user, project: load_project_level(listings) }
}

/// Instructions as an agent is shown them.
pub open spec fn instructions_text(path: Seq<char>, content: Seq<char>) -> Seq<char> {
    "Instructions from: "@ + path + "\n"@ + content
}

/// Instructions as an agent is shown them: under the path of their file.
pub fn format_prompt(path: &str, content: &str) -> (r: String)
    ensures
        r@ == instructions_text(path@, content@),
{
    let mut r = copy("Instructions from: ");
    r.append(path);
    r.append("\n");
    r.append(content);
    r
}

pub open spec fn instructions_prompt(id: Seq<char>, i: Option<InstructionsView>) -> Seq<PromptView> {
    match i {
        Some(v) => seq![
            PromptView {
                id,
                text: instructions_text(v.path, v.content),
                activation: Activation::Always,
            },
        ],
        None => Seq::empty(),
    }
}

impl AgentsMd {
    /// What the instructions contribute: the user's first, then those of the project.
    pub fn capabilities(&self) -> (r: Vec<PromptSpec>)
        ensures
            prompt_views(r@) == instructions_prompt(
                "agents_md_user"@,
                opt_instructions(self.user),
            ) + instructions_prompt("agents_md_project"@, opt_instructions(self.project)),
    {
        let mut r: Vec<PromptSpec> = Vec::new();
        match &self.user {
            Some(i) => {
                r.push(
                    PromptSpec {
                        id: copy("agents_md_user"),
                        text: format_prompt(i.path.as_str(), i.content.as_str()),
                        activation: Activation::Always,
                    },
                );
            },
            None => {},
        }
        let ghost first = prompt_views(r@);
        assert(first =~= instructions_prompt("agents_md_user"@, opt_instructions(self.user)));
        match &self.project {
            Some(i) => {
                r.push(
                    PromptSpec {
                        id: copy("agents_md_project"),
                        text: format_prompt(i.path.as_str(), i.content.as_str()),
                        activation: Activation::Always,
                    },
                );
            },
            None => {},
        }
        assert(prompt_views(r@) =~= first + instructions_prompt(
            "agents_md_project"@,
            opt_instructions(self.project),
        ));
        r
    }
}

proof fn lemma_exact_name_wins(
    dir: Seq<char>,
    entries: Seq<DirEntry>,
    i: int,
    k: int,
    variant: Option<InstructionsView>,
)
    requires
        0 <= i <= k < entries.len(),
        entries[k].name@ == "AGENTS.md"@,
        entry_hit(dir, entries[k]) is Some,
        forall|j: int| i <= j < k ==> (#[trigger] entries[j]).name@ != "AGENTS.md"@,
    ensures
        hit_from(dir, entries, i, variant) == entry_hit(dir, entries[k]),
    decreases k - i,
{
    if i < k {
        lemma_exact_name_wins(dir, entries, i + 1, k, variant);
        lemma_exact_name_wins(dir, entries, i + 1, k, entry_hit(dir, entries[i]));
    }
}

/// Where a directory holds usable instructions in a file named exactly `AGENTS.md`, those are
/// taken, whatever other spellings stand beside it and in whatever order.
pub proof fn the_exact_name_wins(dir: Seq<char>, entries: Seq<DirEntry>, k: int)
    requires
        0 <= k < entries.len(),
        entries[k].name@ == "AGENTS.md"@,
        entry_hit(dir, entries[k]) is Some,
        forall|j: int| 0 <= j < k ==> (#[trigger] entries[j]).name@ != "AGENTS.md"@,
    ensures
        hit_from(dir, entries, 0, None) == entry_hit(dir, entries[k]),
{
    lemma_exact_name_wins(dir, entries, 0, k, None);
}

/// A file that was read and is not blank gives its instructions whole and under its path, and
/// nothing else gives any.
pub proof fn instructions_are_taken_whole(path: Seq<char>, text: Seq<char>)
    ensures
        !is_blank(text) ==> instructions_in(path, true, Some(text)) == Some(
            InstructionsView { path, content: text },
        ),
        is_blank(text) ==> instructions_in(path, true, Some(text)) is None,
        instructions_in(path, false, Some(text)) is None,
        instructions_in(path, true, None) is None,
{
}

proof fn lemma_hit_from(
    dir: Seq<char>,
    entries: Seq<DirEntry>,
    i: int,
    variant: Option<InstructionsView>,
)
    requires
        0 <= i,
    ensures
        (hit_from(dir, entries, i, variant) is Some) == (variant is Some || exists|k: int|
            i <= k < entries.len() && entry_hit(dir, #[trigger] entries[k]) is Some),
        hit_from(dir, entries, i, variant) matches Some(v) ==> variant == Some(v) || exists|k: int|
            i <= k < entries.len() && entry_hit(dir, #[trigger] entries[k]) == Some(v),
    decreases entries.len() - i,
{
    if i < entries.len() {
        let hit = entry_hit(dir, entries[i]);
        match hit {
            None => lemma_hit_from(dir, entries, i + 1, variant),
            Some(h) => if entries[i].name@ != "AGENTS.md"@ {
                lemma_hit_from(
                    dir,
                    entries,
                    i + 1,
                    match variant {
                        Some(v) => Some(v),
                        None => Some(h),
                    },
                );
            },
        }
    }
}

/// A directory has instructions exactly where an entry of it is a file with text whose name is
/// `AGENTS.md` in some letter case, and they are those of such an entry.
pub proof fn instructions_are_found_in_any_case(dir: Seq<char>, entries: Seq<DirEntry>)
    ensures
        (hit_from(dir, entries, 0, None) is Some) == exists|k: int|
            0 <= k < entries.len() && lower((#[trigger] entries[k]).name@) == "agents.md"@
                && entries[k].is_file && entries[k].content is Some && !is_blank(
                entries[k].content->0@,
            ),
        hit_from(dir, entries, 0, None) matches Some(v) ==> exists|k: int|
            0 <= k < entries.len() && lower((#[trigger] entries[k]).name@) == "agents.md"@
                && v.path == join_path(dir, entries[k].name@) && entries[k].content is Some
                && v.content == entries[k].content->0@,
{
    lemma_hit_from(dir, entries, 0, None);
    if hit_from(dir, entries, 0, None) is Some {
        let v = hit_from(dir, entries, 0, None)->0;
        let k = choose|k: int|
            0 <= k < entries.len() && entry_hit(dir, #[trigger] entries[k]) == Some(v);
        assert(lower(entries[k].name@) == "agents.md"@);
    }
    if exists|k: int|
        0 <= k < entries.len() && lower((#[trigger] entries[k]).name@) == "agents.md"@
            && entries[k].is_file && entries[k].content is Some && !is_blank(
            entries[k].content->0@,
        ) {
        let k = choose|k: int|
            0 <= k < entries.len() && lower((#[trigger] entries[k]).name@) == "agents.md"@
                && entries[k].is_file && entries[k].content is Some && !is_blank(
                entries[k].content->0@,
            );
        assert(entry_hit(dir, entries[k]) is Some);
    }
}

/// The nearest directory with instructions counts.
pub proof fn the_nearest_instructions_count(listings: Seq<DirListing>, i: int, k: int)
    requires
        0 <= i <= k < listings.len(),
        hit_from(listings[k].dir@, listings[k].entries@, 0, None) is Some,
        forall|j: int|
            i <= j < k ==> hit_from((#[trigger] listings[j]).dir@, listings[j].entries@, 0, None)
                is None,
    ensures
        nearest_hit(listings, i) == hit_from(listings[k].dir@, listings[k].entries@, 0, None),
    decreases k - i,
{
    if i < k {
        assert(hit_from(listings[i].dir@, listings[i].entries@, 0, None) is None);
        the_nearest_instructions_count(listings, i + 1, k);
    }
}

/// An agent is shown instructions whole, at the end, under the path of their file, and always.
pub proof fn instructions_are_shown_whole(id: Seq<char>, i: InstructionsView)
    ensures
        instructions_prompt(id, Some(i)).len() == 1,
        instructions_prompt(id, Some(i))[0].id == id,
        instructions_prompt(id, Some(i))[0].activation == Activation::Always,
        instructions_prompt(id, Some(i))[0].text == "Instructions from: "@ + i.path + "\n"@
            + i.content,
        instructions_prompt(id, None).len() == 0,
{
}

/// An agent is shown the user's instructions and those of the project, both whole and always.
pub proof fn both_instructions_are_shown(
    a: AgentsMd,
    r: Vec<PromptSpec>,
    u: Instructions,
    p: Instructions,
)
    requires
        call_ensures(AgentsMd::capabilities, (&a,), r),
        a.user == Some(u),
        a.project == Some(p),
    ensures
        r@.len() == 2,
        r@[0].text@ == "Instructions from: "@ + u.path@ + "\n"@ + u.content@,
        r@[1].text@ == "Instructions from: "@ + p.path@ + "\n"@ + p.content@,
        r@[0].activation == Activation::Always,
        r@[1].activation == Activation::Always,
{
    let v = prompt_views(r@);
    assert(v.len() == r@.len());
    assert(v[0] == r@[0]@ && v[1] == r@[1]@);
}

/// The instructions of a project are those of the nearest directory, beside the user's own.
pub proof fn users_and_projects_instruct(
    user: Option<Instructions>,
    listings: Vec<DirListing>,
    r: AgentsMd,
)
    requires
        call_ensures(load_from, (user, &listings), r),
    ensures
        r.user == user,
        opt_instructions(r.project) == nearest_hit(listings@, 0),
{
}

} // verus!
