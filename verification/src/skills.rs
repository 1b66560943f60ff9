//! Skills: directories with instructions that an agent reads when a task calls for them.
//!
//! A skill's `SKILL.md` starts with front matter that names and describes it. A skill that
//! always applies is shown to the agent in full; of the others it is shown a catalog.
use crate::discovery::{dirs_of_project, nearest_agents_dir, nearest_dir};
use crate::file_path::{
    ancestors, file_name, is_file_name, join_path, joined_paths_end_in_their_name, path_file_name,
};
use crate::prompt::{Activation, PromptSpec, PromptView, prompt_views};
use crate::sort::{is_sorted_of, sorted};
use crate::text::{
    blank, chars_of, copy, is_blank, is_space, is_whitespace, join, joined, lemma_find_is,
    lemma_find_none, lines, lines_of, lower, opt_text, same, same_ignoring_case, split_at_first,
    split_once, stands_at, texts, trim, trim_span, trimmed,
};
use crate::text_map::{TextMap, text_less, texts_are_ordered};
use vstd::prelude::*;

verus! {

// ---------------------------------------------------------------------------
// Front matter
// ---------------------------------------------------------------------------
/// The first line from `i` on that is `---` but for white space.
pub open spec fn fence_from(ls: Seq<Seq<char>>, i: int) -> Option<int>
    decreases ls.len() - i,
{
    if i < 0 || i >= ls.len() {
        None
    } else if trim(ls[i]) == "---"@ {
        Some(i)
    } else {
        fence_from(ls, i + 1)
    }
}

/// Lines as text, each ended by a line feed.
pub open spec fn ended_lines(ls: Seq<Seq<char>>) -> Seq<char>
    decreases ls.len(),
{
    if ls.len() == 0 {
        Seq::empty()
    } else {
        ended_lines(ls.drop_last()) + ls.last().push('\n')
    }
}

/// The front matter, where the content starts with a line `---` and another one closes it, and
/// the body behind it; else no front matter, and the whole content as the body.
pub open spec fn front_matter(content: Seq<char>) -> (Option<Seq<char>>, Seq<char>) {
    let ls = lines(content);
    if ls.len() == 0 || trim(ls[0]) != "---"@ {
        (None, content)
    } else {
        match fence_from(ls, 1) {
            Some(k) => (Some(ended_lines(ls.subrange(1, k))), join(ls.skip(k + 1), "\n"@)),
            None => (None, content),
        }
    }
}

/// The front matter and the body of `content`.
pub fn split_front_matter(content: &str) -> (r: (Option<String>, String))
    ensures
        opt_text(r.0) == front_matter(content@).0,
        r.1@ == front_matter(content@).1,
{
    let all = lines_of(content);
    let ghost ls = texts(all@);
    if all.len() == 0 {
        return (None, copy(content));
    }
    assert(ls[0] == all@[0]@);
    if !same(trimmed(all[0].as_str()).as_str(), "---") {
        return (None, copy(content));
    }
    let mut front = String::new();
    let mut k: usize = 1;
    assert(ls.subrange(1, 1) =~= Seq::empty());
    while k < all.len() && !same(trimmed(all[k].as_str()).as_str(), "---")
        invariant
            1 <= k <= all@.len(),
            ls == texts(all@),
            front@ == ended_lines(ls.subrange(1, k as int)),
            fence_from(ls, k as int) == fence_from(ls, 1),
        decreases all@.len() - k,
    {
        assert(ls[k as int] == all@[k as int]@);
        front.append(all[k].as_str());
        front.push('\n');
        proof {
            let t = ls.subrange(1, k + 1);
            assert(t.drop_last() =~= ls.subrange(1, k as int));
            assert(t.last() == all@[k as int]@);
            assert(front@ =~= ended_lines(t));
        }
        k += 1;
    }
    if k == all.len() {
        return (None, copy(content));
    }
    assert(ls[k as int] == all@[k as int]@);
    let mut rest = all;
    let tail = rest.split_off(k + 1);
    assert(texts(tail@) =~= ls.skip(k + 1));
    (Some(front), joined(&tail, "\n"))
}

/// Whether a line starts with white space.
pub open spec fn is_indented(line: Seq<char>) -> bool {
    line.len() > 0 && is_space(line[0])
}

/// The lines of a block scalar from line `i` on, trimmed and without the blank ones, and how
/// many lines it takes: up to the first line that is neither indented nor blank.
pub open spec fn block_from(ls: Seq<Seq<char>>, i: int) -> (Seq<Seq<char>>, nat)
    decreases ls.len() - i,
{
    if i < 0 || i >= ls.len() {
        (Seq::empty(), 0)
    } else if is_blank(ls[i]) {
        let (parts, n) = block_from(ls, i + 1);
        (parts, n + 1)
    } else if !is_indented(ls[i]) {
        (Seq::empty(), 0)
    } else {
        let (parts, n) = block_from(ls, i + 1);
        (seq![trim(ls[i])] + parts, n + 1)
    }
}

proof fn lemma_block_from(ls: Seq<Seq<char>>, i: int)
    requires
        0 <= i <= ls.len(),
    ensures
        i + block_from(ls, i).1 <= ls.len(),
    decreases ls.len() - i,
{
    if i < ls.len() {
        lemma_block_from(ls, i + 1);
    }
}

/// The value of the block scalar whose lines start at `from`, on one line, and how many lines
/// it takes.
pub fn fold_block_scalar(lines: &Vec<String>, from: usize) -> (r: (String, usize))
    requires
        from <= lines@.len(),
    ensures
        r.0@ == join(block_from(texts(lines@), from as int).0, " "@),
        r.1 == block_from(texts(lines@), from as int).1,
        from + r.1 <= lines@.len(),
{
    let ghost ls = texts(lines@);
    let mut parts: Vec<String> = Vec::new();
    let mut i: usize = from;
    assert(texts(parts@) + block_from(ls, from as int).0 =~= block_from(ls, from as int).0);
    while i < lines.len()
        invariant
            from <= i <= lines@.len(),
            ls == texts(lines@),
            texts(parts@) + block_from(ls, i as int).0 == block_from(ls, from as int).0,
            i - from + block_from(ls, i as int).1 == block_from(ls, from as int).1,
        decreases lines@.len() - i,
    {
        let ghost parts0 = texts(parts@);
        assert(ls[i as int] == lines@[i as int]@);
        let line = lines[i].as_str();
        let t = trimmed(line);
        if !t.as_str().is_empty() {
            let v = chars_of(line);
            if v.len() == 0 || !is_whitespace(v[0]) {
                assert(texts(parts@) + Seq::<Seq<char>>::empty() =~= texts(parts@));
                return (joined(&parts, " "), i - from);
            }
            parts.push(t);
            proof {
                assert(texts(parts@) =~= parts0.push(t@));
                let rest = block_from(ls, i + 1).0;
                assert(parts0 + (seq![t@] + rest) =~= texts(parts@) + rest);
            }
        }
        i += 1;
    }
    assert(texts(parts@) + Seq::<Seq<char>>::empty() =~= texts(parts@));
    (joined(&parts, " "), i - from)
}

/// What the front matter says.
pub struct Fields {
    pub name: Option<String>,
    pub description: Option<String>,
    pub always_apply: bool,
}

pub struct FieldsView {
    pub name: Option<Seq<char>>,
    pub description: Option<Seq<char>>,
    pub always_apply: bool,
}

impl View for Fields {
    type V = FieldsView;

    open spec fn view(&self) -> FieldsView {
        FieldsView {
            name: opt_text(self.name),
            description: opt_text(self.description),
            always_apply: self.always_apply,
        }
    }
}

/// `f` after the field `key` with the value `value`. An empty name or description does not
/// count, nor does any other key.
pub open spec fn with_field(f: FieldsView, key: Seq<char>, value: Seq<char>) -> FieldsView {
    if key == "name"@ {
        if value.len() > 0 {
            FieldsView { name: Some(value), ..f }
        } else {
            f
        }
    } else if key == "description"@ {
        if value.len() > 0 {
            FieldsView { description: Some(value), ..f }
        } else {
            f
        }
    } else if key == "alwaysApply"@ {
        FieldsView { always_apply: lower(value) == "true"@, ..f }
    } else {
        f
    }
}

/// Whether a value is a block scalar, which the lines below it hold.
pub open spec fn is_block(value: Seq<char>) -> bool {
    value.len() > 0 && (value[0] == '>' || value[0] == '|')
}

/// `f` after the lines of front matter from line `i` on. A line without a colon does not
/// count.
pub open spec fn fields_from(ls: Seq<Seq<char>>, i: int, f: FieldsView) -> FieldsView
    decreases ls.len() - i,
    via fields_decrease
{
    if i < 0 || i >= ls.len() {
        f
    } else {
        match split_once(ls[i], ":"@) {
            None => fields_from(ls, i + 1, f),
            Some((k, v)) => if is_block(trim(v)) {
                let (parts, n) = block_from(ls, i + 1);
                fields_from(ls, i + 1 + n, with_field(f, trim(k), join(parts, " "@)))
            } else {
                fields_from(ls, i + 1, with_field(f, trim(k), trim(v)))
            },
        }
    }
}

#[via_fn]
proof fn fields_decrease(ls: Seq<Seq<char>>, i: int, f: FieldsView) {
    if 0 <= i < ls.len() {
        lemma_block_from(ls, i + 1);
    }
}

pub open spec fn no_fields() -> FieldsView {
    FieldsView { name: None, description: None, always_apply: false }
}

/// What the front matter `front` says.
pub fn read_fields(front: &str) -> (r: Fields)
    ensures
        r@ == fields_from(lines(front@), 0, no_fields()),
{
    let all = lines_of(front);
    let ghost ls = texts(all@);
    let mut f = Fields { name: None, description: None, always_apply: false };
    let mut i: usize = 0;
    while i < all.len()
        invariant
            i <= all@.len(),
            ls == texts(all@),
            fields_from(ls, i as int, f@) == fields_from(ls, 0, no_fields()),
        decreases all@.len() - i,
    {
        assert(ls[i as int] == all@[i as int]@);
        match split_at_first(all[i].as_str(), ":") {
            None => {
                i += 1;
            },
            Some((k, v)) => {
                let key = trimmed(k.as_str());
                let value = trimmed(v.as_str());
                let head = chars_of(value.as_str());
                let resolved: String;
                if head.len() > 0 && (head[0] == '>' || head[0] == '|') {
                    let (folded, taken) = fold_block_scalar(&all, i + 1);
                    i = i + 1 + taken;
                    resolved = folded;
                } else {
                    i += 1;
                    resolved = value;
                }
                let ghost f0 = f@;
                let ghost val = resolved@;
                if same(key.as_str(), "name") {
                    if !resolved.as_str().is_empty() {
                        f.name = Some(resolved);
                    }
                } else if same(key.as_str(), "description") {
                    if !resolved.as_str().is_empty() {
                        f.description = Some(resolved);
                    }
                } else if same(key.as_str(), "alwaysApply") {
                    proof {
                        reveal_strlit("true");
                        assert(lower("true"@) =~= "true"@);
                    }
                    f.always_apply = same_ignoring_case(resolved.as_str(), "true");
                }
                assert(f@ == with_field(f0, key@, val));
            },
        }
    }
    f
}

/// Whether a line can describe a skill: it is neither blank nor a heading.
pub open spec fn describes(line: Seq<char>) -> bool {
    trim(line).len() > 0 && trim(line)[0] != '#'
}

/// The first line from `i` on that can describe a skill.
pub open spec fn description_from(ls: Seq<Seq<char>>, i: int) -> Option<Seq<char>>
    decreases ls.len() - i,
{
    if i < 0 || i >= ls.len() {
        None
    } else if describes(ls[i]) {
        Some(trim(ls[i]))
    } else {
        description_from(ls, i + 1)
    }
}

/// The first line of `body` that is neither blank nor a heading, trimmed.
pub fn first_description_line(body: &str) -> (r: Option<String>)
    ensures
        opt_text(r) == description_from(lines(body@), 0),
{
    let all = lines_of(body);
    let ghost ls = texts(all@);
    let mut i: usize = 0;
    while i < all.len()
        invariant
            i <= all@.len(),
            ls == texts(all@),
            ls == lines(body@),
            description_from(ls, i as int) == description_from(ls, 0),
        decreases all@.len() - i,
    {
        assert(ls[i as int] == all@[i as int]@);
        let t = trimmed(all[i].as_str());
        let v = chars_of(t.as_str());
        if v.len() > 0 && v[0] != '#' {
            return Some(t);
        }
        i += 1;
    }
    None
}

// ---------------------------------------------------------------------------
// Skills
// ---------------------------------------------------------------------------
/// A skill.
#[derive(Debug, PartialEq, Eq)]
pub struct Skill {
    pub name: String,
    pub description: String,
    pub skill_dir: String,
    pub body: String,
    pub always_apply: bool,
    /// Files below `skill_dir`, such as `scripts/deploy.sh`.
    pub resources: Vec<String>,
}

pub struct SkillView {
    pub name: Seq<char>,
    pub description: Seq<char>,
    pub skill_dir: Seq<char>,
    pub body: Seq<char>,
    pub always_apply: bool,
    pub resources: Seq<Seq<char>>,
}

impl View for Skill {
    type V = SkillView;

    open spec fn view(&self) -> SkillView {
        SkillView {
            name: self.name@,
            description: self.description@,
            skill_dir: self.skill_dir@,
            body: self.body@,
            always_apply: self.always_apply,
            resources: texts(self.resources@),
        }
    }
}

pub open spec fn skill_views(s: Seq<Skill>) -> Seq<SkillView> {
    Seq::new(s.len(), |i: int| s[i]@)
}

/// What the front matter of a skill says: nothing where it has none.
pub open spec fn skill_fields(content: Seq<char>) -> FieldsView {
    match front_matter(content).0 {
        Some(front) => fields_from(lines(front), 0, no_fields()),
        None => no_fields(),
    }
}

/// The name of a skill: that in its front matter, or else that of its directory.
pub open spec fn skill_name(dir_name: Seq<char>, content: Seq<char>) -> Seq<char> {
    match skill_fields(content).name {
        Some(name) => name,
        None => dir_name,
    }
}

/// The description of a skill: that in its front matter, or else the first line of the body
/// that can serve as one.
pub open spec fn skill_description(content: Seq<char>) -> Option<Seq<char>> {
    match skill_fields(content).description {
        Some(d) => Some(d),
        None => description_from(lines(front_matter(content).1), 0),
    }
}

/// The skill in the directory `skill_dir` with `content` in its file. There is none where the
/// directory has no name, the file is blank, or nothing describes the skill.
pub open spec fn skill_of(
    skill_dir: Seq<char>,
    content: Seq<char>,
    resources: Seq<Seq<char>>,
) -> Option<SkillView> {
    match file_name(skill_dir) {
        None => None,
        Some(dir_name) => if is_blank(content) {
            None
        } else {
            match skill_description(content) {
                None => None,
                Some(description) => Some(
                    SkillView {
                        name: skill_name(dir_name, content),
                        description,
                        skill_dir,
                        body: front_matter(content).1,
                        always_apply: skill_fields(content).always_apply,
                        resources,
                    },
                ),
            }
        },
    }
}

/// What the user is warned of: a name that is not the directory's, and a skill that is left
/// out for want of a description.
pub open spec fn skill_warnings(skill_dir: Seq<char>, content: Seq<char>) -> Seq<Seq<char>> {
    match file_name(skill_dir) {
        None => Seq::empty(),
        Some(dir_name) => if is_blank(content) {
            Seq::empty()
        } else {
            let name = skill_name(dir_name, content);
            let mismatch = if name != dir_name {
                seq![
                    "shirl: skill '"@ + name + "' does not match its directory name '"@ + dir_name
                        + "'"@,
                ]
            } else {
                Seq::empty()
            };
            match skill_description(content) {
                Some(_) => mismatch,
                None => mismatch.push(
                    "shirl: skipping skill '"@ + name
                        + "' — no description in frontmatter or body"@,
                ),
            }
        },
    }
}

/// The skill in the directory `skill_dir`, whose file holds `content`, and what to warn the
/// user of.
pub fn parse_skill(skill_dir: &str, content: &str, resources: Vec<String>) -> (r: (
    Option<Skill>,
    Vec<String>,
))
    ensures
        (match r.0 {
            Some(s) => Some(s@),
            None => None,
        }) == skill_of(skill_dir@, content@, texts(resources@)),
        texts(r.1@) == skill_warnings(skill_dir@, content@),
{
    let mut warnings: Vec<String> = Vec::new();
    let dir_name = match path_file_name(skill_dir) {
        Some(n) => n,
        None => {
            assert(texts(warnings@) =~= Seq::empty());
            return (None, warnings);
        },
    };
    if blank(content) {
        assert(texts(warnings@) =~= Seq::empty());
        return (None, warnings);
    }
    let (front, body) = split_front_matter(content);
    let fields = match &front {
        Some(front) => read_fields(front.as_str()),
        None => Fields { name: None, description: None, always_apply: false },
    };
    assert(fields@ == skill_fields(content@));
    let name = match fields.name {
        Some(name) => name,
        None => dir_name.clone(),
    };
    assert(name@ == skill_name(dir_name@, content@));
    if !same(name.as_str(), dir_name.as_str()) {
        let mut w = copy("shirl: skill '");
        w.append(name.as_str());
        w.append("' does not match its directory name '");
        w.append(dir_name.as_str());
        w.append("'");
        warnings.push(w);
    }
    let ghost mismatch = texts(warnings@);
    assert(mismatch =~= if name@ != dir_name@ {
        seq![
            "shirl: skill '"@ + name@ + "' does not match its directory name '"@ + dir_name@ + "'"@,
        ]
    } else {
        Seq::empty()
    });
    let description = match fields.description {
        Some(d) => Some(d),
        None => first_description_line(body.as_str()),
    };
    match description {
        None => {
            let mut w = copy("shirl: skipping skill '");
            w.append(name.as_str());
            w.append("' — no description in frontmatter or body");
            warnings.push(w);
            assert(texts(warnings@) =~= mismatch.push(w@));
            (None, warnings)
        },
        Some(description) => {
            let skill = Skill {
                name,
                description,
                skill_dir: copy(skill_dir),
                body,
                always_apply: fields.always_apply,
                resources,
            };
            (Some(skill), warnings)
        },
    }
}

/// The files `names` of the directory `sub`, as paths below the skill's directory.
pub open spec fn below(sub: Seq<char>, names: Seq<Seq<char>>) -> Seq<Seq<char>> {
    Seq::new(names.len(), |i: int| sub + "/"@ + names[i])
}

fn push_below(out: &mut Vec<String>, sub: &str, names: &Vec<String>)
    ensures
        texts(final(out)@) == texts(old(out)@) + below(sub@, texts(names@)),
{
    let ghost out0 = texts(out@);
    let ghost want = below(sub@, texts(names@));
    let mut i: usize = 0;
    assert(texts(out@) =~= out0 + want.take(0));
    while i < names.len()
        invariant
            i <= names@.len(),
            want == below(sub@, texts(names@)),
            texts(out@) == out0 + want.take(i as int),
        decreases names@.len() - i,
    {
        let ghost before = texts(out@);
        let mut path = copy(sub);
        path.append("/");
        path.append(names[i].as_str());
        out.push(path);
        assert(texts(out@) =~= before.push(path@));
        i += 1;
        assert(texts(out@) =~= out0 + want.take(i as int));
    }
    assert(want.take(i as int) =~= want);
}

/// The resources of a skill, from the names of the files in its `scripts`, `references` and
/// `assets`: as paths below the skill's directory, sorted.
pub fn enumerate_resources(
    scripts: &Vec<String>,
    references: &Vec<String>,
    assets: &Vec<String>,
) -> (r: Vec<String>)
    ensures
        exists|found: Seq<String>|
            #[trigger] texts(found) == below("scripts"@, texts(scripts@)) + below(
                "references"@,
                texts(references@),
            ) + below("assets"@, texts(assets@)) && is_sorted_of(r@, found),
{
    let mut out: Vec<String> = Vec::new();
    assert(texts(out@) + below("scripts"@, texts(scripts@)) =~= below(
        "scripts"@,
        texts(scripts@),
    ));
    push_below(&mut out, "scripts", scripts);
    push_below(&mut out, "references", references);
    push_below(&mut out, "assets", assets);
    let ghost found = out@;
    let r = sorted(out);
    assert(texts(found) == below("scripts"@, texts(scripts@)) + below(
        "references"@,
        texts(references@),
    ) + below("assets"@, texts(assets@)));
    r
}

// ---------------------------------------------------------------------------
// The provider
// ---------------------------------------------------------------------------
/// The skills by name: of those with one name the last counts.
pub open spec fn skills_by_name(skills: Seq<Skill>) -> Map<Seq<char>, Skill>
    decreases skills.len(),
{
    if skills.len() == 0 {
        Map::empty()
    } else {
        skills_by_name(skills.drop_last()).insert(skills.last().name@, skills.last())
    }
}

/// Whether `s` holds the skills of `m`, each once and in the order of their names.
pub open spec fn lists_skills(s: Seq<Skill>, m: Map<Seq<char>, Skill>) -> bool {
    &&& forall|i: int, j: int|
        0 <= i < j < s.len() ==> text_less((#[trigger] s[i]).name@, (#[trigger] s[j]).name@)
    &&& forall|i: int|
        0 <= i < s.len() ==> m.contains_key((#[trigger] s[i]).name@) && m[s[i].name@] == s[i]
    &&& forall|k: Seq<char>|
        m.contains_key(k) ==> exists|i: int| 0 <= i < s.len() && (#[trigger] s[i]).name@ == k
}

/// The skills that an agent is offered.
pub struct SkillsProvider {
    pub skills: Vec<Skill>,
}

proof fn lemma_names(skills: Seq<Skill>, k: Seq<char>)
    ensures
        skills_by_name(skills).contains_key(k) ==> skills_by_name(skills)[k].name@ == k,
    decreases skills.len(),
{
    if skills.len() > 0 {
        lemma_names(skills.drop_last(), k);
    }
}

/// A skill of the project takes the place of the user's skill of the same name.
pub proof fn project_skills_shadow_user_skills(user: Seq<Skill>, project: Seq<Skill>, k: Seq<char>)
    ensures
        skills_by_name(project).contains_key(k) ==> skills_by_name(user + project).contains_key(k)
            && skills_by_name(user + project)[k] == skills_by_name(project)[k],
        !skills_by_name(project).contains_key(k) ==> (skills_by_name(user + project).contains_key(k)
            == skills_by_name(user).contains_key(k) && (skills_by_name(user).contains_key(k)
            ==> skills_by_name(user + project)[k] == skills_by_name(user)[k])),
    decreases project.len(),
{
    if project.len() == 0 {
        assert(user + project =~= user);
    } else {
        project_skills_shadow_user_skills(user, project.drop_last(), k);
        assert((user + project).drop_last() =~= user + project.drop_last());
        assert((user + project).last() == project.last());
    }
}

fn put_all(map: &mut TextMap<Skill>, skills: Vec<Skill>, Ghost(before): Ghost<Seq<Skill>>)
    requires
        old(map)@ == skills_by_name(before),
    ensures
        final(map)@ == skills_by_name(before + skills@),
{
    let ghost given = skills@;
    let mut rest = skills;
    let mut reversed: Vec<Skill> = Vec::new();
    while rest.len() > 0
        invariant
            rest@.len() + reversed@.len() == given.len(),
            rest@ == given.take(rest@.len() as int),
            forall|k: int|
                0 <= k < reversed@.len() ==> #[trigger] reversed@[k] == given[given.len() - 1 - k],
        decreases rest@.len(),
    {
        match rest.pop() {
            Some(s) => {
                reversed.push(s);
            },
            None => {},
        }
    }
    let ghost mut n: int = 0;
    assert(before + given.take(0) =~= before);
    while reversed.len() > 0
        invariant
            0 <= n,
            reversed@.len() + n == given.len(),
            forall|k: int|
                0 <= k < reversed@.len() ==> #[trigger] reversed@[k] == given[given.len() - 1 - k],
            map@ == skills_by_name(before + given.take(n)),
        decreases reversed@.len(),
    {
        match reversed.pop() {
            Some(s) => {
                map.insert(s.name.clone(), s);
                proof {
                    let t = before + given.take(n + 1);
                    assert(t.drop_last() =~= before + given.take(n));
                    assert(t.last() == s);
                    n = n + 1;
                }
            },
            None => {},
        }
    }
    assert(given.take(n) =~= given);
}

/// What an agent is shown of a skill that does not always apply.
pub open spec fn catalog_entry(s: SkillView) -> Seq<char> {
    "\n- name: "@ + s.name + "\n  description: "@ + s.description + "\n  skill_dir: "@ + s.skill_dir
        + "\n"@ + if s.resources.len() > 0 {
        "  resources: "@ + join(s.resources, ", "@) + "\n"@
    } else {
        Seq::empty()
    }
}

pub open spec fn catalog_heading() -> Seq<char> {
    "Available skills — when a task matches a skill's description, read its SKILL.md to load full instructions; resolve resource paths against the skill's directory:\n"@
}

/// The entries of the skills that do not always apply.
pub open spec fn catalog_entries(skills: Seq<SkillView>) -> Seq<char>
    decreases skills.len(),
{
    if skills.len() == 0 {
        Seq::empty()
    } else if skills.last().always_apply {
        catalog_entries(skills.drop_last())
    } else {
        catalog_entries(skills.drop_last()) + catalog_entry(skills.last())
    }
}

/// A prompt for each skill that always applies.
pub open spec fn always_prompts(skills: Seq<SkillView>) -> Seq<PromptView>
    decreases skills.len(),
{
    if skills.len() == 0 {
        Seq::empty()
    } else if skills.last().always_apply {
        always_prompts(skills.drop_last()).push(
            PromptView {
                id: "skill_"@ + skills.last().name,
                text: skills.last().body,
                activation: Activation::Always,
            },
        )
    } else {
        always_prompts(skills.drop_last())
    }
}

/// Whether any of the skills does not always apply.
pub open spec fn any_discoverable(skills: Seq<SkillView>) -> bool {
    exists|i: int| 0 <= i < skills.len() && !(#[trigger] skills[i]).always_apply
}

/// What skills contribute: the body of each that always applies, then a catalog of the others,
/// where there are any.
pub open spec fn skill_prompts(skills: Seq<SkillView>) -> Seq<PromptView> {
    if any_discoverable(skills) {
        always_prompts(skills).push(
            PromptView {
                id: "skills_catalog"@,
                text: catalog_heading() + catalog_entries(skills),
                activation: Activation::Always,
            },
        )
    } else {
        always_prompts(skills)
    }
}

/// The catalog of the skills that do not always apply.
pub fn format_catalog(skills: &Vec<Skill>) -> (r: String)
    ensures
        r@ == catalog_heading() + catalog_entries(skill_views(skills@)),
{
    let ghost views = skill_views(skills@);
    let mut out = copy(
        "Available skills — when a task matches a skill's description, read its SKILL.md to load full instructions; resolve resource paths against the skill's directory:\n",
    );
    let mut i: usize = 0;
    assert(views.take(0) =~= Seq::empty());
    assert(out@ =~= catalog_heading() + catalog_entries(views.take(0)));
    while i < skills.len()
        invariant
            i <= skills@.len(),
            views == skill_views(skills@),
            out@ == catalog_heading() + catalog_entries(views.take(i as int)),
        decreases skills@.len() - i,
    {
        let s = &skills[i];
        let ghost out0 = out@;
        proof {
            let t = views.take(i + 1);
            assert(t.drop_last() =~= views.take(i as int));
            assert(t.last() == s@);
        }
        if !s.always_apply {
            out.append("\n- name: ");
            out.append(s.name.as_str());
            out.append("\n  description: ");
            out.append(s.description.as_str());
            out.append("\n  skill_dir: ");
            out.append(s.skill_dir.as_str());
            out.append("\n");
            if s.resources.len() > 0 {
                out.append("  resources: ");
                let list = joined(&s.resources, ", ");
                out.append(list.as_str());
                out.append("\n");
            }
            assert(out@ =~= out0 + catalog_entry(s@));
            assert(out@ =~= catalog_heading() + catalog_entries(views.take(i + 1)));
        }
        i += 1;
    }
    assert(views.take(i as int) =~= views);
    out
}

impl SkillsProvider {
    /// The user's skills and those of the project, which come first where both have one name,
    /// in the order of their names.
    pub fn load_from(user: Vec<Skill>, project: Vec<Skill>) -> (r: SkillsProvider)
        ensures
            lists_skills(r.skills@, skills_by_name(user@ + project@)),
    {
        let ghost all = user@ + project@;
        let ghost u = user@;
        let mut map: TextMap<Skill> = TextMap::new();
        put_all(&mut map, user, Ghost(Seq::empty()));
        assert(Seq::empty() + u =~= u);
        put_all(&mut map, project, Ghost(u));
        let ghost m = map@;
        let entries = map.into_entries();
        let ghost e = entries@;
        proof {
            assert forall|i: int| 0 <= i < e.len() implies (#[trigger] e[i]).1.name@ == e[i].0@ by {
                lemma_names(all, e[i].0@);
            }
        }
        let mut rest = entries;
        let mut reversed: Vec<Skill> = Vec::new();
        while rest.len() > 0
            invariant
                rest@.len() + reversed@.len() == e.len(),
                rest@ == e.take(rest@.len() as int),
                forall|k: int|
                    0 <= k < reversed@.len() ==> #[trigger] reversed@[k] == e[e.len() - 1 - k].1,
            decreases rest@.len(),
        {
            match rest.pop() {
                Some((_name, s)) => {
                    reversed.push(s);
                },
                None => {},
            }
        }
        let mut skills: Vec<Skill> = Vec::new();
        while reversed.len() > 0
            invariant
                reversed@.len() + skills@.len() == e.len(),
                forall|k: int|
                    0 <= k < reversed@.len() ==> #[trigger] reversed@[k] == e[e.len() - 1 - k].1,
                forall|k: int| 0 <= k < skills@.len() ==> #[trigger] skills@[k] == e[k].1,
            decreases reversed@.len(),
        {
            match reversed.pop() {
                Some(s) => {
                    skills.push(s);
                },
                None => {},
            }
        }
        proof {
            assert forall|i: int| 0 <= i < skills@.len() implies m.contains_key(
                (#[trigger] skills@[i]).name@,
            ) && m[skills@[i].name@] == skills@[i] by {
                assert(e[i].1.name@ == e[i].0@);
            }
            assert forall|i: int, j: int| 0 <= i < j < skills@.len() implies text_less(
                (#[trigger] skills@[i]).name@,
                (#[trigger] skills@[j]).name@,
            ) by {
                assert(e[i].1.name@ == e[i].0@);
                assert(e[j].1.name@ == e[j].0@);
            }
            assert forall|k: Seq<char>| m.contains_key(k) implies exists|i: int|
                0 <= i < skills@.len() && (#[trigger] skills@[i]).name@ == k by {
                let i = choose|i: int| 0 <= i < e.len() && (#[trigger] e[i]).0@ == k;
                assert(e[i].1.name@ == e[i].0@);
                assert(skills@[i].name@ == k);
            }
        }
        SkillsProvider { skills }
    }

    /// What the skills contribute.
    pub fn capabilities(&self) -> (r: Vec<PromptSpec>)
        ensures
            prompt_views(r@) == skill_prompts(skill_views(self.skills@)),
    {
        let ghost views = skill_views(self.skills@);
        let mut out: Vec<PromptSpec> = Vec::new();
        let mut any: bool = false;
        let mut i: usize = 0;
        assert(views.take(0) =~= Seq::empty());
        assert(prompt_views(out@) =~= Seq::empty());
        while i < self.skills.len()
            invariant
                i <= self.skills@.len(),
                views == skill_views(self.skills@),
                prompt_views(out@) == always_prompts(views.take(i as int)),
                any == exists|k: int| 0 <= k < i && !(#[trigger] views[k]).always_apply,
            decreases self.skills@.len() - i,
        {
            let s = &self.skills[i];
            let ghost out0 = prompt_views(out@);
            proof {
                let t = views.take(i + 1);
                assert(t.drop_last() =~= views.take(i as int));
                assert(t.last() == s@);
                assert(views[i as int] == s@);
            }
            if s.always_apply {
                let mut id = copy("skill_");
                id.append(s.name.as_str());
                let p = PromptSpec { id, text: s.body.clone(), activation: Activation::Always };
                out.push(p);
                assert(prompt_views(out@) =~= out0.push(p@));
            } else {
                any = true;
                assert(!views[i as int].always_apply);
            }
            i += 1;
        }
        assert(views.take(i as int) =~= views);
        if any {
            let ghost out0 = prompt_views(out@);
            let p = PromptSpec {
                id: copy("skills_catalog"),
                text: format_catalog(&self.skills),
                activation: Activation::Always,
            };
            out.push(p);
            assert(prompt_views(out@) =~= out0.push(p@));
        }
        out
    }
}

/// The nearest directory of the project's skills.
pub fn nearest_skills_dir(start: &str, has_git: &Vec<bool>, is_dir: &Vec<bool>) -> (r: Option<
    String,
>)
    requires
        has_git@.len() == ancestors(start@).len(),
        is_dir@.len() == dirs_of_project(start@, has_git@).len(),
    ensures
        opt_text(r) == nearest_dir(start@, has_git@, is_dir@, "skills"@),
{
    nearest_agents_dir(start, has_git, is_dir, "skills")
}

proof fn lemma_fence_from(ls: Seq<Seq<char>>, i: int, k: int)
    requires
        0 <= i <= k <= ls.len(),
        forall|j: int| i <= j < k ==> trim(#[trigger] ls[j]) != "---"@,
    ensures
        k < ls.len() && trim(ls[k]) == "---"@ ==> fence_from(ls, i) == Some(k),
        k == ls.len() ==> fence_from(ls, i) is None,
    decreases k - i,
{
    if i < k {
        assert(trim(ls[i]) != "---"@);
        lemma_fence_from(ls, i + 1, k);
    }
}

/// Front matter is what stands between a first line `---` and the next one; what follows is the
/// body. Where there is no such pair of lines, all of the content is the body and nothing of it
/// is lost.
pub proof fn front_matter_lies_between_fences(content: Seq<char>, k: int)
    requires
        1 <= k <= lines(content).len(),
        forall|j: int| 1 <= j < k ==> trim(#[trigger] lines(content)[j]) != "---"@,
    ensures
        trim(lines(content)[0]) == "---"@ && k < lines(content).len() && trim(lines(content)[k])
            == "---"@ ==> front_matter(content) == (
            Some(ended_lines(lines(content).subrange(1, k))),
            join(lines(content).skip(k + 1), "\n"@),
        ),
        trim(lines(content)[0]) != "---"@ || k == lines(content).len() ==> front_matter(content)
            == (None::<Seq<char>>, content),
{
    lemma_fence_from(lines(content), 1, k);
}

/// The lines of front matter are kept in order, each ended by a line feed.
pub proof fn front_matter_keeps_its_lines(ls: Seq<Seq<char>>, line: Seq<char>)
    ensures
        ended_lines(ls.push(line)) == ended_lines(ls) + line.push('\n'),
        ended_lines(Seq::empty()).len() == 0,
{
    assert(ls.push(line).drop_last() =~= ls);
}

proof fn lemma_field_names()
    ensures
        "name"@ != "description"@,
        "name"@ != "alwaysApply"@,
        "description"@ != "alwaysApply"@,
{
    reveal_strlit("name");
    reveal_strlit("description");
    reveal_strlit("alwaysApply");
    assert("name"@.len() == 4);
    assert("description"@[0] == 'd' && "alwaysApply"@[0] == 'a');
}

/// Each field of front matter says its own thing and changes nothing else; an empty name or
/// description says nothing, and a field of another name neither.
pub proof fn fields_say_their_own_thing(f: FieldsView, key: Seq<char>, value: Seq<char>)
    ensures
        value.len() > 0 ==> with_field(f, "name"@, value) == (FieldsView { name: Some(value), ..f }),
        value.len() > 0 ==> with_field(f, "description"@, value) == (FieldsView {
            description: Some(value),
            ..f
        }),
        value.len() == 0 ==> with_field(f, "name"@, value) == f && with_field(
            f,
            "description"@,
            value,
        ) == f,
        with_field(f, "alwaysApply"@, value) == (FieldsView {
            always_apply: lower(value) == "true"@,
            ..f
        }),
        key != "name"@ && key != "description"@ && key != "alwaysApply"@ ==> with_field(
            f,
            key,
            value,
        ) == f,
{
    lemma_field_names();
}

/// A line of front matter is a key, a colon and a value, which may hold more colons; white space
/// around either does not count. A line without a colon says nothing.
pub proof fn lines_of_front_matter_are_fields(
    ls: Seq<Seq<char>>,
    i: int,
    key: Seq<char>,
    value: Seq<char>,
    f: FieldsView,
)
    requires
        0 <= i < ls.len(),
        forall|k: int| 0 <= k < key.len() ==> #[trigger] key[k] != ':',
    ensures
        ls[i] == key + ":"@ + value && !is_block(trim(value)) ==> fields_from(ls, i, f)
            == fields_from(ls, i + 1, with_field(f, trim(key), trim(value))),
        ls[i] == key ==> fields_from(ls, i, f) == fields_from(ls, i + 1, f),
        ls[i] == key + ":"@ + value && is_block(trim(value)) ==> fields_from(ls, i, f)
            == fields_from(
            ls,
            i + 1 + block_from(ls, i + 1).1,
            with_field(f, trim(key), join(block_from(ls, i + 1).0, " "@)),
        ),
        is_block(value) == (value.len() > 0 && (value[0] == '>' || value[0] == '|')),
{
    reveal_strlit(":");
    let s = key + ":"@ + value;
    let n = key.len() as int;
    assert(s.subrange(n, n + 1) =~= ":"@);
    assert forall|k: int| 0 <= k < n implies !stands_at(s, ":"@, k) by {
        if stands_at(s, ":"@, k) {
            assert(s.subrange(k, k + 1)[0] == s[k]);
            assert(s[k] == key[k]);
        }
    }
    lemma_find_is(s, ":"@, 0, n);
    assert(s.take(n) =~= key);
    assert(s.skip(n + 1) =~= value);
    assert forall|k: int| 0 <= k <= key.len() implies !stands_at(key, ":"@, k) by {
        if stands_at(key, ":"@, k) {
            assert(key.subrange(k, k + 1)[0] == key[k]);
        }
    }
    lemma_find_none(key, ":"@, 0);
}

/// A value that stands below its key is made of the indented lines there, trimmed and on one
/// line; blank lines between them do not count, and the first other line ends it.
pub proof fn values_below_a_key_are_folded(ls: Seq<Seq<char>>, i: int)
    requires
        0 <= i < ls.len(),
    ensures
        is_blank(ls[i]) ==> block_from(ls, i).0 == block_from(ls, i + 1).0 && block_from(ls, i).1
            == block_from(ls, i + 1).1 + 1,
        !is_blank(ls[i]) && is_space(ls[i][0]) ==> block_from(ls, i).0 == seq![trim(ls[i])]
            + block_from(ls, i + 1).0 && block_from(ls, i).1 == block_from(ls, i + 1).1 + 1,
        !is_blank(ls[i]) && !is_space(ls[i][0]) ==> block_from(ls, i).0.len() == 0 && block_from(
            ls,
            i,
        ).1 == 0,
{
    let (a, b) = trim_span(ls[i]);
}

proof fn lemma_description_from(ls: Seq<Seq<char>>, k: int, i: int)
    requires
        0 <= k <= i < ls.len(),
        describes(ls[i]),
        forall|j: int| k <= j < i ==> !describes(#[trigger] ls[j]),
    ensures
        description_from(ls, k) == Some(trim(ls[i])),
    decreases i - k,
{
    if k < i {
        lemma_description_from(ls, k + 1, i);
    }
}

/// A skill is described by its front matter, and without that by the first line of its body that
/// is neither blank nor a heading.
pub proof fn skills_are_described_by_their_first_line(content: Seq<char>, i: int)
    ensures
        skill_fields(content).description is Some ==> skill_description(content) == skill_fields(
            content,
        ).description,
        ({
            let ls = lines(front_matter(content).1);
            skill_fields(content).description is None && 0 <= i < ls.len() && !is_blank(ls[i])
                && trim(ls[i])[0] != '#' && (forall|j: int|
                0 <= j < i ==> is_blank(#[trigger] ls[j]) || trim(ls[j])[0] == '#')
                ==> skill_description(content) == Some(trim(ls[i]))
        }),
{
    let ls = lines(front_matter(content).1);
    if 0 <= i < ls.len() && !is_blank(ls[i]) && trim(ls[i])[0] != '#' && (forall|j: int|
        0 <= j < i ==> is_blank(#[trigger] ls[j]) || trim(ls[j])[0] == '#') {
        lemma_description_from(ls, 0, i);
    }
}

/// A skill is there wherever its directory has a name, its file is not blank and something
/// describes it. It has the name that its front matter says, or else that of its directory, and
/// all of its body and its resources.
pub proof fn described_skills_are_there(
    dir: Seq<char>,
    name: Seq<char>,
    content: Seq<char>,
    resources: Seq<Seq<char>>,
)
    requires
        is_file_name(name),
    ensures
        (skill_of(join_path(dir, name), content, resources) is Some) == (!is_blank(content)
            && skill_description(content) is Some),
        skill_of(join_path(dir, name), content, resources) matches Some(s) ==> {
            &&& skill_fields(content).name is None ==> s.name == name
            &&& skill_fields(content).name is Some ==> Some(s.name) == skill_fields(content).name
            &&& Some(s.description) == skill_description(content)
            &&& s.body == front_matter(content).1
            &&& s.always_apply == skill_fields(content).always_apply
            &&& s.skill_dir == join_path(dir, name)
            &&& s.resources == resources
        },
{
    joined_paths_end_in_their_name(dir, name);
}

/// The user is warned exactly where a skill has another name than its directory, and where it is
/// left out for want of a description.
pub proof fn skill_problems_are_told(dir: Seq<char>, name: Seq<char>, content: Seq<char>)
    requires
        is_file_name(name),
        !is_blank(content),
    ensures
        (skill_warnings(join_path(dir, name), content).len() == 0) == (skill_name(name, content)
            == name && skill_description(content) is Some),
        skill_warnings(join_path(dir, name), content).len() == (skill_name(name, content)
            != name) as int + (skill_description(content) is None) as int,
{
    joined_paths_end_in_their_name(dir, name);
}

/// Of skills with one name the last counts, and the others stay as they were.
pub proof fn later_skills_count(skills: Seq<Skill>, s: Skill, k: Seq<char>)
    ensures
        skills_by_name(skills.push(s)).contains_key(s.name@),
        skills_by_name(skills.push(s))[s.name@] == s,
        k != s.name@ ==> skills_by_name(skills.push(s)).contains_key(k) == skills_by_name(
            skills,
        ).contains_key(k),
        k != s.name@ && skills_by_name(skills).contains_key(k) ==> skills_by_name(skills.push(s))[k]
            == skills_by_name(skills)[k],
{
    assert(skills.push(s).drop_last() =~= skills);
}

/// Every skill is offered under its name, once.
pub proof fn every_skill_is_offered(
    s: Seq<Skill>,
    m: Map<Seq<char>, Skill>,
    k: Seq<char>,
    i: int,
    j: int,
)
    requires
        lists_skills(s, m),
    ensures
        m.contains_key(k) <==> exists|n: int| 0 <= n < s.len() && (#[trigger] s[n]).name@ == k,
        0 <= i < s.len() && s[i].name@ == k ==> m[k] == s[i],
        0 <= i < s.len() && 0 <= j < s.len() && s[i].name@ == s[j].name@ ==> i == j,
{
    if 0 <= i < j < s.len() {
        texts_are_ordered(s[i].name@, s[j].name@, s[i].name@);
        assert(text_less(s[i].name@, s[j].name@));
    }
    if 0 <= j < i < s.len() {
        texts_are_ordered(s[j].name@, s[i].name@, s[j].name@);
        assert(text_less(s[j].name@, s[i].name@));
    }
}

/// What one more skill contributes: its body, always shown, where it always applies; else an entry
/// at the end of the catalog with its name, its description, its directory and its resources.
pub proof fn each_skill_contributes(skills: Seq<SkillView>, s: SkillView)
    ensures
        s.always_apply ==> always_prompts(skills.push(s)) == always_prompts(skills).push(
            PromptView {
                id: "skill_"@ + s.name,
                text: s.body,
                activation: Activation::Always,
            },
        ) && catalog_entries(skills.push(s)) == catalog_entries(skills) && any_discoverable(
            skills.push(s),
        ) == any_discoverable(skills),
        !s.always_apply ==> always_prompts(skills.push(s)) == always_prompts(skills)
            && any_discoverable(skills.push(s)),
        !s.always_apply && s.resources.len() == 0 ==> catalog_entries(skills.push(s))
            == catalog_entries(skills) + ("\n- name: "@ + s.name + "\n  description: "@
            + s.description + "\n  skill_dir: "@ + s.skill_dir + "\n"@),
        !s.always_apply && s.resources.len() > 0 ==> catalog_entries(skills.push(s))
            == catalog_entries(skills) + ("\n- name: "@ + s.name + "\n  description: "@
            + s.description + "\n  skill_dir: "@ + s.skill_dir + "\n"@ + ("  resources: "@ + join(
            s.resources,
            ", "@,
        ) + "\n"@)),
{
    let more = skills.push(s);
    let n = skills.len() as int;
    assert(more.drop_last() =~= skills);
    assert(more[n] == s);
    let entry = "\n- name: "@ + s.name + "\n  description: "@ + s.description + "\n  skill_dir: "@
        + s.skill_dir + "\n"@;
    assert(entry + Seq::empty() =~= entry);
    if any_discoverable(skills) {
        let i = choose|i: int| 0 <= i < skills.len() && !(#[trigger] skills[i]).always_apply;
        assert(!more[i].always_apply);
    }
    if s.always_apply && any_discoverable(more) {
        let i = choose|i: int| 0 <= i < more.len() && !(#[trigger] more[i]).always_apply;
        assert(!skills[i].always_apply);
    }
}

/// Everything that skills contribute is shown always: the bodies of those that always apply, and
/// behind them the catalog, where any skill is in it.
pub proof fn skills_are_always_shown(skills: Seq<SkillView>)
    ensures
        any_discoverable(skills) ==> skill_prompts(skills).len() == always_prompts(skills).len() + 1
            && skill_prompts(skills).drop_last() == always_prompts(skills) && skill_prompts(
            skills,
        ).last().activation == Activation::Always && skill_prompts(skills).last().text
            == catalog_heading() + catalog_entries(skills),
        !any_discoverable(skills) ==> skill_prompts(skills) == always_prompts(skills),
{
    if any_discoverable(skills) {
        assert(skill_prompts(skills).drop_last() =~= always_prompts(skills));
    }
}

/// The resources of a skill are named by the directory that they lie in.
pub proof fn resources_are_named_by_directory(sub: Seq<char>, names: Seq<Seq<char>>, i: int)
    requires
        0 <= i < names.len(),
    ensures
        below(sub, names).len() == names.len(),
        below(sub, names)[i] == sub + "/"@ + names[i],
{
}

} // verus!
