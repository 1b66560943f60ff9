//! Slash commands that users define as files: the file's name is the command, its text the
//! prompt that the command stands for.
use crate::discovery::{dirs_of_project, nearest_agents_dir, nearest_dir};
use crate::file_path::{
    ancestors, extension, file_stem, join_path, path_extension, path_file_stem,
    stems_and_endings_are_told_apart,
};
use crate::prompt::{Activation, PromptSpec, PromptView};
use crate::text::{
    blank, contains, copy, find_from, found_place, has_text, is_blank, lemma_contains, opt_text,
    replace, replaced, replacing_goes_from_place_to_place, same, strs, texts,
};
use crate::text_map::{TextMap, lists, text_less, texts_are_ordered};
use vstd::prelude::*;

verus! {

/// A command that a user defined.
#[derive(Debug, PartialEq, Eq)]
pub struct CustomCommand {
    pub name: String,
    pub template: String,
}

/// The commands that users defined.
pub struct CustomCommandsProvider {
    pub commands: Vec<CustomCommand>,
}

/// What a template comes to with the arguments `args`: they take the place of each
/// `$ARGUMENTS`, or else follow the template after a blank line, unless they are empty.
pub open spec fn rendered(template: Seq<char>, args: Seq<char>) -> Seq<char> {
    if contains(template, "$ARGUMENTS"@) {
        replace(template, "$ARGUMENTS"@, args)
    } else if args.len() == 0 {
        template
    } else {
        template + "\n\n"@ + args
    }
}

/// What a template comes to with the arguments `args`.
pub fn render_template(template: &str, args: &str) -> (r: String)
    ensures
        r@ == rendered(template@, args@),
{
    if has_text(template, "$ARGUMENTS") {
        proof {
            reveal_strlit("$ARGUMENTS");
        }
        replaced(template, "$ARGUMENTS", args)
    } else if args.is_empty() {
        copy(template)
    } else {
        let mut r = copy(template);
        r.append("\n\n");
        r.append(args);
        r
    }
}

/// The command in the file `path` with the text `content`: none unless the extension is `md`
/// and the text is not blank.
pub open spec fn command_in(path: Seq<char>, content: Seq<char>) -> Option<(Seq<char>, Seq<char>)> {
    match file_stem(path) {
        Some(stem) => if extension(path) == Some("md"@) && !is_blank(content) {
            Some((stem, content))
        } else {
            None
        },
        None => None,
    }
}

/// The command in the file `path`: its name and its template.
pub fn read_command(path: &str, content: &str) -> (r: Option<(String, String)>)
    ensures
        (r is Some) == (command_in(path@, content@) is Some),
        r matches Some(c) ==> command_in(path@, content@) == Some((c.0@, c.1@)),
{
    let is_md = match path_extension(path) {
        Some(e) => same(e.as_str(), "md"),
        None => false,
    };
    match path_file_stem(path) {
        Some(stem) => if is_md && !blank(content) {
            Some((stem, copy(content)))
        } else {
            None
        },
        None => None,
    }
}

/// Templates by the names of their commands: of those with one name the last counts.
pub open spec fn templates_by_name(commands: Seq<(String, String)>) -> Map<Seq<char>, String>
    decreases commands.len(),
{
    if commands.len() == 0 {
        Map::empty()
    } else {
        templates_by_name(commands.drop_last()).insert(commands.last().0@, commands.last().1)
    }
}

/// Whether `s` holds the commands of `m` whose names are not reserved, each once and in the
/// order of their names.
pub open spec fn lists_commands(
    s: Seq<CustomCommand>,
    m: Map<Seq<char>, String>,
    reserved: Seq<Seq<char>>,
) -> bool {
    &&& forall|i: int, j: int|
        0 <= i < j < s.len() ==> text_less((#[trigger] s[i]).name@, (#[trigger] s[j]).name@)
    &&& forall|i: int|
        0 <= i < s.len() ==> m.contains_key((#[trigger] s[i]).name@) && m[s[i].name@]
            == s[i].template && !reserved.contains(s[i].name@)
    &&& forall|k: Seq<char>|
        m.contains_key(k) && !reserved.contains(k) ==> exists|i: int|
            0 <= i < s.len() && (#[trigger] s[i]).name@ == k
}

/// A command of the project takes the place of the user's command of the same name.
pub proof fn project_commands_shadow_user_commands(
    user: Seq<(String, String)>,
    project: Seq<(String, String)>,
    k: Seq<char>,
)
    ensures
        templates_by_name(project).contains_key(k) ==> templates_by_name(
            user + project,
        ).contains_key(k) && templates_by_name(user + project)[k] == templates_by_name(project)[k],
        !templates_by_name(project).contains_key(k) ==> (templates_by_name(
            user + project,
        ).contains_key(k) == templates_by_name(user).contains_key(k) && (templates_by_name(
            user,
        ).contains_key(k) ==> templates_by_name(user + project)[k] == templates_by_name(user)[k])),
    decreases project.len(),
{
    if project.len() == 0 {
        assert(user + project =~= user);
    } else {
        project_commands_shadow_user_commands(user, project.drop_last(), k);
        assert((user + project).drop_last() =~= user + project.drop_last());
        assert((user + project).last() == project.last());
    }
}

fn put_commands(
    map: &mut TextMap<String>,
    commands: &Vec<(String, String)>,
    Ghost(before): Ghost<Seq<(String, String)>>,
)
    requires
        old(map)@ == templates_by_name(before),
    ensures
        final(map)@ == templates_by_name(before + commands@),
{
    let mut i: usize = 0;
    assert(before + commands@.take(0) =~= before);
    while i < commands.len()
        invariant
            i <= commands@.len(),
            map@ == templates_by_name(before + commands@.take(i as int)),
        decreases commands@.len() - i,
    {
        let c = &commands[i];
        map.insert(c.0.clone(), c.1.clone());
        proof {
            let t = before + commands@.take(i + 1);
            assert(t.drop_last() =~= before + commands@.take(i as int));
            assert(t.last() == commands@[i as int]);
        }
        i += 1;
    }
    assert(commands@.take(i as int) =~= commands@);
}

fn is_reserved(reserved: &Vec<&str>, name: &str) -> (r: bool)
    ensures
        r == strs(reserved@).contains(name@),
{
    let mut i: usize = 0;
    while i < reserved.len()
        invariant
            i <= reserved@.len(),
            forall|k: int| 0 <= k < i ==> #[trigger] strs(reserved@)[k] != name@,
        decreases reserved@.len() - i,
    {
        if same(reserved[i], name) {
            assert(strs(reserved@)[i as int] == name@);
            return true;
        }
        i += 1;
    }
    false
}

/// What the user is told of a command whose name is reserved.
pub fn reserved_warning(name: &str) -> (r: String)
    ensures
        r@ == "shirl: skipping custom command '/"@ + name@ + "' — name is reserved by a built-in"@,
{
    let mut r = copy("shirl: skipping custom command '/");
    r.append(name);
    r.append("' — name is reserved by a built-in");
    r
}

impl CustomCommandsProvider {
    /// The user's commands and those of the project, which come first where both have one
    /// name, without the reserved names, in the order of their names; and the reserved names
    /// that were left out, in order.
    pub fn load_from(
        user: &Vec<(String, String)>,
        project: &Vec<(String, String)>,
        reserved: &Vec<&str>,
    ) -> (r: (CustomCommandsProvider, Vec<String>))
        ensures
            lists_commands(
                r.0.commands@,
                templates_by_name(user@ + project@),
                strs(reserved@),
            ),
            forall|i: int, j: int|
                0 <= i < j < r.1@.len() ==> text_less((#[trigger] r.1@[i])@, (#[trigger] r.1@[j])@),
            forall|k: Seq<char>|
                texts(r.1@).contains(k) <==> templates_by_name(user@ + project@).contains_key(k)
                    && strs(reserved@).contains(k),
    {
        let mut map: TextMap<String> = TextMap::new();
        put_commands(&mut map, user, Ghost(Seq::empty()));
        assert(Seq::empty() + user@ =~= user@);
        put_commands(&mut map, project, Ghost(user@));
        let ghost m = map@;
        let entries = map.entries();
        let ghost e = entries@;
        let ghost res = strs(reserved@);
        let mut commands: Vec<CustomCommand> = Vec::new();
        let mut skipped: Vec<String> = Vec::new();
        let mut i: usize = 0;
        while i < entries.len()
            invariant
                i <= entries@.len(),
                e == entries@,
                lists(e, m),
                res == strs(reserved@),
                forall|a: int, b: int|
                    0 <= a < b < commands@.len() ==> text_less(
                        (#[trigger] commands@[a]).name@,
                        (#[trigger] commands@[b]).name@,
                    ),
                forall|a: int, b: int|
                    0 <= a < commands@.len() && i <= b < e.len() ==> text_less(
                        (#[trigger] commands@[a]).name@,
                        (#[trigger] e[b]).0@,
                    ),
                forall|a: int|
                    0 <= a < commands@.len() ==> m.contains_key((#[trigger] commands@[a]).name@)
                        && m[commands@[a].name@] == commands@[a].template && !res.contains(
                        commands@[a].name@,
                    ),
                forall|b: int|
                    0 <= b < i && !res.contains((#[trigger] e[b]).0@) ==> exists|a: int|
                        0 <= a < commands@.len() && (#[trigger] commands@[a]).name@ == e[b].0@,
                forall|a: int, b: int|
                    0 <= a < b < skipped@.len() ==> text_less(
                        (#[trigger] skipped@[a])@,
                        (#[trigger] skipped@[b])@,
                    ),
                forall|a: int, b: int|
                    0 <= a < skipped@.len() && i <= b < e.len() ==> text_less(
                        (#[trigger] skipped@[a])@,
                        (#[trigger] e[b]).0@,
                    ),
                forall|a: int|
                    0 <= a < skipped@.len() ==> m.contains_key((#[trigger] skipped@[a])@)
                        && res.contains(skipped@[a]@),
                forall|b: int|
                    0 <= b < i && res.contains((#[trigger] e[b]).0@) ==> exists|a: int|
                        0 <= a < skipped@.len() && (#[trigger] skipped@[a])@ == e[b].0@,
            decreases entries@.len() - i,
        {
            let entry = &entries[i];
            let ghost commands0 = commands@;
            let ghost skipped0 = skipped@;
            assert(*entry == e[i as int]);
            assert(m.contains_key(e[i as int].0@));
            if is_reserved(reserved, entry.0.as_str()) {
                skipped.push(entry.0.clone());
            } else {
                commands.push(
                    CustomCommand { name: entry.0.clone(), template: entry.1.clone() },
                );
            }
            i += 1;
            proof {
                assert forall|b: int|
                    0 <= b < i && !res.contains((#[trigger] e[b]).0@) implies exists|a: int|
                    0 <= a < commands@.len() && (#[trigger] commands@[a]).name@ == e[b].0@ by {
                    if b == i - 1 {
                        assert(commands@[commands0.len() as int].name@ == e[b].0@);
                    } else {
                        let a = choose|a: int|
                            0 <= a < commands0.len() && (#[trigger] commands0[a]).name@
                                == e[b].0@;
                        assert(commands@[a].name@ == e[b].0@);
                    }
                }
                assert forall|b: int|
                    0 <= b < i && res.contains((#[trigger] e[b]).0@) implies exists|a: int|
                    0 <= a < skipped@.len() && (#[trigger] skipped@[a])@ == e[b].0@ by {
                    if b == i - 1 {
                        assert(skipped@[skipped0.len() as int]@ == e[b].0@);
                    } else {
                        let a = choose|a: int|
                            0 <= a < skipped0.len() && (#[trigger] skipped0[a])@ == e[b].0@;
                        assert(skipped@[a]@ == e[b].0@);
                    }
                }
            }
        }
        proof {
            assert forall|k: Seq<char>| texts(skipped@).contains(k) implies m.contains_key(k)
                && res.contains(k) by {
                let a = choose|a: int| 0 <= a < texts(skipped@).len() && texts(skipped@)[a] == k;
                assert(skipped@[a]@ == k);
            }
            assert forall|k: Seq<char>| m.contains_key(k) && res.contains(k) implies texts(
                skipped@,
            ).contains(k) by {
                let b = choose|b: int| 0 <= b < e.len() && (#[trigger] e[b]).0@ == k;
                let a = choose|a: int|
                    0 <= a < skipped@.len() && (#[trigger] skipped@[a])@ == e[b].0@;
                assert(texts(skipped@)[a] == k);
            }
            assert forall|k: Seq<char>| m.contains_key(k) && !res.contains(k) implies exists|
                a: int,
            | 0 <= a < commands@.len() && (#[trigger] commands@[a]).name@ == k by {
                let b = choose|b: int| 0 <= b < e.len() && (#[trigger] e[b]).0@ == k;
                assert(!res.contains(e[b].0@));
            }
        }
        (CustomCommandsProvider { commands }, skipped)
    }

    /// What the commands contribute: a prompt each, which takes effect by its command.
    pub fn capabilities(&self) -> (r: Vec<PromptSpec>)
        ensures
            r@.len() == self.commands@.len(),
            forall|i: int|
                0 <= i < r@.len() ==> (#[trigger] r@[i])@ == (PromptView {
                    id: self.commands@[i].name@,
                    text: self.commands@[i].template@,
                    activation: Activation::ByCommand,
                }),
    {
        let mut r: Vec<PromptSpec> = Vec::new();
        let mut i: usize = 0;
        while i < self.commands.len()
            invariant
                i <= self.commands@.len(),
                r@.len() == i,
                forall|k: int|
                    0 <= k < i ==> (#[trigger] r@[k])@ == (PromptView {
                        id: self.commands@[k].name@,
                        text: self.commands@[k].template@,
                        activation: Activation::ByCommand,
                    }),
            decreases self.commands@.len() - i,
        {
            let c = &self.commands[i];
            r.push(
                PromptSpec {
                    id: c.name.clone(),
                    text: c.template.clone(),
                    activation: Activation::ByCommand,
                },
            );
            i += 1;
        }
        r
    }
}

/// The nearest directory of the project's commands.
pub fn nearest_commands_dir(start: &str, has_git: &Vec<bool>, is_dir: &Vec<bool>) -> (r: Option<
    String,
>)
    requires
        has_git@.len() == ancestors(start@).len(),
        is_dir@.len() == dirs_of_project(start@, has_git@).len(),
    ensures
        opt_text(r) == nearest_dir(start@, has_git@, is_dir@, "commands"@),
{
    nearest_agents_dir(start, has_git, is_dir, "commands")
}

/// The arguments of a command are never lost, and neither is its template: where the template
/// does not say where they go they follow it, and where it does they take every such place and
/// nothing else of it changes.
pub proof fn arguments_reach_the_prompt(template: Seq<char>, args: Seq<char>)
    ensures
        find_from(template, "$ARGUMENTS"@, 0) matches Some(i) ==> rendered(template, args)
            == template.take(i) + args + replace(
            template.skip(i + "$ARGUMENTS"@.len()),
            "$ARGUMENTS"@,
            args,
        ),
        !contains(template, "$ARGUMENTS"@) && args.len() > 0 ==> rendered(template, args)
            == template + "\n\n"@ + args,
        !contains(template, "$ARGUMENTS"@) && args.len() == 0 ==> rendered(template, args)
            == template,
        args.len() > 0 ==> contains(rendered(template, args), args),
{
    reveal_strlit("$ARGUMENTS");
    replacing_goes_from_place_to_place(template, "$ARGUMENTS"@, args);
    let r = rendered(template, args);
    if contains(template, "$ARGUMENTS"@) {
        let i = found_place(template, "$ARGUMENTS"@);
        assert(r.subrange(i, i + args.len()) =~= args);
        lemma_contains(r, args, i);
    } else if args.len() > 0 {
        let i = (template.len() + "\n\n"@.len()) as int;
        assert(r.subrange(i, i + args.len()) =~= args);
        lemma_contains(r, args, i);
    }
}

/// A file of Markdown that is not blank is a command: the name of the file without the ending
/// is its name, and the text, whole, is its template.
pub proof fn markdown_files_are_commands(dir: Seq<char>, name: Seq<char>, text: Seq<char>)
    requires
        name.len() > 0,
        forall|i: int| 0 <= i < name.len() ==> #[trigger] name[i] != '/',
    ensures
        command_in(join_path(dir, name + ".md"@), text) == if is_blank(text) {
            None::<(Seq<char>, Seq<char>)>
        } else {
            Some((name, text))
        },
{
    reveal_strlit(".md");
    reveal_strlit("md");
    assert(name + ".md"@ =~= name.push('.') + "md"@);
    assert forall|i: int| 0 <= i < "md"@.len() implies #[trigger] "md"@[i] != '/' && "md"@[i]
        != '.' by {
        assert("md"@[0] == 'm' && "md"@[1] == 'd');
    }
    stems_and_endings_are_told_apart(dir, name, "md"@);
}

/// Files with another ending are no commands.
pub proof fn other_files_are_no_commands(path: Seq<char>, text: Seq<char>)
    ensures
        command_in(path, text) is Some ==> extension(path) == Some("md"@) && !is_blank(text),
        command_in(path, text) matches Some(c) ==> file_stem(path) == Some(c.0) && c.1 == text,
{
}

/// Of commands with one name the last counts, and the others stay as they were.
pub proof fn later_commands_count(commands: Seq<(String, String)>, c: (String, String), k: Seq<char>)
    ensures
        templates_by_name(commands.push(c)).contains_key(c.0@),
        templates_by_name(commands.push(c))[c.0@] == c.1,
        k != c.0@ ==> templates_by_name(commands.push(c)).contains_key(k) == templates_by_name(
            commands,
        ).contains_key(k),
        k != c.0@ && templates_by_name(commands).contains_key(k) ==> templates_by_name(
            commands.push(c),
        )[k] == templates_by_name(commands)[k],
        !templates_by_name(Seq::empty()).contains_key(k),
{
    assert(commands.push(c).drop_last() =~= commands);
}

/// Every command is there under its name unless the name is reserved, with its own template and
/// once only.
pub proof fn every_command_can_be_called(
    s: Seq<CustomCommand>,
    m: Map<Seq<char>, String>,
    reserved: Seq<Seq<char>>,
    k: Seq<char>,
    i: int,
    j: int,
)
    requires
        lists_commands(s, m, reserved),
    ensures
        m.contains_key(k) && !reserved.contains(k) <==> exists|n: int|
            0 <= n < s.len() && (#[trigger] s[n]).name@ == k,
        0 <= i < s.len() && s[i].name@ == k ==> s[i].template == m[k],
        0 <= i < s.len() && 0 <= j < s.len() && s[i].name@ == s[j].name@ ==> i == j,
{
    if 0 <= i < j < s.len() {
        texts_are_ordered(s[i].name@, s[j].name@, s[i].name@);
        assert(text_less(s[i].name@, s[j].name@));
    }
    if 0 <= j < i < s.len() {
        texts_are_ordered(s[j].name@, s[i].name@, s[j].name@);
        assert(text_less(s[j].name@, s[i].name@));
    }
}

/// The commands that are loaded are those of the user and of the project, the project's where both
/// have one name, each once; those with a reserved name are left out and named.
pub proof fn loaded_commands_can_be_called(
    user: Vec<(String, String)>,
    project: Vec<(String, String)>,
    reserved: Vec<&str>,
    r: (CustomCommandsProvider, Vec<String>),
    k: int,
)
    requires
        call_ensures(CustomCommandsProvider::load_from, (&user, &project, &reserved), r),
        0 <= k < project@.len(),
        forall|j: int| k < j < project@.len() ==> (#[trigger] project@[j]).0@ != project@[k].0@,
    ensures
        !strs(reserved@).contains(project@[k].0@) ==> exists|i: int|
            0 <= i < r.0.commands@.len() && (#[trigger] r.0.commands@[i]).name@ == project@[k].0@
                && r.0.commands@[i].template == project@[k].1,
        strs(reserved@).contains(project@[k].0@) ==> texts(r.1@).contains(project@[k].0@),
{
    let name = project@[k].0@;
    let m = templates_by_name(user@ + project@);
    lemma_last_template(project@, k);
    project_commands_shadow_user_commands(user@, project@, name);
    every_command_can_be_called(r.0.commands@, m, strs(reserved@), name, 0, 0);
    if !strs(reserved@).contains(name) {
        let i = choose|i: int|
            0 <= i < r.0.commands@.len() && (#[trigger] r.0.commands@[i]).name@ == name;
        assert(r.0.commands@[i].template == m[name]);
    }
}

proof fn lemma_last_template(commands: Seq<(String, String)>, k: int)
    requires
        0 <= k < commands.len(),
        forall|j: int| k < j < commands.len() ==> (#[trigger] commands[j]).0@ != commands[k].0@,
    ensures
        templates_by_name(commands).contains_key(commands[k].0@),
        templates_by_name(commands)[commands[k].0@] == commands[k].1,
    decreases commands.len(),
{
    if k < commands.len() - 1 {
        assert(commands.last().0@ != commands[k].0@);
        let rest = commands.drop_last();
        assert forall|j: int| k < j < rest.len() implies (#[trigger] rest[j]).0@ != rest[k].0@ by {
            assert(commands[j].0@ != commands[k].0@);
        }
        lemma_last_template(rest, k);
    }
}

/// Each command contributes its template, whole and under its name, which takes effect by that
/// command alone.
pub proof fn commands_contribute_their_templates(
    p: CustomCommandsProvider,
    r: Vec<PromptSpec>,
    i: int,
)
    requires
        call_ensures(CustomCommandsProvider::capabilities, (&p,), r),
        0 <= i < p.commands@.len(),
    ensures
        r@.len() == p.commands@.len(),
        r@[i].id@ == p.commands@[i].name@,
        r@[i].text@ == p.commands@[i].template@,
        r@[i].activation == Activation::ByCommand,
{
    assert(r@[i]@.id == r@[i].id@);
}

} // verus!
