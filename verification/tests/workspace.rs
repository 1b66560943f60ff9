use shirl::agents_md::{
    find_agents_md_in, format_prompt, is_agents_md_name, load_from, load_project_level,
    load_user_level, read_if_exists, user_level_path, AgentsMd, DirEntry, DirListing, Instructions,
};
use shirl::custom_commands::{
    nearest_commands_dir, read_command, render_template, reserved_warning, CustomCommandsProvider,
};
use shirl::discovery::{find_git_root, nearest_agents_dir, project_dirs, project_root};
use shirl::file_path::path_ancestors;
use shirl::prompt::{Activation, PromptSpec};
use shirl::skills::{
    enumerate_resources, first_description_line, fold_block_scalar, format_catalog,
    nearest_skills_dir, parse_skill, split_front_matter, Skill, SkillsProvider,
};
use shirl::slash::{built_ins, compact_hint, parse_slash_command, BuiltIn};

fn strings(v: &[&str]) -> Vec<String> {
    v.iter().map(|s| s.to_string()).collect()
}

/// Which of `start` and the directories around it are in `with`.
fn flags(start: &str, with: &[&str]) -> Vec<bool> {
    path_ancestors(start).iter().map(|d| with.contains(&d.as_str())).collect()
}

#[test]
fn find_git_root_returns_dir_containing_git() {
    let sub = "/tmp/repo/crates/shirl-core/src";
    assert_eq!(find_git_root(sub, &flags(sub, &["/tmp/repo"])).as_deref(), Some("/tmp/repo"));
}

#[test]
fn find_git_root_returns_none_when_no_git_ancestor() {
    let sub = "/tmp/x/a/b";
    assert_eq!(find_git_root(sub, &flags(sub, &[])), None);
}

#[test]
fn project_dirs_walks_from_start_up_to_git_root() {
    let sub = "/tmp/repo/crates/shirl-core";
    let dirs = project_dirs(sub, &flags(sub, &["/tmp/repo", "/"]));
    assert_eq!(dirs.first().unwrap(), sub);
    assert_eq!(dirs.last().unwrap(), "/tmp/repo");
    assert_eq!(dirs.len(), 3);
}

#[test]
fn project_dirs_without_git_yields_only_start() {
    let sub = "/tmp/x/a/b";
    assert_eq!(project_dirs(sub, &flags(sub, &[])), vec![sub]);
}

#[test]
fn project_scope_uses_git_root() {
    let root = "/tmp/repo";
    let sub = "/tmp/repo/crates/x";
    assert_eq!(project_root(root, &flags(root, &[root])), root);
    assert_eq!(project_root(sub, &flags(sub, &[root])), root);
}

#[test]
fn project_scope_outside_repo_uses_start_dir() {
    assert_eq!(project_root("/tmp/x", &flags("/tmp/x", &[])), "/tmp/x");
}

#[test]
fn the_nearest_agents_directory_is_taken() {
    let sub = "/r/a/b";
    let git = flags(sub, &["/r"]);
    assert_eq!(
        nearest_skills_dir(sub, &git, &vec![false, true, true]).as_deref(),
        Some("/r/a/.agents/skills")
    );
    assert_eq!(
        nearest_commands_dir(sub, &git, &vec![false, false, true]).as_deref(),
        Some("/r/.agents/commands")
    );
    assert_eq!(nearest_agents_dir(sub, &git, &vec![false, false, false], "skills"), None);
}

// Instructions ---------------------------------------------------------------

fn entry(name: &str, content: &str) -> DirEntry {
    DirEntry { name: name.to_string(), is_file: true, content: Some(content.to_string()) }
}

fn listing(dir: &str, entries: Vec<DirEntry>) -> DirListing {
    DirListing { dir: dir.to_string(), entries }
}

fn instructions(path: &str, content: &str) -> Instructions {
    Instructions { path: path.to_string(), content: content.to_string() }
}

#[test]
fn format_prompt_includes_path_header_and_content() {
    let result = format_prompt("/home/user/.shirl/AGENTS.md", "use tabs not spaces");
    assert!(result.starts_with("Instructions from: /home/user/.shirl/AGENTS.md\n"));
    assert!(result.ends_with("use tabs not spaces"));
}

#[test]
fn no_agents_md_anywhere_produces_no_capabilities() {
    let ext = AgentsMd { user: None, project: None };
    assert!(ext.capabilities().is_empty());
}

#[test]
fn user_level_only_produces_one_prompt() {
    let ext = AgentsMd {
        user: Some(instructions("/home/user/.shirl/AGENTS.md", "prefer short functions")),
        project: None,
    };
    let caps = ext.capabilities();
    assert_eq!(caps.len(), 1);
    assert!(caps[0].text.contains("Instructions from: /home/user/.shirl/AGENTS.md"));
    assert!(caps[0].text.contains("prefer short functions"));
}

#[test]
fn project_level_only_produces_one_prompt() {
    let ext = AgentsMd {
        user: None,
        project: Some(instructions("/project/AGENTS.md", "follow existing patterns")),
    };
    let caps = ext.capabilities();
    assert_eq!(caps.len(), 1);
    assert!(caps[0].text.contains("Instructions from: /project/AGENTS.md"));
    assert!(caps[0].text.contains("follow existing patterns"));
}

#[test]
fn both_levels_produce_two_prompts_user_first() {
    let ext = AgentsMd {
        user: Some(instructions("/home/user/.shirl/AGENTS.md", "user instructions")),
        project: Some(instructions("/project/AGENTS.md", "project instructions")),
    };
    let caps = ext.capabilities();
    assert_eq!(caps.len(), 2);
    assert_eq!(caps[0].id, "agents_md_user");
    assert!(caps[0].text.contains("user instructions"));
    assert_eq!(caps[1].id, "agents_md_project");
    assert!(caps[1].text.contains("project instructions"));
}

#[test]
fn find_agents_md_finds_exact_case() {
    let result = find_agents_md_in(&listing("/p", vec![entry("AGENTS.md", "hello")]));
    assert_eq!(result, Some(instructions("/p/AGENTS.md", "hello")));
}

#[test]
fn find_agents_md_is_case_insensitive() {
    let result = find_agents_md_in(&listing("/p", vec![entry("agents.md", "lowercase")]));
    assert_eq!(result.unwrap().content, "lowercase");
}

#[test]
fn find_agents_md_returns_none_when_missing() {
    assert!(find_agents_md_in(&listing("/p", vec![])).is_none());
    assert!(find_agents_md_in(&listing("/p", vec![entry("README.md", "x")])).is_none());
}

#[test]
fn the_exact_name_goes_before_variants() {
    let l = listing(
        "/p",
        vec![entry("agents.md", "one"), entry("Agents.md", "two"), entry("AGENTS.md", "exact")],
    );
    assert_eq!(find_agents_md_in(&l).unwrap().content, "exact");
    let l = listing(
        "/p",
        vec![entry("agents.md", "one"), entry("Agents.md", "two"), entry("AGENTS.md", "  ")],
    );
    assert_eq!(find_agents_md_in(&l).unwrap().content, "one");
    assert!(is_agents_md_name("aGeNtS.Md"));
    assert!(!is_agents_md_name("AGENTS.txt"));
}

#[test]
fn read_if_exists_returns_none_for_missing_file() {
    assert!(read_if_exists("/no/such/file", false, &None).is_none());
}

#[test]
fn read_if_exists_returns_none_for_empty_content() {
    assert!(read_if_exists("/p/AGENTS.md", true, &Some("   \n\t\n  ".to_string())).is_none());
    assert!(read_if_exists("/p/AGENTS.md", false, &Some("x".to_string())).is_none());
}

#[test]
fn read_if_exists_returns_content_for_real_file() {
    let result = read_if_exists("/p/AGENTS.md", true, &Some("use rustfmt".to_string()));
    assert_eq!(result.unwrap().content, "use rustfmt");
}

#[test]
fn load_from_finds_agents_md_in_start_dir() {
    let ext = load_from(None, &vec![listing("/p", vec![entry("AGENTS.md", "project rules")])]);
    assert_eq!(ext.project.unwrap().content, "project rules");
}

#[test]
fn load_from_finds_agents_md_in_parent_when_start_dir_is_subdir() {
    let listings = vec![
        listing("/r/crates/x", vec![]),
        listing("/r/crates", vec![]),
        listing("/r", vec![entry("AGENTS.md", "root-level rules")]),
    ];
    assert_eq!(load_project_level(&listings).unwrap().content, "root-level rules");
}

#[test]
fn load_from_prefers_start_dir_agents_md_over_parent() {
    let listings = vec![
        listing("/r/subdir", vec![entry("AGENTS.md", "subdir rules")]),
        listing("/r", vec![entry("AGENTS.md", "root-level rules")]),
    ];
    assert_eq!(load_from(None, &listings).project.unwrap().content, "subdir rules");
}

#[test]
fn load_from_returns_none_when_no_agents_md() {
    assert!(load_from(None, &vec![listing("/p", vec![])]).project.is_none());
}

#[test]
fn user_instructions_need_a_home() {
    let content = Some("x".to_string());
    assert!(load_user_level(None, true, &content).is_none());
    assert_eq!(
        load_user_level(Some("/h/.shirl"), true, &content),
        Some(instructions("/h/.shirl/AGENTS.md", "x"))
    );
    assert_eq!(user_level_path("/h/.shirl"), "/h/.shirl/AGENTS.md");
}

// Custom commands ------------------------------------------------------------

fn commands(v: &[(&str, &str)]) -> Vec<(String, String)> {
    v.iter().map(|(a, b)| (a.to_string(), b.to_string())).collect()
}

fn names(provider: &CustomCommandsProvider) -> Vec<&str> {
    provider.commands.iter().map(|c| c.name.as_str()).collect()
}

#[test]
fn empty_dirs_produce_no_commands() {
    let (provider, skipped) = CustomCommandsProvider::load_from(&vec![], &vec![], &vec![]);
    assert!(provider.capabilities().is_empty());
    assert!(skipped.is_empty());
}

#[test]
fn loads_user_level_commands() {
    let read = read_command("/u/summarize.md", "Summarize:\n\n$ARGUMENTS").unwrap();
    let (provider, _) = CustomCommandsProvider::load_from(&vec![read], &vec![], &vec![]);
    assert_eq!(names(&provider), vec!["summarize"]);
    assert_eq!(
        provider.capabilities(),
        vec![PromptSpec {
            id: "summarize".to_string(),
            text: "Summarize:\n\n$ARGUMENTS".to_string(),
            activation: Activation::ByCommand,
        }]
    );
}

#[test]
fn loads_project_level_commands() {
    let (provider, _) =
        CustomCommandsProvider::load_from(&vec![], &commands(&[("deploy", "deploy it")]), &vec![]);
    assert_eq!(names(&provider), vec!["deploy"]);
}

#[test]
fn custom_commands_project_level_shadows_user_level() {
    let (provider, _) = CustomCommandsProvider::load_from(
        &commands(&[("deploy", "user version")]),
        &commands(&[("deploy", "project version")]),
        &vec![],
    );
    assert_eq!(provider.commands.len(), 1);
    assert_eq!(provider.commands[0].template, "project version");
}

#[test]
fn non_md_files_and_empty_files_are_ignored() {
    assert_eq!(
        read_command("/c/keep.md", "real"),
        Some(("keep".to_string(), "real".to_string()))
    );
    assert_eq!(read_command("/c/notes.txt", "ignored"), None);
    assert_eq!(read_command("/c/blank.md", "   \n\t  "), None);
    assert_eq!(read_command("/c/.md", "hidden"), None);
    assert_eq!(read_command("/c/UP.MD", "upper"), None);
}

#[test]
fn reserved_names_are_skipped() {
    let (provider, skipped) = CustomCommandsProvider::load_from(
        &commands(&[("compact", "shadow built-in"), ("summarize", "fine")]),
        &vec![],
        &vec!["compact"],
    );
    assert_eq!(names(&provider), vec!["summarize"]);
    assert_eq!(skipped, vec!["compact"]);
    assert_eq!(
        reserved_warning("compact"),
        "shirl: skipping custom command '/compact' — name is reserved by a built-in"
    );
}

#[test]
fn commands_come_in_order() {
    let (provider, _) = CustomCommandsProvider::load_from(
        &commands(&[("zeta", "1"), ("alpha", "2"), ("Beta", "3")]),
        &commands(&[("mid", "4")]),
        &vec![],
    );
    assert_eq!(names(&provider), vec!["Beta", "alpha", "mid", "zeta"]);
}

#[test]
fn render_template_substitutes_arguments() {
    assert_eq!(
        render_template("Summarize:\n\n$ARGUMENTS", "the auth module"),
        "Summarize:\n\nthe auth module"
    );
    assert_eq!(render_template("$ARGUMENTS-$ARGUMENTS", "a"), "a-a");
    assert_eq!(render_template("x$ARGUMENTSy", ""), "xy");
}

#[test]
fn render_template_appends_when_no_placeholder() {
    assert_eq!(render_template("Review this", "src/lib.rs"), "Review this\n\nsrc/lib.rs");
}

#[test]
fn render_template_verbatim_when_no_args() {
    assert_eq!(render_template("Just do it", ""), "Just do it");
}

// Skills ---------------------------------------------------------------------

fn parsed(dir: &str, content: &str) -> Option<Skill> {
    parse_skill(dir, content, vec![]).0
}

#[test]
fn parses_frontmatter_and_body() {
    let skill = parsed(
        "/s/deploy",
        "---\nname: deploy\ndescription: Ship the app\nalwaysApply: false\n---\nStep 1. Do it.",
    )
    .unwrap();
    assert_eq!(skill.name, "deploy");
    assert_eq!(skill.description, "Ship the app");
    assert!(!skill.always_apply);
    assert_eq!(skill.body, "Step 1. Do it.");
    assert_eq!(skill.skill_dir, "/s/deploy");
}

#[test]
fn folded_block_scalar_description_is_joined() {
    let skill = parsed(
        "/s/deploy",
        "---\nname: deploy\ndescription: >-\n  Ship the app to prod\n  when the user asks.\nalwaysApply: false\n---\nbody",
    )
    .unwrap();
    assert_eq!(skill.description, "Ship the app to prod when the user asks.");
    assert!(!skill.always_apply);
}

#[test]
fn literal_block_scalar_description_is_joined() {
    let skill = parsed(
        "/s/deploy",
        "---\nname: deploy\ndescription: |\n  line one\n  line two\n---\nbody",
    )
    .unwrap();
    assert_eq!(skill.description, "line one line two");
}

#[test]
fn no_frontmatter_uses_dir_name_and_first_body_line() {
    let skill = parsed("/s/notes", "# Heading\n\nUse the notes carefully.").unwrap();
    assert_eq!(skill.name, "notes");
    assert_eq!(skill.description, "Use the notes carefully.");
    assert!(!skill.always_apply);
}

#[test]
fn skill_without_description_is_skipped() {
    let (skill, warnings) = parse_skill("/s/empty", "---\nname: empty\n---\n", vec![]);
    assert!(skill.is_none());
    assert_eq!(
        warnings,
        vec!["shirl: skipping skill 'empty' — no description in frontmatter or body"]
    );
    assert!(parse_skill("/s/blank", " \n ", vec![]).0.is_none());
    assert!(parse_skill("/", "---\nname: x\n---\nbody", vec![]).0.is_none());
}

#[test]
fn a_name_that_is_not_the_directorys_is_warned_of() {
    let (skill, warnings) = parse_skill("/s/dir", "---\nname: other\n---\nbody", vec![]);
    assert_eq!(skill.unwrap().name, "other");
    assert_eq!(
        warnings,
        vec!["shirl: skill 'other' does not match its directory name 'dir'"]
    );
}

#[test]
fn always_apply_skill_emits_body_capability_and_no_catalog() {
    let skill = parsed(
        "/s/house-rules",
        "---\nname: house-rules\ndescription: repo rules\nalwaysApply: true\n---\nAlways run fmt.",
    )
    .unwrap();
    let caps = SkillsProvider::load_from(vec![skill], vec![]).capabilities();
    assert_eq!(caps.len(), 1);
    assert_eq!(caps[0].id, "skill_house-rules");
    assert_eq!(caps[0].text, "Always run fmt.");
}

#[test]
fn discoverable_skill_emits_catalog_with_dir_and_resources() {
    let resources = enumerate_resources(&strings(&["build.sh"]), &vec![], &vec![]);
    let (skill, _) = parse_skill(
        "/s/js-frontend",
        "---\nname: js-frontend\ndescription: JS conventions\n---\nbody",
        resources,
    );
    let caps = SkillsProvider::load_from(vec![skill.unwrap()], vec![]).capabilities();
    assert_eq!(caps.len(), 1);
    assert_eq!(caps[0].id, "skills_catalog");
    let text = &caps[0].text;
    assert!(text.contains("name: js-frontend"));
    assert!(text.contains("description: JS conventions"));
    assert!(text.contains("/s/js-frontend"));
    assert!(text.contains("scripts/build.sh"));
}

#[test]
fn resource_enumeration_ignores_other_subdirs() {
    let f = strings(&["f.txt"]);
    assert_eq!(
        enumerate_resources(&f, &f, &f),
        vec!["assets/f.txt", "references/f.txt", "scripts/f.txt"]
    );
    assert_eq!(
        enumerate_resources(&strings(&["b", "a"]), &vec![], &vec![]),
        vec!["scripts/a", "scripts/b"]
    );
}

#[test]
fn skills_project_level_shadows_user_level() {
    let user =
        parsed("/u/deploy", "---\nname: deploy\ndescription: user deploy\n---\nuser body").unwrap();
    let project = parsed(
        "/p/deploy",
        "---\nname: deploy\ndescription: project deploy\nalwaysApply: true\n---\nproject body",
    )
    .unwrap();
    let provider = SkillsProvider::load_from(vec![user], vec![project]);
    assert_eq!(provider.skills.len(), 1);
    assert_eq!(provider.skills[0].description, "project deploy");
    assert!(provider.skills[0].always_apply);
}

#[test]
fn empty_provider_has_no_capabilities() {
    let provider = SkillsProvider::load_from(vec![], vec![]);
    assert!(provider.capabilities().is_empty());
}

#[test]
fn skills_come_in_order_and_bodies_before_the_catalog() {
    let a = parsed("/s/a", "---\ndescription: A\n---\nbody a").unwrap();
    let b = parsed("/s/b", "---\ndescription: B\nalwaysApply: TRUE\n---\nbody b").unwrap();
    let c = parsed("/s/c", "---\ndescription: C\n---\nbody c").unwrap();
    let provider = SkillsProvider::load_from(vec![c, a], vec![b]);
    let found: Vec<&str> = provider.skills.iter().map(|s| s.name.as_str()).collect();
    assert_eq!(found, vec!["a", "b", "c"]);
    let caps = provider.capabilities();
    assert_eq!(caps.len(), 2);
    assert_eq!(caps[0].id, "skill_b");
    assert_eq!(
        caps[1].text,
        "Available skills — when a task matches a skill's description, read its SKILL.md to load \
full instructions; resolve resource paths against the skill's directory:\n\
\n- name: a\n  description: A\n  skill_dir: /s/a\n\
\n- name: c\n  description: C\n  skill_dir: /s/c\n"
    );
    assert_eq!(format_catalog(&provider.skills), caps[1].text);
}

#[test]
fn front_matter_needs_both_fences() {
    assert_eq!(
        split_front_matter("---\na: 1\n---\nx\ny\n"),
        (Some("a: 1\n".to_string()), "x\ny".to_string())
    );
    assert_eq!(split_front_matter("---\na: 1\n"), (None, "---\na: 1\n".to_string()));
    assert_eq!(split_front_matter("text"), (None, "text".to_string()));
    assert_eq!(split_front_matter(""), (None, String::new()));
    assert_eq!(
        split_front_matter(" --- \r\nk: v\r\n---\r\nbody"),
        (Some("k: v\n".to_string()), "body".to_string())
    );
}

#[test]
fn block_scalars_end_at_an_unindented_line() {
    let lines = strings(&["  one", "", "\ttwo", "next: x", "  no"]);
    assert_eq!(fold_block_scalar(&lines, 0), ("one two".to_string(), 3));
    assert_eq!(fold_block_scalar(&lines, 3), (String::new(), 0));
    assert_eq!(fold_block_scalar(&lines, 5), (String::new(), 0));
}

#[test]
fn descriptions_skip_headings_and_blanks() {
    assert_eq!(first_description_line("\n# T\n  ## U\n  text  \nmore").as_deref(), Some("text"));
    assert_eq!(first_description_line("# only\n"), None);
}

// Slash commands -------------------------------------------------------------

#[test]
fn parses_slash_command_name_and_args() {
    let pair = |a: &str, b: &str| Some((a.to_string(), b.to_string()));
    assert_eq!(parse_slash_command("/clear"), pair("clear", ""));
    assert_eq!(
        parse_slash_command("  /compact keep decisions  "),
        pair("compact", "keep decisions")
    );
    assert_eq!(parse_slash_command("plain text"), None);
    assert_eq!(parse_slash_command("/"), None);
    assert_eq!(parse_slash_command("/a\tb c"), pair("a\tb", "c"));
}

#[test]
fn built_ins_produce_command_capabilities() {
    let found: Vec<&str> = built_ins().iter().map(|b| b.name()).collect();
    assert_eq!(found, vec!["new", "clear", "compact"]);
    assert_eq!(BuiltIn::Compact.usage(), "/compact [hint]");
    assert_eq!(BuiltIn::Clear.description(), "Clear the current session");
}

#[test]
fn built_in_commands_say_what_they_did() {
    assert_eq!(BuiltIn::Clear.done("id"), "[session cleared: id]");
    assert_eq!(BuiltIn::New.done("id"), "[new session started: id]");
    assert_eq!(BuiltIn::Compact.done("id"), "[session compacted: id]");
    assert_eq!(compact_hint("  keep  "), Some("keep".to_string()));
    assert_eq!(compact_hint("   "), None);
}
