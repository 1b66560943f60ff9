//! Slash commands: how they are read, and the ones that are built in.
use crate::text::{
    chars_of, contains, copy, is_blank, is_space, lemma_contains, lemma_find_is, lemma_find_none,
    lemma_trim_is, opt_text, split_at_first, split_once, stands_at, text_of, trim, trim_span,
    trimmed, trimming_twice_is_trimming_once,
};
use vstd::prelude::*;

verus! {

/// A slash command as typed: its name and its arguments. There is none without a slash in
/// front, and none in a slash alone.
pub open spec fn slash_command(input: Seq<char>) -> Option<(Seq<char>, Seq<char>)> {
    let t = trim(input);
    if t.len() < 2 || t[0] != '/' {
        None
    } else {
        match split_once(t.skip(1), " "@) {
            Some((name, args)) => Some((name, trim(args))),
            None => Some((t.skip(1), ""@)),
        }
    }
}

/// The name and the arguments of a slash command.
pub fn parse_slash_command(input: &str) -> (r: Option<(String, String)>)
    ensures
        (r is Some) == (slash_command(input@) is Some),
        r matches Some(c) ==> slash_command(input@) == Some((c.0@, c.1@)),
{
    let t = trimmed(input);
    let v = chars_of(t.as_str());
    if v.len() < 2 || v[0] != '/' {
        return None;
    }
    let rest = text_of(&v, 1, v.len());
    assert(rest@ =~= t@.skip(1));
    match split_at_first(rest.as_str(), " ") {
        Some((name, args)) => Some((name, trimmed(args.as_str()))),
        None => Some((rest, copy(""))),
    }
}

/// A built-in command.
#[derive(Clone, Copy, Debug, PartialEq, Eq, Structural)]
pub enum BuiltIn {
    New,
    Clear,
    Compact,
}

impl BuiltIn {
    pub open spec fn command_name(self) -> Seq<char> {
        match self {
            BuiltIn::New => "new"@,
            BuiltIn::Clear => "clear"@,
            BuiltIn::Compact => "compact"@,
        }
    }

    pub fn name(&self) -> (r: &'static str)
        ensures
            r@ == self.command_name(),
    {
        match self {
            BuiltIn::New => "new",
            BuiltIn::Clear => "clear",
            BuiltIn::Compact => "compact",
        }
    }

    pub fn description(&self) -> (r: &'static str)
        ensures
            r@ == (match *self {
                BuiltIn::New => "Start a new session"@,
                BuiltIn::Clear => "Clear the current session"@,
                BuiltIn::Compact => "Compact session history with an optional hint"@,
            }),
    {
        match self {
            BuiltIn::New => "Start a new session",
            BuiltIn::Clear => "Clear the current session",
            BuiltIn::Compact => "Compact session history with an optional hint",
        }
    }

    pub fn usage(&self) -> (r: &'static str)
        ensures
            r@ == (match *self {
                BuiltIn::New => "/new"@,
                BuiltIn::Clear => "/clear"@,
                BuiltIn::Compact => "/compact [hint]"@,
            }),
    {
        match self {
            BuiltIn::New => "/new",
            BuiltIn::Clear => "/clear",
            BuiltIn::Compact => "/compact [hint]",
        }
    }

    /// What the user is told once the command is done in the session `id`.
    pub fn done(&self, id: &str) -> (r: String)
        ensures
            r@ == (match *self {
                BuiltIn::New => "[new session started: "@,
                BuiltIn::Clear => "[session cleared: "@,
                BuiltIn::Compact => "[session compacted: "@,
            }) + id@ + "]"@,
    {
        let mut r = copy(
            match self {
                BuiltIn::New => "[new session started: ",
                BuiltIn::Clear => "[session cleared: ",
                BuiltIn::Compact => "[session compacted: ",
            },
        );
        r.append(id);
        r.append("]");
        r
    }
}

/// The built-in commands, in order.
pub fn built_ins() -> (r: Vec<BuiltIn>)
    ensures
        r@ == seq![BuiltIn::New, BuiltIn::Clear, BuiltIn::Compact],
{
    let r = vec![BuiltIn::New, BuiltIn::Clear, BuiltIn::Compact];
    assert(r@ =~= seq![BuiltIn::New, BuiltIn::Clear, BuiltIn::Compact]);
    r
}

/// The hint in the arguments of `/compact`: the arguments trimmed, unless nothing is left.
pub fn compact_hint(args: &str) -> (r: Option<String>)
    ensures
        opt_text(r) == (if is_blank(args@) {
            None
        } else {
            Some(trim(args@))
        }),
{
    let t = trimmed(args);
    if t.as_str().is_empty() {
        None
    } else {
        Some(t)
    }
}

/// A command that is typed as a slash, a name without white space, a space and arguments is
/// read as that name and those arguments, trimmed.
pub proof fn typed_commands_read_back(name: Seq<char>, args: Seq<char>)
    requires
        name.len() > 0,
        forall|i: int| 0 <= i < name.len() ==> !is_space(#[trigger] name[i]),
    ensures
        slash_command("/"@ + name + " "@ + args) == Some((name, trim(args))),
{
    reveal_strlit("/");
    reveal_strlit(" ");
    reveal_strlit("");
    let n = name.len() as int;
    let s = "/"@ + name + " "@ + args;
    let (a, b) = trim_span(args);
    assert(s[0] == '/');
    assert(s[n + 1] == ' ');
    assert forall|k: int| 0 <= k < args.len() implies s[n + 2 + k] == #[trigger] args[k] by {}
    assert forall|k: int| 0 <= k < n implies s[1 + k] == #[trigger] name[k] by {}
    if a < b {
        assert forall|k: int| n + 2 + b <= k < s.len() implies is_space(#[trigger] s[k]) by {
            assert(s[k] == args[k - n - 2]);
        }
        assert(s[n + 2 + b - 1] == args[b - 1]);
        lemma_trim_is(s, 0, n + 2 + b);
        let t = trim(s);
        let u = t.skip(1);
        assert(u =~= name + " "@ + args.take(b));
        assert(u.subrange(n, n + 1) =~= " "@);
        assert forall|k: int| 0 <= k < n implies !stands_at(u, " "@, k) by {
            assert(u.subrange(k, k + 1)[0] == name[k]);
        }
        lemma_find_is(u, " "@, 0, n);
        assert(u.take(n) =~= name);
        assert(u.skip(n + 1) =~= args.take(b));
        lemma_trim_is(args.take(b), a, b);
        assert(args.take(b).subrange(a, b) =~= args.subrange(a, b));
    } else {
        assert forall|k: int| n + 1 <= k < s.len() implies is_space(#[trigger] s[k]) by {
            if k > n + 1 {
                assert(s[k] == args[k - n - 2]);
            }
        }
        assert(s[n] == name[n - 1]);
        lemma_trim_is(s, 0, n + 1);
        let u = trim(s).skip(1);
        assert(u =~= name);
        assert forall|k: int| 0 <= k <= u.len() implies !stands_at(u, " "@, k) by {
            if k < u.len() {
                assert(u.subrange(k, k + 1)[0] == name[k]);
            }
        }
        lemma_find_none(u, " "@, 0);
        assert(trim(args) =~= ""@);
    }
}

/// White space around a command does not count, and without a slash in front there is none.
pub proof fn reading_ignores_space_around(input: Seq<char>)
    ensures
        slash_command(input) == slash_command(trim(input)),
        trim(input).len() > 0 && trim(input)[0] != '/' ==> slash_command(input) is None,
        is_blank(input) ==> slash_command(input) is None,
        trim(input).len() == 1 ==> slash_command(input) is None,
{
    trimming_twice_is_trimming_once(input);
}

/// A slash and a name without white space is a command of that name without arguments.
pub proof fn lone_commands_read_back(name: Seq<char>)
    requires
        name.len() > 0,
        forall|i: int| 0 <= i < name.len() ==> !is_space(#[trigger] name[i]),
    ensures
        slash_command("/"@ + name) == Some((name, ""@)),
{
    reveal_strlit("/");
    reveal_strlit(" ");
    let t = "/"@ + name;
    assert(t[0] == '/');
    assert(t.last() == name.last());
    trimming_twice_is_trimming_once(t);
    assert(t.skip(1) =~= name);
    assert forall|k: int| 0 <= k <= name.len() implies !stands_at(name, " "@, k) by {
        if stands_at(name, " "@, k) {
            assert(name.subrange(k, k + 1)[0] == name[k]);
            assert(is_space(name[k]));
        }
    }
    lemma_find_none(name, " "@, 0);
}

/// No two built-in commands have the same name.
pub proof fn built_ins_are_told_apart(a: BuiltIn, b: BuiltIn)
    ensures
        a.command_name() == b.command_name() ==> a == b,
{
    reveal_strlit("new");
    reveal_strlit("clear");
    reveal_strlit("compact");
    assert("new"@.len() == 3 && "clear"@.len() == 5 && "compact"@.len() == 7);
}

/// A hint to compaction is what was typed, trimmed, and there is none where nothing was.
pub proof fn hints_are_taken_as_typed(args: &str, r: Option<String>)
    requires
        call_ensures(compact_hint, (args,), r),
    ensures
        (r is None) == is_blank(args@),
        r matches Some(h) ==> h@ == trim(args@) && h@.len() > 0,
{
}

/// Every built-in command is offered, and when it is done the user is told in which session.
pub proof fn every_built_in_is_offered(b: BuiltIn, all: Vec<BuiltIn>, id: &str, done: String)
    requires
        call_ensures(built_ins, (), all),
        call_ensures(BuiltIn::done, (&b, id), done),
    ensures
        all@.contains(b),
        contains(done@, id@),
{
    assert(all@[0] == BuiltIn::New && all@[1] == BuiltIn::Clear && all@[2] == BuiltIn::Compact);
    let at = match b {
        BuiltIn::New => "[new session started: "@.len() as int,
        BuiltIn::Clear => "[session cleared: "@.len() as int,
        BuiltIn::Compact => "[session compacted: "@.len() as int,
    };
    assert(done@.subrange(at, at + id@.len()) =~= id@);
    lemma_contains(done@, id@, at);
}

} // verus!
