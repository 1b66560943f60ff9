//! Asking the user before a tool runs: what the answer is, and what the user is shown.
use crate::args::{ArgValue, flag_field, list_field, text_field};
use crate::command::Command;
use crate::text::{
    at, chars_of, contains, copy, find_from, found_place, has_text, lemma_contains, lower_char,
    lowering_maps_capitals_only, opt_str, opt_text, replace, replaced,
    replacing_goes_from_place_to_place, same, split_at_first, stands_at,
};
use vstd::prelude::*;

verus! {

// ---------------------------------------------------------------------------
// The answer
// ---------------------------------------------------------------------------
/// What the user decides.
#[derive(Clone, Copy, Debug, PartialEq, Eq, Structural)]
pub enum ApprovalDecision {
    Allow,
    AllowSession,
    Deny,
}

/// What came of asking.
#[derive(Clone, Copy, Debug, PartialEq, Eq, Structural)]
pub enum ApprovalOutcome {
    Answered,
    /// The whole turn is to be cancelled.
    Cancelled,
}

/// What a command comes to while an approval is asked for.
#[derive(Debug, PartialEq, Eq)]
pub enum ApprovalStep {
    Answer(ApprovalDecision),
    CancelTurn,
    /// The line is kept for later.
    Stash(String),
    Ignore,
}

/// What a key decides.
pub open spec fn key_decision(key: char) -> Option<ApprovalDecision> {
    if key == 'y' || key == 'Y' {
        Some(ApprovalDecision::Allow)
    } else if key == 'a' || key == 'A' {
        Some(ApprovalDecision::AllowSession)
    } else if key == 'n' || key == 'N' {
        Some(ApprovalDecision::Deny)
    } else {
        None
    }
}

/// What a command comes to; without one, no more will come.
pub open spec fn approval_effect(command: Option<Command>) -> ApprovalStep {
    match command {
        Some(Command::ApprovalKey(key)) => match key_decision(key) {
            Some(d) => ApprovalStep::Answer(d),
            None => ApprovalStep::Ignore,
        },
        Some(Command::Cancel) => ApprovalStep::CancelTurn,
        Some(Command::Exit) => ApprovalStep::CancelTurn,
        None => ApprovalStep::CancelTurn,
        Some(Command::Submit(line)) => ApprovalStep::Stash(line),
        Some(_) => ApprovalStep::Ignore,
    }
}

/// What a command comes to while an approval is asked for.
pub fn approval_step(command: Option<Command>) -> (r: ApprovalStep)
    ensures
        r == approval_effect(command),
{
    match command {
        Some(Command::ApprovalKey(key)) => {
            if key == 'y' || key == 'Y' {
                ApprovalStep::Answer(ApprovalDecision::Allow)
            } else if key == 'a' || key == 'A' {
                ApprovalStep::Answer(ApprovalDecision::AllowSession)
            } else if key == 'n' || key == 'N' {
                ApprovalStep::Answer(ApprovalDecision::Deny)
            } else {
                ApprovalStep::Ignore
            }
        },
        Some(Command::Cancel) => ApprovalStep::CancelTurn,
        Some(Command::Exit) => ApprovalStep::CancelTurn,
        None => ApprovalStep::CancelTurn,
        Some(Command::Submit(line)) => ApprovalStep::Stash(line),
        Some(_) => ApprovalStep::Ignore,
    }
}

/// What came of asking, once a decision was made or the turn was cancelled.
pub fn approval_outcome(decision: Option<ApprovalDecision>) -> (r: ApprovalOutcome)
    ensures
        r == (if decision is Some {
            ApprovalOutcome::Answered
        } else {
            ApprovalOutcome::Cancelled
        }),
{
    match decision {
        Some(_) => ApprovalOutcome::Answered,
        None => ApprovalOutcome::Cancelled,
    }
}

/// A tool is allowed by a yes or an always alone: no other command lets it run.
pub proof fn only_a_key_allows(command: Option<Command>)
    ensures
        approval_effect(command) == ApprovalStep::Answer(ApprovalDecision::Allow) ==> command
            == Some(Command::ApprovalKey('y')) || command == Some(Command::ApprovalKey('Y')),
        approval_effect(command) == ApprovalStep::Answer(ApprovalDecision::AllowSession) ==> command
            == Some(Command::ApprovalKey('a')) || command == Some(Command::ApprovalKey('A')),
{
}

// ---------------------------------------------------------------------------
// Replacing text
// ---------------------------------------------------------------------------
/// How often `p` stands in `s` from `i` on, without overlaps.
pub open spec fn count_from(s: Seq<char>, p: Seq<char>, i: int) -> nat
    decreases s.len() - i,
{
    if p.len() == 0 || i < 0 || i >= s.len() {
        0
    } else if stands_at(s, p, i) {
        1 + count_from(s, p, i + p.len())
    } else {
        count_from(s, p, i + 1)
    }
}

/// How often `p` stands in `s`. The empty text stands before every character and at the end.
pub open spec fn occurrences(s: Seq<char>, p: Seq<char>) -> nat {
    if p.len() == 0 {
        s.len() + 1
    } else {
        count_from(s, p, 0)
    }
}

/// `s` with the first `p` replaced by `r`.
pub open spec fn replace_first(s: Seq<char>, p: Seq<char>, r: Seq<char>) -> Seq<char> {
    match find_from(s, p, 0) {
        Some(i) => s.take(i) + r + s.skip(i + p.len()),
        None => s,
    }
}

/// `s` with `r` before every character and at the end.
pub open spec fn interleaved(s: Seq<char>, r: Seq<char>) -> Seq<char>
    decreases s.len(),
{
    if s.len() == 0 {
        r
    } else {
        interleaved(s.drop_last(), r).push(s.last()) + r
    }
}

/// `s` with every `p` replaced by `r`.
pub open spec fn replace_every(s: Seq<char>, p: Seq<char>, r: Seq<char>) -> Seq<char> {
    if p.len() == 0 {
        interleaved(s, r)
    } else {
        replace(s, p, r)
    }
}

/// Whether `p` stands in `s` exactly once.
pub fn stands_once(s: &str, p: &str) -> (r: bool)
    ensures
        r == (occurrences(s@, p@) == 1),
{
    let v = chars_of(s);
    let q = chars_of(p);
    if q.len() == 0 {
        return v.len() == 0;
    }
    let mut found: bool = false;
    let mut i: usize = 0;
    while i < v.len()
        invariant
            i <= v@.len(),
            v@ == s@,
            q@ == p@,
            p@.len() > 0,
            count_from(s@, p@, 0) == count_from(s@, p@, i as int) + if found {
                1nat
            } else {
                0
            },
        decreases v@.len() - i,
    {
        if at(&v, &q, i) {
            if found {
                return false;
            }
            found = true;
            i += q.len();
        } else {
            i += 1;
        }
    }
    found
}

/// `s` with the first `p` replaced by `t`.
pub fn replaced_first(s: &str, p: &str, t: &str) -> (r: String)
    ensures
        r@ == replace_first(s@, p@, t@),
{
    match split_at_first(s, p) {
        Some((before, after)) => {
            let mut r = before;
            r.append(t);
            r.append(after.as_str());
            r
        },
        None => copy(s),
    }
}

/// `s` with every `p` replaced by `t`.
pub fn replaced_every(s: &str, p: &str, t: &str) -> (r: String)
    ensures
        r@ == replace_every(s@, p@, t@),
{
    if !p.is_empty() {
        return replaced(s, p, t);
    }
    let v = chars_of(s);
    let mut r = copy(t);
    let mut i: usize = 0;
    assert(s@.take(0) =~= Seq::empty());
    while i < v.len()
        invariant
            i <= v@.len(),
            v@ == s@,
            r@ == interleaved(s@.take(i as int), t@),
        decreases v@.len() - i,
    {
        r.push(v[i]);
        r.append(t);
        i += 1;
        assert(s@.take(i as int).drop_last() =~= s@.take(i - 1));
    }
    assert(s@.take(i as int) =~= s@);
    r
}

// ---------------------------------------------------------------------------
// The preview
// ---------------------------------------------------------------------------
/// What the user is shown of a change before it is made. The difference itself is left to the
/// caller to work out.
#[derive(Debug, PartialEq, Eq)]
pub enum Preview {
    Nothing,
    /// The file at `path` changes.
    Change { path: String, old: String, new: String },
    /// A file is made.
    NewFile { path: String, content: String },
}

pub enum PreviewView {
    Nothing,
    Change { path: Seq<char>, old: Seq<char>, new: Seq<char> },
    NewFile { path: Seq<char>, content: Seq<char> },
}

impl View for Preview {
    type V = PreviewView;

    open spec fn view(&self) -> PreviewView {
        match *self {
            Preview::Nothing => PreviewView::Nothing,
            Preview::Change { path, old, new } => PreviewView::Change {
                path: path@,
                old: old@,
                new: new@,
            },
            Preview::NewFile { path, content } => PreviewView::NewFile {
                path: path@,
                content: content@,
            },
        }
    }
}

/// `content` after the edits from `i` on: each names a text that stands exactly once, and what
/// takes its place. There is no outcome where one does not.
pub open spec fn edits_from(content: Seq<char>, edits: Seq<ArgValue>, i: int) -> Option<Seq<char>>
    decreases edits.len() - i,
{
    if i < 0 || i >= edits.len() {
        Some(content)
    } else {
        match (text_field(edits[i], "old_text"@), text_field(edits[i], "new_text"@)) {
            (Some(old), Some(new)) => if occurrences(content, old) == 1 {
                edits_from(replace_first(content, old, new), edits, i + 1)
            } else {
                None
            },
            _ => None,
        }
    }
}

/// Whether the arguments hold a list of edits that is not empty.
pub open spec fn has_edits(args: ArgValue) -> bool {
    match list_field(args, "edits"@) {
        Some(l) => l.len() > 0,
        None => false,
    }
}

/// A text among the arguments, or the empty text.
pub open spec fn text_or_empty(args: ArgValue, key: Seq<char>) -> Seq<char> {
    match text_field(args, key) {
        Some(t) => t,
        None => ""@,
    }
}

/// What an edit makes of `content`: the listed edits, or else one text replaced where it
/// stands exactly once, or everywhere where that is asked for. There is no outcome where the
/// edit would be refused.
pub open spec fn edited(args: ArgValue, content: Seq<char>) -> Option<Seq<char>> {
    let old = text_or_empty(args, "old_string"@);
    let new = text_or_empty(args, "new_string"@);
    if has_edits(args) {
        edits_from(content, list_field(args, "edits"@)->0, 0)
    } else if flag_field(args, "replace_all"@) == Some(true) {
        if contains(content, old) {
            Some(replace_every(content, old, new))
        } else {
            None
        }
    } else if occurrences(content, old) == 1 {
        Some(replace_first(content, old, new))
    } else {
        None
    }
}

/// What the user is shown of an edit. `old` is the text of the file, where it was read.
pub open spec fn edit_preview(args: ArgValue, old: Option<Seq<char>>) -> PreviewView {
    match (text_field(args, "path"@), old) {
        (Some(path), Some(old)) => match edited(args, old) {
            Some(new) => PreviewView::Change { path, old, new },
            None => PreviewView::Nothing,
        },
        _ => PreviewView::Nothing,
    }
}

/// What the user is shown of a file that is written. `old` is the text of the file that is
/// there, where it was read.
pub open spec fn write_preview(args: ArgValue, old: Option<Seq<char>>) -> PreviewView {
    match (text_field(args, "path"@), text_field(args, "content"@)) {
        (Some(path), Some(content)) => match old {
            Some(old) => PreviewView::Change { path, old, new: content },
            None => PreviewView::NewFile { path, content },
        },
        _ => PreviewView::Nothing,
    }
}

/// `content` after the listed edits.
fn apply_edits(content: &str, edits: &Vec<ArgValue>) -> (r: Option<String>)
    ensures
        opt_text(r) == edits_from(content@, edits@, 0),
{
    let mut now = copy(content);
    let mut i: usize = 0;
    while i < edits.len()
        invariant
            i <= edits@.len(),
            edits_from(now@, edits@, i as int) == edits_from(content@, edits@, 0),
        decreases edits@.len() - i,
    {
        let old = match edits[i].text_at("old_text") {
            Some(t) => t,
            None => {
                return None;
            },
        };
        let new = match edits[i].text_at("new_text") {
            Some(t) => t,
            None => {
                return None;
            },
        };
        if !stands_once(now.as_str(), old) {
            return None;
        }
        now = replaced_first(now.as_str(), old, new);
        i += 1;
    }
    Some(now)
}

/// What an edit makes of `content`.
pub fn apply_edit(args: &ArgValue, content: &str) -> (r: Option<String>)
    ensures
        opt_text(r) == edited(*args, content@),
{
    match args.list_at("edits") {
        Some(edits) => {
            if edits.len() > 0 {
                return apply_edits(content, edits);
            }
        },
        None => {},
    }
    let old = match args.text_at("old_string") {
        Some(t) => t,
        None => "",
    };
    let new = match args.text_at("new_string") {
        Some(t) => t,
        None => "",
    };
    let all = match args.flag_at("replace_all") {
        Some(b) => b,
        None => false,
    };
    if all {
        if has_text(content, old) {
            Some(replaced_every(content, old, new))
        } else {
            None
        }
    } else if stands_once(content, old) {
        Some(replaced_first(content, old, new))
    } else {
        None
    }
}

/// The file that a preview has to look at: the one that an edit or a write names.
pub fn preview_path(tool_name: &str, args: &ArgValue) -> (r: Option<String>)
    ensures
        opt_text(r) == (if tool_name@ == "edit_file"@ || tool_name@ == "write_file"@ {
            text_field(*args, "path"@)
        } else {
            None
        }),
{
    if same(tool_name, "edit_file") || same(tool_name, "write_file") {
        match args.text_at("path") {
            Some(p) => Some(copy(p)),
            None => None,
        }
    } else {
        None
    }
}

/// What the user is shown of an edit. `old` is the text of the file, where it was read.
pub fn compute_edit_preview(args: &ArgValue, old: Option<&str>) -> (r: Preview)
    ensures
        r@ == edit_preview(*args, opt_str(old)),
{
    let path = match args.text_at("path") {
        Some(p) => copy(p),
        None => {
            return Preview::Nothing;
        },
    };
    match old {
        Some(old) => match apply_edit(args, old) {
            Some(new) => Preview::Change { path, old: copy(old), new },
            None => Preview::Nothing,
        },
        None => Preview::Nothing,
    }
}

/// What the user is shown of a file that is written. `old` is the text of the file that is
/// there, where it was read.
pub fn compute_write_preview(args: &ArgValue, old: Option<&str>) -> (r: Preview)
    ensures
        r@ == write_preview(*args, opt_str(old)),
{
    match (args.text_at("path"), args.text_at("content")) {
        (Some(path), Some(content)) => match old {
            Some(old) => Preview::Change { path: copy(path), old: copy(old), new: copy(content) },
            None => Preview::NewFile { path: copy(path), content: copy(content) },
        },
        _ => Preview::Nothing,
    }
}

/// What the user is shown before a tool runs: only edits and writes have a preview.
pub fn compute_preview(tool_name: &str, args: &ArgValue, old: Option<&str>) -> (r: Preview)
    ensures
        r@ == (if tool_name@ == "edit_file"@ {
            edit_preview(*args, opt_str(old))
        } else if tool_name@ == "write_file"@ {
            write_preview(*args, opt_str(old))
        } else {
            PreviewView::Nothing
        }),
{
    if same(tool_name, "edit_file") {
        compute_edit_preview(args, old)
    } else if same(tool_name, "write_file") {
        compute_write_preview(args, old)
    } else {
        Preview::Nothing
    }
}

proof fn lemma_count_finds(s: Seq<char>, p: Seq<char>, i: int)
    requires
        0 <= i,
        p.len() > 0,
        count_from(s, p, i) > 0,
    ensures
        find_from(s, p, i) is Some,
    decreases s.len() - i,
{
    if i < s.len() && !stands_at(s, p, i) {
        lemma_count_finds(s, p, i + 1);
    }
}

/// A single edit that is shown replaces a text that is there: the file then holds what it held
/// before, with the new text in the place of the old one.
pub proof fn shown_edits_replace_what_is_there(args: ArgValue, content: Seq<char>)
    requires
        !has_edits(args),
        flag_field(args, "replace_all"@) != Some(true),
        edited(args, content) is Some,
    ensures
        ({
            let old = text_or_empty(args, "old_string"@);
            let new = text_or_empty(args, "new_string"@);
            exists|i: int| #[trigger]
                stands_at(content, old, i) && edited(args, content) == Some(
                    content.take(i) + new + content.skip(i + old.len()),
                )
        }),
{
    let old = text_or_empty(args, "old_string"@);
    if old.len() == 0 {
        assert(content.subrange(0, 0) =~= old);
        assert(stands_at(content, old, 0));
    } else {
        lemma_count_finds(content, old, 0);
        lemma_find_stands(content, old, 0);
    }
}

proof fn lemma_find_stands(s: Seq<char>, p: Seq<char>, i: int)
    requires
        0 <= i,
    ensures
        find_from(s, p, i) matches Some(k) ==> stands_at(s, p, k),
    decreases s.len() + 1 - i,
{
    if i <= s.len() && !stands_at(s, p, i) {
        lemma_find_stands(s, p, i + 1);
    }
}

/// Each answer has its key, in either letter case, and a line that is entered meanwhile is kept
/// whole. Leaving, cancelling and the end of input cancel the turn, and nothing else does.
pub proof fn every_answer_can_be_given(key: char, line: String, command: Option<Command>)
    ensures
        key == 'y' || key == 'Y' ==> approval_effect(Some(Command::ApprovalKey(key)))
            == ApprovalStep::Answer(ApprovalDecision::Allow),
        key == 'a' || key == 'A' ==> approval_effect(Some(Command::ApprovalKey(key)))
            == ApprovalStep::Answer(ApprovalDecision::AllowSession),
        key == 'n' || key == 'N' ==> approval_effect(Some(Command::ApprovalKey(key)))
            == ApprovalStep::Answer(ApprovalDecision::Deny),
        key_decision(lower_char(key)) == key_decision(key),
        approval_effect(Some(Command::Submit(line))) == ApprovalStep::Stash(line),
        (approval_effect(command) is CancelTurn) == (command is None || command == Some(
            Command::Cancel,
        ) || command == Some(Command::Exit)),
{
    lowering_maps_capitals_only(Seq::empty(), key);
}

proof fn lemma_count_shift(s: Seq<char>, p: Seq<char>, n: int, i: int)
    requires
        0 <= n,
        0 <= i,
        n + i <= s.len(),
    ensures
        count_from(s.skip(n), p, i) == count_from(s, p, n + i),
    decreases s.len() - n - i,
{
    if p.len() > 0 && n + i < s.len() {
        let t = s.skip(n);
        if i + p.len() <= t.len() {
            assert(t.subrange(i, i + p.len()) =~= s.subrange(n + i, n + i + p.len()));
        }
        assert(stands_at(t, p, i) == stands_at(s, p, n + i));
        if stands_at(s, p, n + i) {
            lemma_count_shift(s, p, n, i + p.len());
        } else {
            lemma_count_shift(s, p, n, i + 1);
        }
    }
}

proof fn lemma_count_reaches(s: Seq<char>, p: Seq<char>, i: int, j: int)
    requires
        p.len() > 0,
        0 <= i <= j <= s.len(),
        forall|k: int| i <= k < j ==> !stands_at(s, p, k),
    ensures
        count_from(s, p, i) == count_from(s, p, j),
    decreases j - i,
{
    if i < j {
        lemma_count_reaches(s, p, i + 1, j);
    }
}

/// A text stands nowhere exactly where it is not found. Where it is found, it stands there and
/// as often as in what follows.
pub proof fn occurrences_are_counted_one_by_one(s: Seq<char>, p: Seq<char>)
    requires
        p.len() > 0,
    ensures
        (occurrences(s, p) == 0) == !contains(s, p),
        find_from(s, p, 0) matches Some(i) ==> 0 <= i <= s.len() - p.len() && occurrences(s, p)
            == 1 + occurrences(s.skip(i + p.len()), p),
{
    if contains(s, p) {
        let i = found_place(s, p);
        lemma_count_reaches(s, p, 0, i);
        lemma_count_shift(s, p, i + p.len(), 0);
    } else {
        assert forall|k: int| 0 <= k < s.len() implies !stands_at(s, p, k) by {
            if stands_at(s, p, k) {
                lemma_contains(s, p, k);
            }
        }
        lemma_count_reaches(s, p, 0, s.len() as int);
    }
}

/// An edit of one text is shown exactly where the text stands once: it is refused where the
/// text is missing and where it is not clear which one is meant.
pub proof fn single_edits_need_one_place(args: ArgValue, content: Seq<char>)
    requires
        !has_edits(args),
        flag_field(args, "replace_all"@) != Some(true),
    ensures
        (edited(args, content) is Some) == (occurrences(content, text_or_empty(args, "old_string"@))
            == 1),
{
}

/// Where everything is to be replaced, an edit is shown exactly where the text is there at all.
/// The text then gives way to the new one at its first place, and so on behind it.
pub proof fn edits_of_everything_reach_every_place(args: ArgValue, content: Seq<char>)
    requires
        !has_edits(args),
        flag_field(args, "replace_all"@) == Some(true),
        text_or_empty(args, "old_string"@).len() > 0,
    ensures
        ({
            let old = text_or_empty(args, "old_string"@);
            let new = text_or_empty(args, "new_string"@);
            match find_from(content, old, 0) {
                None => edited(args, content) is None,
                Some(i) => edited(args, content) == Some(
                    content.take(i) + new + match edited(args, content.skip(i + old.len())) {
                        Some(rest) => rest,
                        None => content.skip(i + old.len()),
                    },
                ),
            }
        }),
{
    let old = text_or_empty(args, "old_string"@);
    let new = text_or_empty(args, "new_string"@);
    replacing_goes_from_place_to_place(content, old, new);
    if contains(content, old) {
        let i = found_place(content, old);
        replacing_goes_from_place_to_place(content.skip(i + old.len()), old, new);
    }
}

/// Listed edits are made one after the other, each on what the ones before it left: all of them
/// or none. One that names no text, or a text that does not stand exactly once, refuses them all.
pub proof fn listed_edits_follow_each_other(
    content: Seq<char>,
    edits: Seq<ArgValue>,
    edit: ArgValue,
)
    ensures
        edits_from(content, Seq::empty(), 0) == Some(content),
        edits_from(content, edits.push(edit), 0) == (match edits_from(content, edits, 0) {
            Some(c) => match (text_field(edit, "old_text"@), text_field(edit, "new_text"@)) {
                (Some(old), Some(new)) => if occurrences(c, old) == 1 {
                    Some(replace_first(c, old, new))
                } else {
                    None
                },
                _ => None,
            },
            None => None,
        }),
{
    lemma_edits_push(content, edits, edit, 0);
}

proof fn lemma_edits_push(content: Seq<char>, edits: Seq<ArgValue>, edit: ArgValue, i: int)
    requires
        0 <= i <= edits.len(),
    ensures
        edits_from(content, edits.push(edit), i) == (match edits_from(content, edits, i) {
            Some(c) => edits_from(c, edits.push(edit), edits.len() as int),
            None => None,
        }),
        forall|c: Seq<char>| #[trigger]
            edits_from(c, edits.push(edit), edits.len() as int) == (match (
                text_field(edit, "old_text"@),
                text_field(edit, "new_text"@),
            ) {
                (Some(old), Some(new)) => if occurrences(c, old) == 1 {
                    Some(replace_first(c, old, new))
                } else {
                    None
                },
                _ => None,
            }),
    decreases edits.len() - i,
{
    let more = edits.push(edit);
    assert forall|c: Seq<char>| #[trigger] edits_from(c, more, edits.len() as int) == (match (
        text_field(edit, "old_text"@),
        text_field(edit, "new_text"@),
    ) {
        (Some(old), Some(new)) => if occurrences(c, old) == 1 {
            Some(replace_first(c, old, new))
        } else {
            None
        },
        _ => None,
    }) by {
        assert(more[edits.len() as int] == edit);
        reveal_with_fuel(edits_from, 2);
    }
    if i < edits.len() {
        assert(more[i] == edits[i]);
        match (text_field(edits[i], "old_text"@), text_field(edits[i], "new_text"@)) {
            (Some(old), Some(new)) => {
                lemma_edits_push(replace_first(content, old, new), edits, edit, i + 1);
            },
            _ => {},
        }
    }
}

/// Replacing the first place of a text keeps everything around it. A text that is not there
/// changes nothing.
pub proof fn replacing_one_place_keeps_the_rest(s: Seq<char>, p: Seq<char>, r: Seq<char>)
    ensures
        !contains(s, p) ==> replace_first(s, p, r) == s,
        find_from(s, p, 0) matches Some(i) ==> replace_first(s, p, r).len() == s.len() - p.len()
            + r.len() && replace_first(s, p, r).take(i) == s.take(i) && replace_first(s, p, r).skip(
            i + r.len(),
        ) == s.skip(i + p.len()) && stands_at(replace_first(s, p, r), r, i),
{
    if contains(s, p) {
        let i = found_place(s, p);
        let t = replace_first(s, p, r);
        assert(t.take(i) =~= s.take(i));
        assert(t.skip(i + r.len()) =~= s.skip(i + p.len()));
        assert(t.subrange(i, i + r.len()) =~= r);
    }
}

/// What is shown of a write is what will be written, whole, under the path that was given, and
/// beside it what the file holds now, where there is one.
pub proof fn writes_are_shown_whole(args: ArgValue, now: Seq<char>, path: Seq<char>, text: Seq<char>)
    requires
        text_field(args, "path"@) == Some(path),
        text_field(args, "content"@) == Some(text),
    ensures
        write_preview(args, None) == (PreviewView::NewFile { path, content: text }),
        write_preview(args, Some(now)) == (PreviewView::Change { path, old: now, new: text }),
{
}

/// What is shown of an edit is the file as it is and as it will be, under the path that was
/// given. Nothing is shown of an edit that would be refused or of a file that was not read.
pub proof fn edits_are_shown_whole(args: ArgValue, now: Seq<char>, path: Seq<char>)
    requires
        text_field(args, "path"@) == Some(path),
    ensures
        edit_preview(args, None) is Nothing,
        (edit_preview(args, Some(now)) is Nothing) == (edited(args, now) is None),
        edited(args, now) matches Some(new) ==> edit_preview(args, Some(now)) == (
        PreviewView::Change { path, old: now, new }),
{
}

/// What the user is shown before a tool runs: of an edit the file as it will be, of a write what
/// will be written, and of any other tool nothing.
pub proof fn previews_show_what_will_be(
    tool_name: &str,
    args: ArgValue,
    now: &str,
    path: Seq<char>,
    r: Preview,
    looked_at: Option<String>,
)
    requires
        call_ensures(compute_preview, (tool_name, &args, Some(now)), r),
        call_ensures(preview_path, (tool_name, &args), looked_at),
        text_field(args, "path"@) == Some(path),
    ensures
        tool_name@ == "write_file"@ ==> (text_field(args, "content"@) matches Some(t) ==> r@ == (
        PreviewView::Change { path, old: now@, new: t })),
        tool_name@ == "edit_file"@ ==> (edited(args, now@) matches Some(t) ==> r@ == (
        PreviewView::Change { path, old: now@, new: t })),
        tool_name@ == "edit_file"@ && edited(args, now@) is None ==> r@ is Nothing,
        tool_name@ != "edit_file"@ && tool_name@ != "write_file"@ ==> r@ is Nothing,
        tool_name@ == "edit_file"@ || tool_name@ == "write_file"@ ==> opt_text(looked_at) == Some(
            path,
        ),
{
    reveal_strlit("edit_file");
    reveal_strlit("write_file");
    assert("edit_file"@.len() == 9 && "write_file"@.len() == 10);
}

/// Asking is answered by a decision and by nothing else.
pub proof fn decisions_are_answers(decision: Option<ApprovalDecision>, r: ApprovalOutcome)
    requires
        call_ensures(approval_outcome, (decision,), r),
    ensures
        (r == ApprovalOutcome::Answered) == (decision is Some),
{
}

/// The empty text is replaced before every character and at the end.
pub proof fn the_empty_text_stands_everywhere(s: Seq<char>, c: char, r: Seq<char>)
    ensures
        replace_every(Seq::empty(), Seq::empty(), r) == r,
        replace_every(s.push(c), Seq::empty(), r) == replace_every(s, Seq::empty(), r).push(c) + r,
        occurrences(s, Seq::empty()) == s.len() + 1,
{
    assert(s.push(c).drop_last() =~= s);
}

} // verus!
