//! The arguments of a tool call as a tree of plain values.
use crate::text::same;
use vstd::prelude::*;

verus! {

/// One value. Numbers and nulls are not told apart: nothing reads them.
pub enum ArgValue {
    Text(String),
    Flag(bool),
    List(Vec<ArgValue>),
    Object(Vec<(String, ArgValue)>),
    Other,
}

/// The first position from `i` on at which `key` stands.
pub open spec fn key_index(entries: Seq<(String, ArgValue)>, key: Seq<char>, i: int) -> Option<int>
    decreases entries.len() - i,
{
    if i < 0 || i >= entries.len() {
        None
    } else if entries[i].0@ == key {
        Some(i)
    } else {
        key_index(entries, key, i + 1)
    }
}

/// What stands under `key` in an object.
pub open spec fn field_of(v: ArgValue, key: Seq<char>) -> Option<ArgValue> {
    match v {
        ArgValue::Object(entries) => match key_index(entries@, key, 0) {
            Some(i) => Some(entries@[i].1),
            None => None,
        },
        _ => None,
    }
}

/// The text under `key` in an object.
pub open spec fn text_field(v: ArgValue, key: Seq<char>) -> Option<Seq<char>> {
    match field_of(v, key) {
        Some(ArgValue::Text(t)) => Some(t@),
        _ => None,
    }
}

/// The list under `key` in an object.
pub open spec fn list_field(v: ArgValue, key: Seq<char>) -> Option<Seq<ArgValue>> {
    match field_of(v, key) {
        Some(ArgValue::List(l)) => Some(l@),
        _ => None,
    }
}

/// The flag under `key` in an object.
pub open spec fn flag_field(v: ArgValue, key: Seq<char>) -> Option<bool> {
    match field_of(v, key) {
        Some(ArgValue::Flag(b)) => Some(b),
        _ => None,
    }
}

impl ArgValue {
    /// What stands under `key`, where this is an object that has it.
    pub fn get(&self, key: &str) -> (r: Option<&ArgValue>)
        ensures
            (r is Some) == (field_of(*self, key@) is Some),
            r matches Some(v) ==> field_of(*self, key@) == Some(*v),
    {
        match self {
            ArgValue::Object(entries) => {
                let mut i: usize = 0;
                while i < entries.len()
                    invariant
                        i <= entries@.len(),
                        *self == ArgValue::Object(*entries),
                        key_index(entries@, key@, i as int) == key_index(entries@, key@, 0),
                    decreases entries@.len() - i,
                {
                    if same(entries[i].0.as_str(), key) {
                        return Some(&entries[i].1);
                    }
                    i += 1;
                }
                None
            },
            _ => None,
        }
    }

    /// The text under `key`.
    pub fn text_at(&self, key: &str) -> (r: Option<&str>)
        ensures
            (r is Some) == (text_field(*self, key@) is Some),
            r matches Some(t) ==> text_field(*self, key@) == Some(t@),
    {
        match self.get(key) {
            Some(ArgValue::Text(t)) => Some(t.as_str()),
            _ => None,
        }
    }

    /// The list under `key`.
    pub fn list_at(&self, key: &str) -> (r: Option<&Vec<ArgValue>>)
        ensures
            (r is Some) == (list_field(*self, key@) is Some),
            r matches Some(l) ==> list_field(*self, key@) == Some(l@),
    {
        match self.get(key) {
            Some(ArgValue::List(l)) => Some(l),
            _ => None,
        }
    }

    /// The flag under `key`.
    pub fn flag_at(&self, key: &str) -> (r: Option<bool>)
        ensures
            r == flag_field(*self, key@),
    {
        match self.get(key) {
            Some(ArgValue::Flag(b)) => Some(*b),
            _ => None,
        }
    }
}

/// What an object holds under a key is what its first entry with that key holds; without such
/// an entry it holds nothing there.
pub proof fn fields_are_found_by_key(entries: Vec<(String, ArgValue)>, key: Seq<char>, i: int)
    ensures
        0 <= i < entries@.len() && entries@[i].0@ == key && (forall|k: int|
            0 <= k < i ==> (#[trigger] entries@[k]).0@ != key) ==> field_of(
            ArgValue::Object(entries),
            key,
        ) == Some(entries@[i].1),
        (forall|k: int| 0 <= k < entries@.len() ==> (#[trigger] entries@[k]).0@ != key)
            ==> field_of(ArgValue::Object(entries), key) is None,
{
    if 0 <= i < entries@.len() && entries@[i].0@ == key && (forall|k: int|
        0 <= k < i ==> (#[trigger] entries@[k]).0@ != key) {
        lemma_key_index(entries@, key, 0, i);
    }
    if forall|k: int| 0 <= k < entries@.len() ==> (#[trigger] entries@[k]).0@ != key {
        lemma_no_key_index(entries@, key, 0);
    }
}

proof fn lemma_key_index(entries: Seq<(String, ArgValue)>, key: Seq<char>, from: int, i: int)
    requires
        0 <= from <= i < entries.len(),
        entries[i].0@ == key,
        forall|k: int| from <= k < i ==> (#[trigger] entries[k]).0@ != key,
    ensures
        key_index(entries, key, from) == Some(i),
    decreases i - from,
{
    if from < i {
        assert(entries[from].0@ != key);
        lemma_key_index(entries, key, from + 1, i);
    }
}

proof fn lemma_no_key_index(entries: Seq<(String, ArgValue)>, key: Seq<char>, from: int)
    requires
        0 <= from,
        forall|k: int| from <= k < entries.len() ==> (#[trigger] entries[k]).0@ != key,
    ensures
        key_index(entries, key, from) is None,
    decreases entries.len() - from,
{
    if from < entries.len() {
        assert(entries[from].0@ != key);
        lemma_no_key_index(entries, key, from + 1);
    }
}

/// A field is read by its kind: a text as text, a list as a list, a flag as a flag, and what is
/// of another kind as nothing.
pub proof fn fields_are_read_by_kind(v: ArgValue, key: Seq<char>)
    ensures
        (text_field(v, key) is Some) == (field_of(v, key) is Some && field_of(v, key)->0 is Text),
        field_of(v, key) matches Some(ArgValue::Text(t)) ==> text_field(v, key) == Some(t@),
        field_of(v, key) matches Some(ArgValue::List(l)) ==> list_field(v, key) == Some(l@),
        (list_field(v, key) is Some) == (field_of(v, key) is Some && field_of(v, key)->0 is List),
        field_of(v, key) matches Some(ArgValue::Flag(b)) ==> flag_field(v, key) == Some(b),
        (flag_field(v, key) is Some) == (field_of(v, key) is Some && field_of(v, key)->0 is Flag),
{
}

} // verus!
