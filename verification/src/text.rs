//! Text as sequences of characters: the models that every contract about strings is
//! stated over, and the verified functions that compute them.
use vstd::prelude::*;

verus! {

/// Appends one character: the text grows by exactly that character.
pub assume_specification[ String::push ](s: &mut String, c: char)
    ensures
        final(s)@ == old(s)@.push(c),
;

// ---------------------------------------------------------------------------
// Classes of characters
// ---------------------------------------------------------------------------
/// The characters with the Unicode property `White_Space`.
pub open spec fn is_space(c: char) -> bool {
    let n = c as u32;
    ||| 0x09 <= n <= 0x0d
    ||| n == 0x20
    ||| n == 0x85
    ||| n == 0xa0
    ||| n == 0x1680
    ||| 0x2000 <= n <= 0x200a
    ||| n == 0x2028
    ||| n == 0x2029
    ||| n == 0x202f
    ||| n == 0x205f
    ||| n == 0x3000
}

pub open spec fn is_digit(c: char) -> bool {
    '0' <= c <= '9'
}

pub open spec fn is_ascii_upper(c: char) -> bool {
    'A' <= c <= 'Z'
}

pub open spec fn is_ascii_lower(c: char) -> bool {
    'a' <= c <= 'z'
}

pub open spec fn is_ascii_alnum(c: char) -> bool {
    is_digit(c) || is_ascii_upper(c) || is_ascii_lower(c)
}

/// `c` with an ASCII capital letter turned into its small one.
pub open spec fn lower_char(c: char) -> char {
    if is_ascii_upper(c) {
        ((c as u8 + 32) as u8) as char
    } else {
        c
    }
}

/// Whether `c` is white space.
pub fn is_whitespace(c: char) -> (r: bool)
    ensures
        r == is_space(c),
{
    let n: u32 = c as u32;
    (0x09 <= n && n <= 0x0d) || n == 0x20 || n == 0x85 || n == 0xa0 || n == 0x1680 || (0x2000 <= n
        && n <= 0x200a) || n == 0x2028 || n == 0x2029 || n == 0x202f || n == 0x205f || n == 0x3000
}

pub fn ascii_lower_char(c: char) -> (r: char)
    ensures
        r == lower_char(c),
{
    if 'A' <= c && c <= 'Z' {
        let n: u8 = c as u8;
        (n + 32) as char
    } else {
        c
    }
}

// ---------------------------------------------------------------------------
// Runs of characters
// ---------------------------------------------------------------------------
pub open spec fn spaces() -> spec_fn(char) -> bool {
    |c: char| is_space(c)
}

pub open spec fn non_spaces() -> spec_fn(char) -> bool {
    |c: char| !is_space(c)
}

pub open spec fn only(x: char) -> spec_fn(char) -> bool {
    |c: char| c == x
}

pub open spec fn except(x: char) -> spec_fn(char) -> bool {
    |c: char| c != x
}

/// How many characters from position `i` on satisfy `p` without a break.
pub open spec fn run(s: Seq<char>, p: spec_fn(char) -> bool, i: int) -> nat
    decreases s.len() - i,
{
    if 0 <= i < s.len() && p(s[i]) {
        1 + run(s, p, i + 1)
    } else {
        0
    }
}

/// How many characters just before position `j` satisfy `p` without a break.
pub open spec fn run_back(s: Seq<char>, p: spec_fn(char) -> bool, j: int) -> nat
    decreases j,
{
    if 0 < j <= s.len() && p(s[j - 1]) {
        1 + run_back(s, p, j - 1)
    } else {
        0
    }
}

pub proof fn lemma_run(s: Seq<char>, p: spec_fn(char) -> bool, i: int)
    requires
        0 <= i <= s.len(),
    ensures
        i + run(s, p, i) <= s.len(),
        forall|k: int| i <= k < i + run(s, p, i) ==> p(#[trigger] s[k]),
        i + run(s, p, i) < s.len() ==> !p(s[i + run(s, p, i)]),
    decreases s.len() - i,
{
    if i < s.len() && p(s[i]) {
        lemma_run(s, p, i + 1);
    }
}

/// A run is what its three properties say it is.
pub proof fn lemma_run_is(s: Seq<char>, p: spec_fn(char) -> bool, i: int, n: nat)
    requires
        0 <= i,
        i + n <= s.len(),
        forall|k: int| i <= k < i + n ==> p(#[trigger] s[k]),
        i + n < s.len() ==> !p(s[i + n]),
    ensures
        run(s, p, i) == n,
    decreases n,
{
    if n > 0 {
        assert(p(s[i]));
        lemma_run_is(s, p, i + 1, (n - 1) as nat);
    }
}

pub proof fn lemma_run_back(s: Seq<char>, p: spec_fn(char) -> bool, j: int)
    requires
        0 <= j <= s.len(),
    ensures
        run_back(s, p, j) <= j,
        forall|k: int| j - run_back(s, p, j) <= k < j ==> p(#[trigger] s[k]),
        0 < j - run_back(s, p, j) ==> !p(s[j - run_back(s, p, j) - 1]),
    decreases j,
{
    if 0 < j && p(s[j - 1]) {
        lemma_run_back(s, p, j - 1);
    }
}

/// A run before a position is what its properties say it is.
pub proof fn lemma_run_back_is(s: Seq<char>, p: spec_fn(char) -> bool, j: int, n: nat)
    requires
        n <= j <= s.len(),
        forall|k: int| j - n <= k < j ==> p(#[trigger] s[k]),
        j - n > 0 ==> !p(s[j - n - 1]),
    ensures
        run_back(s, p, j) == n,
    decreases n,
{
    if n > 0 {
        assert(p(s[j - 1]));
        lemma_run_back_is(s, p, j - 1, (n - 1) as nat);
    }
}

/// The first position from `i` on that holds no white space.
pub fn skip_spaces(v: &Vec<char>, i: usize) -> (r: usize)
    requires
        i <= v@.len(),
    ensures
        r == i + run(v@, spaces(), i as int),
        i <= r <= v@.len(),
{
    let mut k: usize = i;
    while k < v.len() && is_whitespace(v[k])
        invariant
            i <= k <= v@.len(),
            k + run(v@, spaces(), k as int) == i + run(v@, spaces(), i as int),
        decreases v@.len() - k,
    {
        k += 1;
    }
    k
}

/// The first position from `i` on that holds white space.
pub fn skip_word(v: &Vec<char>, i: usize) -> (r: usize)
    requires
        i <= v@.len(),
    ensures
        r == i + run(v@, non_spaces(), i as int),
        i <= r <= v@.len(),
{
    let mut k: usize = i;
    while k < v.len() && !is_whitespace(v[k])
        invariant
            i <= k <= v@.len(),
            k + run(v@, non_spaces(), k as int) == i + run(v@, non_spaces(), i as int),
        decreases v@.len() - k,
    {
        k += 1;
    }
    k
}

/// The first position from `i` on that holds something else than `x`.
pub fn skip_char(v: &Vec<char>, x: char, i: usize) -> (r: usize)
    requires
        i <= v@.len(),
    ensures
        r == i + run(v@, only(x), i as int),
        i <= r <= v@.len(),
{
    let mut k: usize = i;
    while k < v.len() && v[k] == x
        invariant
            i <= k <= v@.len(),
            k + run(v@, only(x), k as int) == i + run(v@, only(x), i as int),
        decreases v@.len() - k,
    {
        k += 1;
    }
    k
}

/// The first position from `i` on that holds `x`; the length if there is none.
pub fn find_char(v: &Vec<char>, x: char, i: usize) -> (r: usize)
    requires
        i <= v@.len(),
    ensures
        r == i + run(v@, except(x), i as int),
        i <= r <= v@.len(),
        r < v@.len() ==> v@[r as int] == x,
{
    let mut k: usize = i;
    while k < v.len() && v[k] != x
        invariant
            i <= k <= v@.len(),
            k + run(v@, except(x), k as int) == i + run(v@, except(x), i as int),
        decreases v@.len() - k,
    {
        k += 1;
    }
    k
}

/// The position behind the last character before `j` that is no white space.
pub fn skip_spaces_back(v: &Vec<char>, j: usize) -> (r: usize)
    requires
        j <= v@.len(),
    ensures
        r == j - run_back(v@, spaces(), j as int),
        r <= j,
{
    let mut k: usize = j;
    while k > 0 && is_whitespace(v[k - 1])
        invariant
            k <= j <= v@.len(),
            k - run_back(v@, spaces(), k as int) == j - run_back(v@, spaces(), j as int),
        decreases k,
    {
        k -= 1;
    }
    k
}

/// The position behind the last character before `j` that is not `x`.
pub fn skip_char_back(v: &Vec<char>, x: char, j: usize) -> (r: usize)
    requires
        j <= v@.len(),
    ensures
        r == j - run_back(v@, only(x), j as int),
        r <= j,
{
    let mut k: usize = j;
    while k > 0 && v[k - 1] == x
        invariant
            k <= j <= v@.len(),
            k - run_back(v@, only(x), k as int) == j - run_back(v@, only(x), j as int),
        decreases k,
    {
        k -= 1;
    }
    k
}

// ---------------------------------------------------------------------------
// Characters and text
// ---------------------------------------------------------------------------
/// The characters of `s`, in order.
pub fn chars_of(s: &str) -> (r: Vec<char>)
    ensures
        r@ == s@,
{
    let mut r: Vec<char> = Vec::new();
    for c in it: s.chars()
        invariant
            it.seq() == s@,
            r@ == s@.take(it.index() as int),
    {
        r.push(c);
    }
    assert(s@.take(s@.len() as int) =~= s@);
    r
}

/// The text of `v[from..to]`.
pub fn text_of(v: &Vec<char>, from: usize, to: usize) -> (r: String)
    requires
        from <= to <= v@.len(),
    ensures
        r@ == v@.subrange(from as int, to as int),
{
    let mut r = String::new();
    let mut i: usize = from;
    while i < to
        invariant
            from <= i <= to <= v@.len(),
            r@ == v@.subrange(from as int, i as int),
        decreases to - i,
    {
        r.push(v[i]);
        i += 1;
        assert(v@.subrange(from as int, i as int) =~= v@.subrange(from as int, i - 1).push(
            v@[i - 1],
        ));
    }
    assert(r@ =~= v@.subrange(from as int, to as int));
    r
}

/// Whether two texts are the same.
pub fn same(a: &str, b: &str) -> (r: bool)
    ensures
        r == (a@ == b@),
{
    let x = chars_of(a);
    let y = chars_of(b);
    if x.len() != y.len() {
        return false;
    }
    let mut i: usize = 0;
    while i < x.len()
        invariant
            i <= x@.len(),
            x@.len() == y@.len(),
            x@ == a@,
            y@ == b@,
            forall|k: int| 0 <= k < i ==> x@[k] == y@[k],
        decreases x@.len() - i,
    {
        if x[i] != y[i] {
            return false;
        }
        i += 1;
    }
    assert(a@ =~= b@);
    true
}

/// An owned copy.
pub fn copy(s: &str) -> (r: String)
    ensures
        r@ == s@,
{
    s.to_owned()
}

/// A copy of an optional text.
pub fn copy_opt(s: &Option<String>) -> (r: Option<String>)
    ensures
        r == *s,
{
    match s {
        Some(t) => Some(t.clone()),
        None => None,
    }
}

/// The views of a list of texts.
pub open spec fn texts(v: Seq<String>) -> Seq<Seq<char>> {
    Seq::new(v.len(), |i: int| v[i]@)
}

/// The view of an optional text.
pub open spec fn opt_text(o: Option<String>) -> Option<Seq<char>> {
    match o {
        Some(s) => Some(s@),
        None => None,
    }
}

/// The view of an optional borrowed text.
pub open spec fn opt_str(o: Option<&str>) -> Option<Seq<char>> {
    match o {
        Some(s) => Some(s@),
        None => None,
    }
}

/// The views of a list of borrowed texts.
pub open spec fn strs(v: Seq<&str>) -> Seq<Seq<char>> {
    Seq::new(v.len(), |i: int| v[i]@)
}

pub fn copy_all(v: &Vec<String>) -> (r: Vec<String>)
    ensures
        r@ == v@,
{
    let mut r: Vec<String> = Vec::new();
    let mut i: usize = 0;
    while i < v.len()
        invariant
            i <= v@.len(),
            r@ == v@.take(i as int),
        decreases v@.len() - i,
    {
        r.push(v[i].clone());
        i += 1;
        assert(v@.take(i as int) =~= v@.take(i - 1).push(v@[i - 1]));
    }
    assert(v@.take(v@.len() as int) =~= v@);
    r
}

/// Whether `x` is one of `v`.
pub fn contains_text(v: &Vec<String>, x: &str) -> (r: bool)
    ensures
        r == texts(v@).contains(x@),
{
    let mut i: usize = 0;
    while i < v.len()
        invariant
            i <= v@.len(),
            forall|k: int| 0 <= k < i ==> #[trigger] texts(v@)[k] != x@,
        decreases v@.len() - i,
    {
        if same(v[i].as_str(), x) {
            assert(texts(v@)[i as int] == x@);
            return true;
        }
        i += 1;
    }
    false
}

// ---------------------------------------------------------------------------
// Trimming
// ---------------------------------------------------------------------------
/// `s` without the white space at its start.
pub open spec fn trim_start(s: Seq<char>) -> Seq<char> {
    s.skip(run(s, spaces(), 0) as int)
}

/// `s` without the white space at its end.
pub open spec fn trim_end(s: Seq<char>) -> Seq<char> {
    s.take(s.len() - run_back(s, spaces(), s.len() as int))
}

/// `s` without the white space at either end.
pub open spec fn trim(s: Seq<char>) -> Seq<char> {
    trim_end(trim_start(s))
}

/// Nothing but white space.
pub open spec fn is_blank(s: Seq<char>) -> bool {
    trim(s).len() == 0
}

/// `s` without the run of `x` at its start.
pub open spec fn trim_start_char(s: Seq<char>, x: char) -> Seq<char> {
    s.skip(run(s, only(x), 0) as int)
}

/// `s` without the run of `x` at its end.
pub open spec fn trim_end_char(s: Seq<char>, x: char) -> Seq<char> {
    s.take(s.len() - run_back(s, only(x), s.len() as int))
}

/// What trimming gives: everything between the first and the last character that is no white
/// space.
pub proof fn lemma_trim_is(s: Seq<char>, a: int, b: int)
    requires
        0 <= a <= b <= s.len(),
        forall|k: int| 0 <= k < a ==> is_space(#[trigger] s[k]),
        forall|k: int| b <= k < s.len() ==> is_space(#[trigger] s[k]),
        a < b ==> !is_space(s[a]) && !is_space(s[b - 1]),
    ensures
        trim(s) == s.subrange(a, b),
{
    if a < b {
        lemma_run_is(s, spaces(), 0, a as nat);
        let t = trim_start(s);
        assert forall|k: int| b - a <= k < t.len() implies spaces()(#[trigger] t[k]) by {
            assert(t[k] == s[k + a]);
        }
        assert(t[b - a - 1] == s[b - 1]);
        lemma_run_back_is(t, spaces(), t.len() as int, (s.len() - b) as nat);
        assert(trim(s) =~= s.subrange(a, b));
    } else {
        assert forall|k: int| 0 <= k < s.len() implies spaces()(#[trigger] s[k]) by {}
        lemma_run_is(s, spaces(), 0, s.len());
        assert(trim(s) =~= s.subrange(a, b));
    }
}

/// Where what trimming leaves starts and ends.
pub proof fn trim_span(s: Seq<char>) -> (r: (int, int))
    ensures
        0 <= r.0 <= r.1 <= s.len(),
        forall|k: int| 0 <= k < r.0 ==> is_space(#[trigger] s[k]),
        forall|k: int| r.1 <= k < s.len() ==> is_space(#[trigger] s[k]),
        r.0 < r.1 ==> !is_space(s[r.0]) && !is_space(s[r.1 - 1]),
        trim(s) == s.subrange(r.0, r.1),
{
    let a = run(s, spaces(), 0) as int;
    lemma_run(s, spaces(), 0);
    let b = s.len() - run_back(s, spaces(), s.len() as int);
    lemma_run_back(s, spaces(), s.len() as int);
    assert forall|k: int| 0 <= k < a implies is_space(#[trigger] s[k]) by {
        assert(spaces()(s[k]));
    }
    assert forall|k: int| b <= k < s.len() implies is_space(#[trigger] s[k]) by {
        assert(spaces()(s[k]));
    }
    if a < s.len() {
        assert(!is_space(s[a]));
        assert(a < b);
        lemma_trim_is(s, a, b);
        (a, b)
    } else {
        lemma_trim_is(s, a, a);
        (a, a)
    }
}

pub fn trimmed_start(s: &str) -> (r: String)
    ensures
        r@ == trim_start(s@),
{
    let v = chars_of(s);
    let i = skip_spaces(&v, 0);
    assert(v@.subrange(i as int, v@.len() as int) =~= s@.skip(i as int));
    text_of(&v, i, v.len())
}

pub fn trimmed_end(s: &str) -> (r: String)
    ensures
        r@ == trim_end(s@),
{
    let v = chars_of(s);
    let j = skip_spaces_back(&v, v.len());
    assert(v@.subrange(0, j as int) =~= s@.take(j as int));
    text_of(&v, 0, j)
}

pub fn trimmed(s: &str) -> (r: String)
    ensures
        r@ == trim(s@),
{
    let t = trimmed_start(s);
    trimmed_end(t.as_str())
}

pub fn blank(s: &str) -> (r: bool)
    ensures
        r == is_blank(s@),
{
    trimmed(s).as_str().is_empty()
}

pub fn trimmed_start_char(s: &str, x: char) -> (r: String)
    ensures
        r@ == trim_start_char(s@, x),
{
    let v = chars_of(s);
    let i = skip_char(&v, x, 0);
    assert(v@.subrange(i as int, v@.len() as int) =~= s@.skip(i as int));
    text_of(&v, i, v.len())
}

pub fn trimmed_end_char(s: &str, x: char) -> (r: String)
    ensures
        r@ == trim_end_char(s@, x),
{
    let v = chars_of(s);
    let j = skip_char_back(&v, x, v.len());
    assert(v@.subrange(0, j as int) =~= s@.take(j as int));
    text_of(&v, 0, j)
}

// ---------------------------------------------------------------------------
// Prefixes, suffixes and substrings
// ---------------------------------------------------------------------------
pub open spec fn starts_with(s: Seq<char>, p: Seq<char>) -> bool {
    p.len() <= s.len() && s.take(p.len() as int) == p
}

/// Whether `p` stands in `s` at position `i`.
pub open spec fn stands_at(s: Seq<char>, p: Seq<char>, i: int) -> bool {
    0 <= i && i + p.len() <= s.len() && s.subrange(i, i + p.len()) == p
}

/// The first position from `i` on at which `p` stands.
pub open spec fn find_from(s: Seq<char>, p: Seq<char>, i: int) -> Option<int>
    decreases s.len() + 1 - i,
{
    if i < 0 || i > s.len() {
        None
    } else if stands_at(s, p, i) {
        Some(i)
    } else {
        find_from(s, p, i + 1)
    }
}

pub open spec fn contains(s: Seq<char>, p: Seq<char>) -> bool {
    find_from(s, p, 0) is Some
}

/// `s` from position `i` on with each `p`, looked for from left to right, replaced by `r`.
pub open spec fn replace_from(s: Seq<char>, p: Seq<char>, r: Seq<char>, i: int) -> Seq<char>
    decreases s.len() - i,
{
    if p.len() == 0 || i < 0 || i >= s.len() {
        Seq::empty()
    } else if stands_at(s, p, i) {
        r + replace_from(s, p, r, i + p.len())
    } else {
        seq![s[i]] + replace_from(s, p, r, i + 1)
    }
}

pub open spec fn replace(s: Seq<char>, p: Seq<char>, r: Seq<char>) -> Seq<char> {
    replace_from(s, p, r, 0)
}

pub fn at(v: &Vec<char>, p: &Vec<char>, i: usize) -> (r: bool)
    requires
        i <= v@.len(),
    ensures
        r == stands_at(v@, p@, i as int),
{
    if p.len() > v.len() - i {
        return false;
    }
    let mut k: usize = 0;
    while k < p.len()
        invariant
            k <= p@.len(),
            i + p@.len() <= v.len(),
            forall|j: int| 0 <= j < k ==> v@[i + j] == p@[j],
        decreases p@.len() - k,
    {
        if v[i + k] != p[k] {
            assert(v@.subrange(i as int, i + p@.len())[k as int] != p@[k as int]);
            return false;
        }
        k += 1;
    }
    assert(v@.subrange(i as int, i + p@.len()) =~= p@);
    true
}

pub fn has_prefix(s: &str, p: &str) -> (r: bool)
    ensures
        r == starts_with(s@, p@),
{
    let v = chars_of(s);
    let q = chars_of(p);
    assert(p@.len() <= s@.len() ==> s@.subrange(0, p@.len() as int) =~= s@.take(p@.len() as int));
    at(&v, &q, 0)
}

/// What follows the prefix `p`, where `s` has it.
pub fn without_prefix(s: &str, p: &str) -> (r: Option<String>)
    ensures
        r is Some <==> starts_with(s@, p@),
        r matches Some(t) ==> t@ == s@.skip(p@.len() as int),
{
    if has_prefix(s, p) {
        let v = chars_of(s);
        let q = chars_of(p);
        assert(v@.subrange(q@.len() as int, v@.len() as int) =~= s@.skip(p@.len() as int));
        Some(text_of(&v, q.len(), v.len()))
    } else {
        None
    }
}

/// The first position from `from` on at which `p` stands in `v`.
pub fn find_text(v: &Vec<char>, p: &Vec<char>, from: usize) -> (r: Option<usize>)
    requires
        from <= v@.len(),
    ensures
        (r is Some) == (find_from(v@, p@, from as int) is Some),
        r matches Some(i) ==> find_from(v@, p@, from as int) == Some(i as int) && from <= i
            && stands_at(v@, p@, i as int),
{
    let mut i: usize = from;
    loop
        invariant
            from <= i <= v@.len(),
            find_from(v@, p@, i as int) == find_from(v@, p@, from as int),
        decreases v@.len() - i,
    {
        if at(v, p, i) {
            return Some(i);
        }
        if i == v.len() {
            assert(find_from(v@, p@, i + 1) is None);
            return None;
        }
        i += 1;
    }
}

/// The first place of `p` is what its properties say it is.
pub proof fn lemma_find_is(s: Seq<char>, p: Seq<char>, from: int, i: int)
    requires
        0 <= from <= i,
        stands_at(s, p, i),
        forall|k: int| from <= k < i ==> !stands_at(s, p, k),
    ensures
        find_from(s, p, from) == Some(i),
    decreases i - from,
{
    if from < i {
        lemma_find_is(s, p, from + 1, i);
    }
}

pub proof fn lemma_find_none(s: Seq<char>, p: Seq<char>, from: int)
    requires
        0 <= from,
        forall|k: int| from <= k <= s.len() ==> !stands_at(s, p, k),
    ensures
        find_from(s, p, from) is None,
    decreases s.len() + 1 - from,
{
    if from <= s.len() {
        lemma_find_none(s, p, from + 1);
    }
}

pub fn has_text(s: &str, p: &str) -> (r: bool)
    ensures
        r == contains(s@, p@),
{
    let v = chars_of(s);
    let q = chars_of(p);
    find_text(&v, &q, 0).is_some()
}

/// `s` split at the first `p`: what precedes it and what follows it.
pub open spec fn split_once(s: Seq<char>, p: Seq<char>) -> Option<(Seq<char>, Seq<char>)> {
    match find_from(s, p, 0) {
        Some(i) => Some((s.take(i), s.skip(i + p.len()))),
        None => None,
    }
}

pub fn split_at_first(s: &str, p: &str) -> (r: Option<(String, String)>)
    ensures
        (r is Some) == (split_once(s@, p@) is Some),
        r matches Some(t) ==> split_once(s@, p@) == Some((t.0@, t.1@)),
{
    let v = chars_of(s);
    let q = chars_of(p);
    match find_text(&v, &q, 0) {
        Some(i) => {
            assert(i + q@.len() <= v.len());
            let a = text_of(&v, 0, i);
            let b = text_of(&v, i + q.len(), v.len());
            assert(a@ =~= s@.take(i as int));
            assert(b@ =~= s@.skip(i + p@.len()));
            Some((a, b))
        },
        None => None,
    }
}

/// `s` with each occurrence of the non-empty `p` replaced by `t`.
pub fn replaced(s: &str, p: &str, t: &str) -> (r: String)
    requires
        p@.len() > 0,
    ensures
        r@ == replace(s@, p@, t@),
{
    let v = chars_of(s);
    let q = chars_of(p);
    let mut r = String::new();
    let mut i: usize = 0;
    assert(r@ + replace_from(s@, p@, t@, 0) =~= replace_from(s@, p@, t@, 0));
    while i < v.len()
        invariant
            i <= v@.len(),
            v@ == s@,
            q@ == p@,
            p@.len() > 0,
            r@ + replace_from(s@, p@, t@, i as int) == replace(s@, p@, t@),
        decreases v@.len() - i,
    {
        let ghost r0 = r@;
        if at(&v, &q, i) {
            r.append(t);
            assert(r0 + (t@ + replace_from(s@, p@, t@, i + p@.len())) =~= r@ + replace_from(
                s@,
                p@,
                t@,
                i + p@.len(),
            ));
            i += q.len();
        } else {
            r.push(v[i]);
            assert(r0 + (seq![s@[i as int]] + replace_from(s@, p@, t@, i + 1)) =~= r@
                + replace_from(s@, p@, t@, i + 1));
            i += 1;
        }
    }
    assert(r@ + Seq::<char>::empty() =~= r@);
    r
}

// ---------------------------------------------------------------------------
// Lines, words and pieces
// ---------------------------------------------------------------------------
/// `s` without one carriage return at its end.
pub open spec fn strip_cr(s: Seq<char>) -> Seq<char> {
    if s.len() > 0 && s.last() == '\r' {
        s.drop_last()
    } else {
        s
    }
}

/// The lines of `s` from position `i` on. A line ends with a line feed, before which one
/// carriage return belongs to the ending; the last line may lack it.
pub open spec fn lines_from(s: Seq<char>, i: int) -> Seq<Seq<char>>
    decreases s.len() - i,
{
    if i < 0 || i >= s.len() {
        Seq::empty()
    } else {
        let k = i + run(s, except('\n'), i);
        if k >= s.len() {
            seq![s.skip(i)]
        } else {
            seq![strip_cr(s.subrange(i, k))] + lines_from(s, k + 1)
        }
    }
}

pub open spec fn lines(s: Seq<char>) -> Seq<Seq<char>> {
    lines_from(s, 0)
}

pub fn lines_of(s: &str) -> (r: Vec<String>)
    ensures
        texts(r@) == lines(s@),
{
    let v = chars_of(s);
    let mut r: Vec<String> = Vec::new();
    let mut i: usize = 0;
    assert(texts(r@) + lines_from(s@, 0) =~= lines(s@));
    while i < v.len()
        invariant
            i <= v@.len(),
            v@ == s@,
            texts(r@) + lines_from(s@, i as int) == lines(s@),
        decreases v@.len() - i,
    {
        let ghost r0 = texts(r@);
        let k = find_char(&v, '\n', i);
        if k >= v.len() {
            let line = text_of(&v, i, v.len());
            assert(line@ =~= s@.skip(i as int));
            r.push(line);
            assert(texts(r@) =~= r0.push(line@));
            assert(lines_from(s@, i as int) =~= seq![line@]);
            assert(texts(r@) =~= r0 + lines_from(s@, i as int));
            return r;
        }
        let end: usize = if k > i && v[k - 1] == '\r' {
            k - 1
        } else {
            k
        };
        let line = text_of(&v, i, end);
        assert(line@ =~= strip_cr(s@.subrange(i as int, k as int)));
        r.push(line);
        assert(texts(r@) =~= r0.push(line@));
        assert(r0 + (seq![line@] + lines_from(s@, k + 1)) =~= texts(r@) + lines_from(s@, k + 1));
        i = k + 1;
    }
    assert(lines_from(s@, i as int) =~= Seq::empty());
    assert(texts(r@) =~= texts(r@) + lines_from(s@, i as int));
    r
}

/// The words of `s` from position `i` on: the longest stretches without white space.
pub open spec fn words_from(s: Seq<char>, i: int) -> Seq<Seq<char>>
    decreases s.len() - i,
{
    let a = i + run(s, spaces(), i);
    if i < 0 || a >= s.len() {
        Seq::empty()
    } else {
        let b = a + 1 + run(s, non_spaces(), a + 1);
        if b >= s.len() {
            seq![s.skip(a)]
        } else {
            seq![s.subrange(a, b)] + words_from(s, b)
        }
    }
}

pub open spec fn words(s: Seq<char>) -> Seq<Seq<char>> {
    words_from(s, 0)
}

pub fn words_of(s: &str) -> (r: Vec<String>)
    ensures
        texts(r@) == words(s@),
{
    let v = chars_of(s);
    let mut r: Vec<String> = Vec::new();
    let mut i: usize = 0;
    assert(texts(r@) + words_from(s@, 0) =~= words(s@));
    loop
        invariant
            i <= v@.len(),
            v@ == s@,
            texts(r@) + words_from(s@, i as int) == words(s@),
        decreases v@.len() - i,
    {
        let ghost r0 = texts(r@);
        let a = skip_spaces(&v, i);
        if a >= v.len() {
            assert(words_from(s@, i as int) =~= Seq::empty());
            assert(texts(r@) =~= texts(r@) + words_from(s@, i as int));
            return r;
        }
        let b = skip_word(&v, a + 1);
        let word = text_of(&v, a, b);
        r.push(word);
        assert(texts(r@) =~= r0.push(word@));
        if b == v.len() {
            assert(word@ =~= s@.skip(a as int));
            assert(texts(r@) =~= r0 + words_from(s@, i as int));
            return r;
        }
        assert(r0 + (seq![word@] + words_from(s@, b as int)) =~= texts(r@) + words_from(
            s@,
            b as int,
        ));
        i = b;
    }
}

/// The pieces between the `x` in `s` from position `i` on; there is always one.
pub open spec fn pieces_from(s: Seq<char>, x: char, i: int) -> Seq<Seq<char>>
    decreases s.len() - i,
{
    let k = i + run(s, except(x), i);
    if i < 0 || k >= s.len() {
        seq![s.skip(i)]
    } else {
        seq![s.subrange(i, k)] + pieces_from(s, x, k + 1)
    }
}

pub open spec fn pieces(s: Seq<char>, x: char) -> Seq<Seq<char>> {
    pieces_from(s, x, 0)
}

pub fn pieces_of(s: &str, x: char) -> (r: Vec<String>)
    ensures
        texts(r@) == pieces(s@, x),
{
    let v = chars_of(s);
    let mut r: Vec<String> = Vec::new();
    let mut i: usize = 0;
    assert(texts(r@) + pieces_from(s@, x, 0) =~= pieces(s@, x));
    loop
        invariant
            i <= v@.len(),
            v@ == s@,
            texts(r@) + pieces_from(s@, x, i as int) == pieces(s@, x),
        decreases v@.len() - i,
    {
        let ghost r0 = texts(r@);
        let k = find_char(&v, x, i);
        if k >= v.len() {
            let piece = text_of(&v, i, v.len());
            assert(piece@ =~= s@.skip(i as int));
            r.push(piece);
            assert(texts(r@) =~= r0.push(piece@));
            assert(texts(r@) =~= r0 + pieces_from(s@, x, i as int));
            return r;
        }
        let piece = text_of(&v, i, k);
        r.push(piece);
        assert(texts(r@) =~= r0.push(piece@));
        assert(r0 + (seq![piece@] + pieces_from(s@, x, k + 1)) =~= texts(r@) + pieces_from(
            s@,
            x,
            k + 1,
        ));
        i = k + 1;
    }
}

/// `parts` one after the other with `sep` between neighbours.
pub open spec fn join(parts: Seq<Seq<char>>, sep: Seq<char>) -> Seq<char>
    decreases parts.len(),
{
    if parts.len() == 0 {
        Seq::empty()
    } else if parts.len() == 1 {
        parts[0]
    } else {
        join(parts.drop_last(), sep) + sep + parts.last()
    }
}

pub fn joined(parts: &Vec<String>, sep: &str) -> (r: String)
    ensures
        r@ == join(texts(parts@), sep@),
{
    let mut r = String::new();
    let mut i: usize = 0;
    while i < parts.len()
        invariant
            i <= parts@.len(),
            r@ == join(texts(parts@).take(i as int), sep@),
        decreases parts@.len() - i,
    {
        if i > 0 {
            r.append(sep);
        }
        r.append(parts[i].as_str());
        proof {
            let all = texts(parts@);
            let next = all.take(i + 1);
            assert(next.drop_last() =~= all.take(i as int));
            assert(next.last() == parts@[i as int]@);
            if i == 0 {
                assert(r@ =~= next[0]);
            }
        }
        i += 1;
    }
    assert(texts(parts@).take(parts@.len() as int) =~= texts(parts@));
    r
}

// ---------------------------------------------------------------------------
// Letter case
// ---------------------------------------------------------------------------
/// `s` with its ASCII capital letters turned into small ones.
pub open spec fn lower(s: Seq<char>) -> Seq<char> {
    s.map_values(|c: char| lower_char(c))
}

pub fn ascii_lowered(s: &str) -> (r: String)
    ensures
        r@ == lower(s@),
{
    let v = chars_of(s);
    let mut r = String::new();
    let mut i: usize = 0;
    while i < v.len()
        invariant
            i <= v@.len(),
            v@ == s@,
            r@ == lower(s@).take(i as int),
        decreases v@.len() - i,
    {
        r.push(ascii_lower_char(v[i]));
        i += 1;
        assert(lower(s@).take(i as int) =~= lower(s@).take(i - 1).push(lower(s@)[i - 1]));
    }
    assert(lower(s@).take(i as int) =~= lower(s@));
    r
}

/// Whether two texts are the same but for the case of ASCII letters.
pub fn same_ignoring_case(a: &str, b: &str) -> (r: bool)
    ensures
        r == (lower(a@) == lower(b@)),
{
    let x = ascii_lowered(a);
    let y = ascii_lowered(b);
    same(x.as_str(), y.as_str())
}

// ---------------------------------------------------------------------------
// Numbers
// ---------------------------------------------------------------------------
pub open spec fn digit_char(d: nat) -> char {
    ((48 + d) as u8) as char
}

/// `n` in decimal, without leading zeros.
pub open spec fn decimal(n: nat) -> Seq<char>
    decreases n,
{
    if n < 10 {
        seq![digit_char(n)]
    } else {
        decimal(n / 10).push(digit_char(n % 10))
    }
}

pub fn decimal_text(n: u64) -> (r: String)
    ensures
        r@ == decimal(n as nat),
    decreases n,
{
    let d: u8 = (n % 10) as u8;
    let c: char = (48 + d) as char;
    if n < 10 {
        let mut r = String::new();
        r.push(c);
        assert(r@ =~= seq![digit_char(n as nat)]);
        r
    } else {
        let mut r = decimal_text(n / 10);
        r.push(c);
        r
    }
}

/// The value of a row of decimal digits.
pub open spec fn digits_value(s: Seq<char>) -> nat
    decreases s.len(),
{
    if s.len() == 0 {
        0
    } else {
        digits_value(s.drop_last()) * 10 + (s.last() as nat - '0' as nat) as nat
    }
}

pub open spec fn all_digits(s: Seq<char>) -> bool {
    forall|i: int| 0 <= i < s.len() ==> is_digit(#[trigger] s[i])
}

/// `s` without a plus sign in front.
pub open spec fn unsigned_part(s: Seq<char>) -> Seq<char> {
    if s.len() > 0 && s[0] == '+' {
        s.skip(1)
    } else {
        s
    }
}

/// A number as text: an optional plus sign, then at least one digit and nothing else, with a
/// value that fits in 32 bits.
pub open spec fn parse_u32(s: Seq<char>) -> Option<u32> {
    let d = unsigned_part(s);
    if d.len() > 0 && all_digits(d) && digits_value(d) <= u32::MAX {
        Some(digits_value(d) as u32)
    } else {
        None
    }
}

pub fn parsed_u32(s: &str) -> (r: Option<u32>)
    ensures
        r == parse_u32(s@),
{
    let v = chars_of(s);
    let from: usize = if v.len() > 0 && v[0] == '+' {
        1
    } else {
        0
    };
    let ghost d = s@.skip(from as int);
    assert(d =~= unsigned_part(s@));
    if from == v.len() {
        return None;
    }
    let mut i: usize = from;
    let mut acc: u64 = 0;
    let mut over: bool = false;
    while i < v.len()
        invariant
            from <= i <= v@.len(),
            from <= 1,
            v@ == s@,
            d == s@.skip(from as int),
            d == unsigned_part(s@),
            forall|k: int| 0 <= k < i - from ==> is_digit(#[trigger] d[k]),
            !over ==> acc == digits_value(d.take(i - from)) && acc <= u32::MAX,
            over ==> digits_value(d.take(i - from)) > u32::MAX,
        decreases v@.len() - i,
    {
        let c = v[i];
        assert(d[i - from] == c);
        if !('0' <= c && c <= '9') {
            assert(!is_digit(d[i - from]));
            return None;
        }
        proof {
            let t = d.take(i - from + 1);
            assert(t.drop_last() =~= d.take(i - from));
            assert(t.last() == c);
        }
        if !over {
            let n: u64 = (c as u32 - '0' as u32) as u64;
            acc = acc * 10 + n;
            if acc > 0xffff_ffff {
                over = true;
            }
        }
        i += 1;
    }
    assert(d.take(i - from) =~= d);
    if over {
        None
    } else {
        Some(acc as u32)
    }
}

/// A text holds what stands at some place in it.
pub proof fn lemma_contains(s: Seq<char>, p: Seq<char>, i: int)
    requires
        stands_at(s, p, i),
    ensures
        contains(s, p),
{
    lemma_found_before(s, p, 0, i);
}

proof fn lemma_found_before(s: Seq<char>, p: Seq<char>, from: int, i: int)
    requires
        0 <= from <= i,
        stands_at(s, p, i),
    ensures
        find_from(s, p, from) is Some,
    decreases i - from,
{
    if !stands_at(s, p, from) {
        lemma_found_before(s, p, from + 1, i);
    }
}

/// Where in a text something stands that the text holds: nowhere before.
pub proof fn found_place(s: Seq<char>, p: Seq<char>) -> (i: int)
    requires
        contains(s, p),
    ensures
        stands_at(s, p, i),
        find_from(s, p, 0) == Some(i),
        forall|k: int| 0 <= k < i ==> !stands_at(s, p, k),
{
    lemma_found_first(s, p, 0);
    find_from(s, p, 0)->0
}

proof fn lemma_found_first(s: Seq<char>, p: Seq<char>, from: int)
    requires
        0 <= from,
        find_from(s, p, from) is Some,
    ensures
        find_from(s, p, from)->0 >= from,
        stands_at(s, p, find_from(s, p, from)->0),
        forall|k: int| from <= k < find_from(s, p, from)->0 ==> !stands_at(s, p, k),
    decreases s.len() + 1 - from,
{
    if !stands_at(s, p, from) {
        lemma_found_first(s, p, from + 1);
    }
}

// ---------------------------------------------------------------------------
// What the models above mean
// ---------------------------------------------------------------------------
proof fn lemma_run_shift(s: Seq<char>, p: spec_fn(char) -> bool, n: int, i: int)
    requires
        0 <= n,
        0 <= i,
        n + i <= s.len(),
    ensures
        run(s.skip(n), p, i) == run(s, p, n + i),
    decreases s.len() - n - i,
{
    if n + i < s.len() && p(s[n + i]) {
        assert(s.skip(n)[i] == s[n + i]);
        lemma_run_shift(s, p, n, i + 1);
    }
}

/// A capital letter of ASCII becomes its small one, in the same place of the alphabet, and
/// nothing else changes: a text keeps its length, and lowering it twice changes no more.
pub proof fn lowering_maps_capitals_only(s: Seq<char>, c: char)
    ensures
        'A' <= c <= 'Z' ==> lower_char(c) as int == c as int + ('a' as int - 'A' as int),
        !('A' <= c <= 'Z') ==> lower_char(c) == c,
        lower(s).len() == s.len(),
        forall|i: int| 0 <= i < s.len() ==> #[trigger] lower(s)[i] == lower_char(s[i]),
        lower(lower(s)) == lower(s),
{
    assert forall|i: int| 0 <= i < s.len() implies lower(lower(s))[i] == lower(s)[i] by {
        let d = lower_char(s[i]);
        assert(!('A' <= d <= 'Z'));
    }
    assert(lower(lower(s)) =~= lower(s));
}

/// Of the characters of ASCII the six that leave space are white space, and no other.
pub proof fn ascii_spaces_are_six(c: char)
    requires
        (c as u32) < 128,
    ensures
        is_space(c) == (c == ' ' || c == '\t' || c == '\n' || c == '\r' || c as u32 == 0x0b || c as u32
            == 0x0c),
{
}

/// Trimming at one end takes away white space only, and all of it; trimming at both ends leaves
/// nothing exactly of a text that is white space.
pub proof fn trimming_takes_white_space_only(s: Seq<char>)
    ensures
        trim_end(s).len() <= s.len(),
        s.take(trim_end(s).len() as int) == trim_end(s),
        forall|k: int| trim_end(s).len() <= k < s.len() ==> is_space(#[trigger] s[k]),
        trim_end(s).len() > 0 ==> !is_space(trim_end(s).last()),
        trim_start(s).len() <= s.len(),
        s.skip(s.len() - trim_start(s).len()) == trim_start(s),
        forall|k: int| 0 <= k < s.len() - trim_start(s).len() ==> is_space(#[trigger] s[k]),
        trim_start(s).len() > 0 ==> !is_space(trim_start(s)[0]),
        is_blank(s) == (forall|k: int| 0 <= k < s.len() ==> is_space(#[trigger] s[k])),
{
    lemma_run_back(s, spaces(), s.len() as int);
    lemma_run(s, spaces(), 0);
    let (a, b) = trim_span(s);
    assert(s.take(trim_end(s).len() as int) =~= trim_end(s));
    assert(s.skip(s.len() - trim_start(s).len()) =~= trim_start(s));
    if a < b {
        assert(!is_space(s[a]));
    }
}

proof fn lemma_lines_shift(s: Seq<char>, n: int, i: int)
    requires
        0 <= n,
        0 <= i,
        n + i <= s.len(),
    ensures
        lines_from(s.skip(n), i) == lines_from(s, n + i),
    decreases s.len() - n - i,
{
    if n + i < s.len() {
        let t = s.skip(n);
        lemma_run_shift(s, except('\n'), n, i);
        lemma_run(s, except('\n'), n + i);
        let k = n + i + run(s, except('\n'), n + i);
        if k >= s.len() {
            assert(t.skip(i) =~= s.skip(n + i));
        } else {
            assert(t.subrange(i, k - n) =~= s.subrange(n + i, k));
            lemma_lines_shift(s, n, k - n + 1);
        }
    }
}

/// Lines are what line feeds divide: what stands before the first one is the first line, but
/// for one carriage return at its end, and the lines of the rest follow. Text without a line
/// feed is one line, and no text is none.
pub proof fn line_feeds_divide_lines(line: Seq<char>, rest: Seq<char>)
    requires
        forall|k: int| 0 <= k < line.len() ==> #[trigger] line[k] != '\n',
    ensures
        lines(line.push('\n') + rest) == seq![strip_cr(line)] + lines(rest),
        lines(line) == if line.len() == 0 {
            Seq::<Seq<char>>::empty()
        } else {
            seq![line]
        },
        strip_cr(line.push('\r')) == line,
        !(line.len() > 0 && line.last() == '\r') ==> strip_cr(line) == line,
{
    let s = line.push('\n') + rest;
    let n = line.len() as int;
    assert forall|k: int| 0 <= k < n implies except('\n')(#[trigger] s[k]) by {
        assert(s[k] == line[k]);
    }
    assert(s[n] == '\n');
    lemma_run_is(s, except('\n'), 0, n as nat);
    assert(s.subrange(0, n) =~= line);
    lemma_lines_shift(s, n + 1, 0);
    assert(s.skip(n + 1) =~= rest);
    lemma_run_is(line, except('\n'), 0, n as nat);
    assert(line.skip(0) =~= line);
    assert(line.push('\r').drop_last() =~= line);
}

proof fn lemma_words_shift(s: Seq<char>, n: int, i: int)
    requires
        0 <= n,
        0 <= i,
        n + i <= s.len(),
    ensures
        words_from(s.skip(n), i) == words_from(s, n + i),
    decreases s.len() - n - i,
{
    let t = s.skip(n);
    lemma_run_shift(s, spaces(), n, i);
    lemma_run(s, spaces(), n + i);
    let a = n + i + run(s, spaces(), n + i);
    if a < s.len() {
        lemma_run_shift(s, non_spaces(), n, a - n + 1);
        lemma_run(s, non_spaces(), a + 1);
        let b = a + 1 + run(s, non_spaces(), a + 1);
        if b >= s.len() {
            assert(t.skip(a - n) =~= s.skip(a));
        } else {
            assert(t.subrange(a - n, b - n) =~= s.subrange(a, b));
            lemma_words_shift(s, n, b - n);
        }
    }
}

/// Words are what white space divides: a word before white space is the first one and the words
/// of the rest follow, white space in front counts for nothing, and a word alone is one word.
pub proof fn white_space_divides_words(word: Seq<char>, c: char, rest: Seq<char>)
    requires
        word.len() > 0,
        forall|k: int| 0 <= k < word.len() ==> !is_space(#[trigger] word[k]),
        is_space(c),
    ensures
        words(word.push(c) + rest) == seq![word] + words(rest),
        words(seq![c] + rest) == words(rest),
        words(word) == seq![word],
        words(Seq::empty()).len() == 0,
{
    let s = word.push(c) + rest;
    let n = word.len() as int;
    assert forall|k: int| 0 <= k < n implies non_spaces()(#[trigger] s[k]) by {
        assert(s[k] == word[k]);
    }
    assert(s[n] == c);
    assert(s[0] == word[0]);
    lemma_run_is(s, spaces(), 0, 0);
    lemma_run_is(s, non_spaces(), 1, (n - 1) as nat);
    assert(s.subrange(0, n) =~= word);
    assert(run(s, spaces(), n) == 1 + run(s, spaces(), n + 1));
    assert(words_from(s, n) == words_from(s, n + 1));
    lemma_words_shift(s, n + 1, 0);
    assert(s.skip(n + 1) =~= rest);
    let u = seq![c] + rest;
    assert(u[0] == c);
    assert(run(u, spaces(), 0) == 1 + run(u, spaces(), 1));
    assert(words_from(u, 0) == words_from(u, 1));
    lemma_words_shift(u, 1, 0);
    assert(u.skip(1) =~= rest);
    lemma_run_is(word, spaces(), 0, 0);
    lemma_run_is(word, non_spaces(), 1, (n - 1) as nat);
    assert(word.skip(0) =~= word);
    let none = Seq::<char>::empty();
    assert(words_from(none, 0).len() == 0);
}

proof fn lemma_pieces_shift(s: Seq<char>, x: char, n: int, i: int)
    requires
        0 <= n,
        0 <= i,
        n + i <= s.len(),
    ensures
        pieces_from(s.skip(n), x, i) == pieces_from(s, x, n + i),
    decreases s.len() - n - i,
{
    let t = s.skip(n);
    lemma_run_shift(s, except(x), n, i);
    lemma_run(s, except(x), n + i);
    let k = n + i + run(s, except(x), n + i);
    if k >= s.len() {
        assert(t.skip(i) =~= s.skip(n + i));
    } else {
        assert(t.subrange(i, k - n) =~= s.subrange(n + i, k));
        lemma_pieces_shift(s, x, n, k - n + 1);
    }
}

/// Pieces are what each `x` divides: what stands before the first one is the first piece, and
/// the pieces of the rest follow. Text without `x` is one piece.
pub proof fn separators_divide_pieces(piece: Seq<char>, x: char, rest: Seq<char>)
    requires
        forall|k: int| 0 <= k < piece.len() ==> #[trigger] piece[k] != x,
    ensures
        pieces(piece.push(x) + rest, x) == seq![piece] + pieces(rest, x),
        pieces(piece, x) == seq![piece],
{
    let s = piece.push(x) + rest;
    let n = piece.len() as int;
    assert forall|k: int| 0 <= k < n implies except(x)(#[trigger] s[k]) by {
        assert(s[k] == piece[k]);
    }
    assert(s[n] == x);
    lemma_run_is(s, except(x), 0, n as nat);
    assert(s.subrange(0, n) =~= piece);
    lemma_pieces_shift(s, x, n + 1, 0);
    assert(s.skip(n + 1) =~= rest);
    lemma_run_is(piece, except(x), 0, n as nat);
    assert(piece.skip(0) =~= piece);
}

/// Joining puts the separator between neighbours and nowhere else, and keeps every part whole.
pub proof fn joining_keeps_every_part(parts: Seq<Seq<char>>, part: Seq<char>, sep: Seq<char>)
    ensures
        join(parts.push(part), sep) == if parts.len() == 0 {
            part
        } else {
            join(parts, sep) + sep + part
        },
        join(Seq::empty(), sep).len() == 0,
{
    assert(parts.push(part).drop_last() =~= parts);
}

proof fn lemma_replace_shift(s: Seq<char>, p: Seq<char>, r: Seq<char>, n: int, i: int)
    requires
        0 <= n,
        0 <= i,
        n + i <= s.len(),
    ensures
        replace_from(s.skip(n), p, r, i) == replace_from(s, p, r, n + i),
    decreases s.len() - n - i,
{
    if p.len() > 0 && n + i < s.len() {
        let t = s.skip(n);
        if i + p.len() <= t.len() {
            assert(t.subrange(i, i + p.len()) =~= s.subrange(n + i, n + i + p.len()));
        }
        assert(stands_at(t, p, i) == stands_at(s, p, n + i));
        if stands_at(s, p, n + i) {
            lemma_replace_shift(s, p, r, n, i + p.len());
        } else {
            lemma_replace_shift(s, p, r, n, i + 1);
        }
    }
}

proof fn lemma_replace_reaches(s: Seq<char>, p: Seq<char>, r: Seq<char>, i: int, j: int)
    requires
        p.len() > 0,
        0 <= i <= j <= s.len(),
        forall|k: int| i <= k < j ==> !stands_at(s, p, k),
    ensures
        replace_from(s, p, r, i) == s.subrange(i, j) + replace_from(s, p, r, j),
    decreases j - i,
{
    if i < j {
        lemma_replace_reaches(s, p, r, i + 1, j);
        assert(s.subrange(i, j) =~= seq![s[i]] + s.subrange(i + 1, j));
        assert(replace_from(s, p, r, i) =~= s.subrange(i, j) + replace_from(s, p, r, j));
    } else {
        assert(s.subrange(i, j) + replace_from(s, p, r, j) =~= replace_from(s, p, r, j));
    }
}

/// Replacing leaves a text alone that does not hold what is replaced. Where it does, everything
/// before the first place stays, the new text follows, and behind it the rest is replaced in the
/// same way.
pub proof fn replacing_goes_from_place_to_place(s: Seq<char>, p: Seq<char>, r: Seq<char>)
    requires
        p.len() > 0,
    ensures
        !contains(s, p) ==> replace(s, p, r) == s,
        find_from(s, p, 0) matches Some(i) ==> 0 <= i <= s.len() - p.len() && replace(s, p, r)
            == s.take(i) + r + replace(s.skip(i + p.len()), p, r),
{
    if contains(s, p) {
        let i = found_place(s, p);
        lemma_replace_reaches(s, p, r, 0, i);
        lemma_replace_shift(s, p, r, i + p.len(), 0);
        assert(s.subrange(0, i) =~= s.take(i));
        assert(replace(s, p, r) =~= s.take(i) + r + replace(s.skip(i + p.len()), p, r));
    } else {
        assert forall|k: int| 0 <= k < s.len() implies !stands_at(s, p, k) by {
            if stands_at(s, p, k) {
                lemma_contains(s, p, k);
            }
        }
        lemma_replace_reaches(s, p, r, 0, s.len() as int);
        assert(s.subrange(0, s.len() as int) =~= s);
        assert(replace(s, p, r) =~= s);
    }
}

/// A text that is split is what precedes the separator, the separator and what follows it, and
/// the separator does not stand earlier. A text that holds the separator is split.
pub proof fn splitting_loses_nothing(s: Seq<char>, p: Seq<char>)
    ensures
        (split_once(s, p) is Some) == contains(s, p),
        split_once(s, p) matches Some(t) ==> s == t.0 + p + t.1 && forall|k: int|
            0 <= k < t.0.len() ==> !stands_at(s, p, k),
{
    if contains(s, p) {
        let i = found_place(s, p);
        assert(s =~= s.take(i) + p + s.skip(i + p.len())) by {
            assert(s.subrange(i, i + p.len()) == p);
            assert forall|k: int| i <= k < i + p.len() implies s[k] == p[k - i] by {
                assert(s.subrange(i, i + p.len())[k - i] == s[k]);
            }
        }
    }
}

proof fn lemma_decimal(n: nat)
    ensures
        all_digits(decimal(n)),
        decimal(n).len() > 0,
        digits_value(decimal(n)) == n,
        n > 0 ==> decimal(n)[0] != '0',
    decreases n,
{
    let d = n % 10;
    let c = digit_char(d);
    assert(c as nat == 48 + d);
    assert(is_digit(c));
    let s = decimal(n);
    assert(s.last() == c);
    if n >= 10 {
        lemma_decimal(n / 10);
        assert(s.drop_last() =~= decimal(n / 10));
        assert forall|i: int| 0 <= i < s.len() implies is_digit(#[trigger] s[i]) by {
            if i < s.len() - 1 {
                assert(s[i] == decimal(n / 10)[i]);
            }
        }
        assert(s[0] == decimal(n / 10)[0]);
    } else {
        assert(s.drop_last() =~= Seq::empty());
        assert(digits_value(s.drop_last()) == 0);
    }
}

/// A number in decimal is read back as that number, and has no leading zero.
pub proof fn numbers_read_back(n: nat)
    ensures
        all_digits(decimal(n)),
        digits_value(decimal(n)) == n,
        n > 0 ==> decimal(n)[0] != '0',
        n <= u32::MAX ==> parse_u32(decimal(n)) == Some(n as u32),
        n <= u32::MAX ==> parse_u32(seq!['+'] + decimal(n)) == Some(n as u32),
{
    lemma_decimal(n);
    let d = decimal(n);
    assert(is_digit(d[0]));
    let e = seq!['+'] + d;
    assert(e.skip(1) =~= d);
}

/// Trimming twice is trimming once, and a text with no white space at either end stays as it is.
pub proof fn trimming_twice_is_trimming_once(s: Seq<char>)
    ensures
        trim(trim(s)) == trim(s),
        s.len() > 0 && !is_space(s[0]) && !is_space(s.last()) ==> trim(s) == s,
        trim(s).len() > 0 ==> !is_space(trim(s)[0]) && !is_space(trim(s).last()),
{
    let (a, b) = trim_span(s);
    let t = trim(s);
    lemma_trim_is(t, 0, t.len() as int);
    assert(t.subrange(0, t.len() as int) =~= t);
    if s.len() > 0 && !is_space(s[0]) && !is_space(s.last()) {
        lemma_trim_is(s, 0, s.len() as int);
        assert(s.subrange(0, s.len() as int) =~= s);
    }
}

/// A text starts with what stands at its front and holds what stands anywhere in it; and where it
/// starts with something, that and the rest are the text.
pub proof fn starting_and_holding(a: Seq<char>, p: Seq<char>, b: Seq<char>, s: Seq<char>)
    ensures
        starts_with(p + b, p),
        starts_with(s, p) ==> s == p + s.skip(p.len() as int),
        contains(a + p + b, p),
        contains(s, p) ==> exists|i: int|
            0 <= i <= s.len() - p.len() && #[trigger] s.subrange(i, i + p.len()) == p,
{
    assert((p + b).take(p.len() as int) =~= p);
    if starts_with(s, p) {
        assert(s =~= s.take(p.len() as int) + s.skip(p.len() as int));
    }
    let t = a + p + b;
    let n = a.len() as int;
    assert(t.subrange(n, n + p.len()) =~= p);
    lemma_contains(t, p, n);
    if contains(s, p) {
        let i = found_place(s, p);
        assert(s.subrange(i, i + p.len()) == p);
    }
}

/// The texts of a list are those of its members, each in its place.
pub proof fn lists_of_texts_keep_their_places(
    v: Seq<String>,
    w: Seq<&str>,
    o: Option<String>,
    i: int,
)
    ensures
        texts(v).len() == v.len(),
        strs(w).len() == w.len(),
        0 <= i < v.len() ==> texts(v)[i] == v[i]@,
        0 <= i < w.len() ==> strs(w)[i] == w[i]@,
        (opt_text(o) is Some) == (o is Some),
        o matches Some(s) ==> opt_text(o) == Some(s@),
{
}

} // verus!
