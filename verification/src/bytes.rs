//! The length of text in UTF-8.
use crate::text::{chars_of, text_of};
use vstd::prelude::*;

verus! {

/// How many bytes a character takes.
pub open spec fn char_width(c: char) -> nat {
    if (c as u32) < 0x80 {
        1
    } else if (c as u32) < 0x800 {
        2
    } else if (c as u32) < 0x10000 {
        3
    } else {
        4
    }
}

/// How many bytes a text takes.
pub open spec fn utf8_len(s: Seq<char>) -> nat
    decreases s.len(),
{
    if s.len() == 0 {
        0
    } else {
        utf8_len(s.drop_last()) + char_width(s.last())
    }
}

pub fn width_of(c: char) -> (r: usize)
    ensures
        r == char_width(c),
        1 <= r <= 4,
{
    let n: u32 = c as u32;
    if n < 0x80 {
        1
    } else if n < 0x800 {
        2
    } else if n < 0x10000 {
        3
    } else {
        4
    }
}

proof fn lemma_utf8_len_grows(s: Seq<char>, i: int, j: int)
    requires
        0 <= i <= j <= s.len(),
    ensures
        utf8_len(s.take(i)) <= utf8_len(s.take(j)),
    decreases j,
{
    if i < j {
        lemma_utf8_len_grows(s, i, j - 1);
        assert(s.take(j).drop_last() =~= s.take(j - 1));
    }
}

/// Whether a text takes more than `limit` bytes.
pub fn longer_than(s: &str, limit: usize) -> (r: bool)
    ensures
        r == (utf8_len(s@) > limit),
{
    let v = chars_of(s);
    let mut left: usize = limit;
    let mut i: usize = 0;
    assert(s@.take(0) =~= Seq::empty());
    while i < v.len()
        invariant
            i <= v@.len(),
            v@ == s@,
            left <= limit,
            utf8_len(s@.take(i as int)) == limit - left,
        decreases v@.len() - i,
    {
        let w = width_of(v[i]);
        assert(s@.take(i + 1).drop_last() =~= s@.take(i as int));
        if w > left {
            proof {
                lemma_utf8_len_grows(s@, i + 1, s@.len() as int);
                assert(s@.take(s@.len() as int) =~= s@);
            }
            return true;
        }
        left = left - w;
        i += 1;
    }
    assert(s@.take(i as int) =~= s@);
    false
}

/// How many characters of `s` from `k` on it takes, after `have` bytes, until `limit` bytes are
/// there.
pub open spec fn chars_until(s: Seq<char>, k: int, have: int, limit: int) -> int
    decreases s.len() - k,
{
    if k < 0 || k >= s.len() || have >= limit {
        k
    } else {
        chars_until(s, k + 1, have + char_width(s[k]), limit)
    }
}

/// The start of `s` up to the first boundary between characters from byte `limit` on.
pub open spec fn start_until(s: Seq<char>, limit: int) -> Seq<char> {
    s.take(chars_until(s, 0, 0, limit))
}

/// The start of `s` up to the first boundary between characters from byte `limit` on.
pub fn cut_at_boundary(s: &str, limit: usize) -> (r: String)
    requires
        limit <= usize::MAX - 4,
    ensures
        r@ == start_until(s@, limit as int),
{
    let v = chars_of(s);
    let mut k: usize = 0;
    let mut have: usize = 0;
    while k < v.len() && have < limit
        invariant
            k <= v@.len(),
            v@ == s@,
            have <= limit + 4,
            limit <= usize::MAX - 4,
            chars_until(s@, k as int, have as int, limit as int) == chars_until(
                s@,
                0,
                0,
                limit as int,
            ),
        decreases v@.len() - k,
    {
        have = have + width_of(v[k]);
        k += 1;
    }
    let r = text_of(&v, 0, k);
    assert(r@ =~= s@.take(k as int));
    r
}

proof fn lemma_take_width(s: Seq<char>, k: int)
    requires
        0 <= k < s.len(),
    ensures
        utf8_len(s.take(k + 1)) == utf8_len(s.take(k)) + char_width(s[k]),
{
    assert(s.take(k + 1).drop_last() =~= s.take(k));
}

proof fn lemma_chars_until(s: Seq<char>, k: int, limit: int)
    requires
        0 <= k <= s.len(),
    ensures
        ({
            let n = chars_until(s, k, utf8_len(s.take(k)) as int, limit);
            &&& k <= n <= s.len()
            &&& n < s.len() ==> utf8_len(s.take(n)) >= limit
            &&& n > k ==> utf8_len(s.take(n - 1)) < limit
        }),
    decreases s.len() - k,
{
    if k < s.len() && utf8_len(s.take(k)) < limit {
        lemma_take_width(s, k);
        lemma_chars_until(s, k + 1, limit);
    }
}

/// A text that is cut at a number of bytes keeps its start, and no character is cut in two: it
/// is the shortest start of that many bytes at least, or the whole text where that is shorter.
pub proof fn cut_texts_keep_their_start(s: Seq<char>, limit: int)
    ensures
        start_until(s, limit).len() <= s.len(),
        s.take(start_until(s, limit).len() as int) == start_until(s, limit),
        start_until(s, limit).len() < s.len() ==> utf8_len(start_until(s, limit)) >= limit,
        start_until(s, limit).len() > 0 ==> utf8_len(start_until(s, limit).drop_last()) < limit,
{
    assert(s.take(0) =~= Seq::empty());
    lemma_chars_until(s, 0, limit);
    let n = chars_until(s, 0, 0, limit);
    assert(s.take(n).len() == n);
    if n > 0 {
        assert(s.take(n).drop_last() =~= s.take(n - 1));
    }
}

/// A text takes as many bytes as its characters together, and a character of ASCII takes one.
pub proof fn bytes_add_up(a: Seq<char>, b: Seq<char>, c: char)
    ensures
        utf8_len(a + b) == utf8_len(a) + utf8_len(b),
        (c as u32) < 128 ==> utf8_len(seq![c]) == 1,
        1 <= utf8_len(seq![c]) <= 4,
    decreases b.len(),
{
    reveal_with_fuel(utf8_len, 2);
    assert(seq![c].drop_last() =~= Seq::empty());
    if b.len() == 0 {
        assert(a + b =~= a);
    } else {
        bytes_add_up(a, b.drop_last(), c);
        assert((a + b).drop_last() =~= a + b.drop_last());
        assert((a + b).last() == b.last());
    }
}

} // verus!
