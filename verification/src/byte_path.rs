//! Paths as bytes. A path of the file system need not be text: as bytes it is kept as it is.
use vstd::prelude::*;
use vstd::string::StrSliceExecFns;
use vstd::utf8::{encode_scalar, encode_utf8};

verus! {

/// `name` below `base`. An absolute `name` stands for itself.
pub open spec fn join_bytes(base: Seq<u8>, name: Seq<u8>) -> Seq<u8> {
    if name.len() > 0 && name[0] == 0x2f {
        name
    } else if base.len() == 0 || base.last() == 0x2f {
        base + name
    } else {
        base.push(0x2f) + name
    }
}

/// What has the text `name` as its name, below `base`.
pub open spec fn path_below(base: Seq<u8>, name: Seq<char>) -> Seq<u8> {
    join_bytes(base, encode_utf8(name))
}

/// What has the text `name` as its name, below `base`.
pub fn joined_bytes(base: &Vec<u8>, name: &str) -> (r: Vec<u8>)
    ensures
        r@ == path_below(base@, name@),
{
    let mut n = name.as_bytes_vec();
    if n.len() > 0 && n[0] == 0x2f {
        return n;
    }
    let mut r = base.clone();
    if base.len() > 0 && base[base.len() - 1] != 0x2f {
        r.push(0x2f);
    }
    r.append(&mut n);
    r
}

pub open spec fn opt_bytes(o: Option<Vec<u8>>) -> Option<Seq<u8>> {
    match o {
        Some(b) => Some(b@),
        None => None,
    }
}

proof fn lemma_scalar_bytes(n: u32)
    requires
        n != 0x2f,
    ensures
        encode_scalar(n).len() > 0,
        forall|i: int| 0 <= i < encode_scalar(n).len() ==> #[trigger] encode_scalar(n)[i] != 0x2f,
{
    assert(n <= 0x7f && n != 0x2f ==> (n & 0x7F) as u8 != 0x2f) by (bit_vector);
    assert(0xC0u8 | ((n >> 6) & 0x1F) as u8 != 0x2f) by (bit_vector);
    assert(0xE0u8 | ((n >> 12) & 0x0F) as u8 != 0x2f) by (bit_vector);
    assert(0xF0u8 | ((n >> 18) & 0x7) as u8 != 0x2f) by (bit_vector);
    assert(0x80u8 | (n & 0x3F) as u8 != 0x2f) by (bit_vector);
    assert(0x80u8 | ((n >> 6) & 0x3F) as u8 != 0x2f) by (bit_vector);
    assert(0x80u8 | ((n >> 12) & 0x3F) as u8 != 0x2f) by (bit_vector);
}

proof fn lemma_char_bytes(c: char)
    requires
        c != '/',
    ensures
        encode_scalar(c as u32).len() > 0,
        forall|i: int|
            0 <= i < encode_scalar(c as u32).len() ==> #[trigger] encode_scalar(c as u32)[i] != 0x2f,
{
    lemma_scalar_bytes(c as u32);
}

/// The bytes of a text without a separator hold no separator either, and are none only where
/// the text is empty.
pub proof fn lemma_name_bytes(s: Seq<char>)
    requires
        forall|i: int| 0 <= i < s.len() ==> #[trigger] s[i] != '/',
    ensures
        s.len() > 0 ==> encode_utf8(s).len() > 0,
        forall|i: int| 0 <= i < encode_utf8(s).len() ==> #[trigger] encode_utf8(s)[i] != 0x2f,
    decreases s.len(),
{
    if s.len() > 0 {
        let head = encode_scalar(s[0] as u32);
        let rest = s.drop_first();
        lemma_char_bytes(s[0]);
        assert forall|i: int| 0 <= i < rest.len() implies #[trigger] rest[i] != '/' by {
            assert(rest[i] == s[i + 1]);
        }
        lemma_name_bytes(rest);
        assert forall|i: int| 0 <= i < encode_utf8(s).len() implies #[trigger] encode_utf8(s)[i]
            != 0x2f by {
            if i < head.len() {
                assert(encode_utf8(s)[i] == head[i]);
            } else {
                assert(encode_utf8(s)[i] == encode_utf8(rest)[i - head.len()]);
            }
        }
    }
}

/// The bytes of two texts, one behind the other.
pub proof fn lemma_bytes_add(a: Seq<char>, b: Seq<char>)
    ensures
        encode_utf8(a + b) == encode_utf8(a) + encode_utf8(b),
    decreases a.len(),
{
    if a.len() == 0 {
        assert(a + b =~= b);
        assert(encode_utf8(a + b) =~= encode_utf8(a) + encode_utf8(b));
    } else {
        assert((a + b).drop_first() =~= a.drop_first() + b);
        assert((a + b)[0] == a[0]);
        lemma_bytes_add(a.drop_first(), b);
        assert(encode_utf8(a + b) =~= encode_utf8(a) + encode_utf8(b));
    }
}

} // verus!
