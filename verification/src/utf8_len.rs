//! UTF-8 byte lengths of character sequences and byte-budget truncation.

use vstd::prelude::*;
use vstd::utf8::encode_utf8;

verus! {

/// Bytes in the UTF-8 encoding of `c`.
pub open spec fn char_width(c: char) -> nat {
    let u = c as u32;
    if u <= 0x7F {
        1
    } else if u <= 0x7FF {
        2
    } else if u <= 0xFFFF {
        3
    } else {
        4
    }
}

/// Bytes in the UTF-8 encoding of `s` (what `str::len` returns).
pub open spec fn utf8_len(s: Seq<char>) -> nat {
    encode_utf8(s).len()
}

/// Appending a character adds its width.
pub proof fn lemma_utf8_len_push(s: Seq<char>, c: char)
    ensures
        utf8_len(s.push(c)) == utf8_len(s) + char_width(c),
    decreases s.len(),
{
    vstd::utf8::char_is_scalar(c);
    if s.len() == 0 {
        assert(s.push(c).drop_first() =~= Seq::<char>::empty());
        assert(encode_utf8(Seq::<char>::empty()).len() == 0);
    } else {
        assert(s.push(c).drop_first() =~= s.drop_first().push(c));
        lemma_utf8_len_push(s.drop_first(), c);
        vstd::utf8::char_is_scalar(s[0]);
    }
}

/// Longer prefixes are never shorter in bytes.
pub proof fn lemma_utf8_len_prefix_monotone(s: Seq<char>, i: int, j: int)
    requires
        0 <= i <= j <= s.len(),
    ensures
        utf8_len(s.take(i)) <= utf8_len(s.take(j)),
    decreases j - i,
{
    if i < j {
        lemma_utf8_len_prefix_monotone(s, i, j - 1);
        assert(s.take(j) =~= s.take(j - 1).push(s[j - 1]));
        lemma_utf8_len_push(s.take(j - 1), s[j - 1]);
    }
}

/// Byte width of `c`.
pub fn char_len_utf8(c: char) -> (r: usize)
    ensures
        r == char_width(c),
{
    let u = c as u32;
    if u <= 0x7F {
        1
    } else if u <= 0x7FF {
        2
    } else if u <= 0xFFFF {
        3
    } else {
        4
    }
}

/// The longest prefix of `s` whose UTF-8 encoding fits in `max_bytes`
/// bytes: `s` cut at the last character boundary at or before `max_bytes`.
/// Returns the characters kept and their byte length.
pub fn prefix_within_bytes(s: &Vec<char>, max_bytes: usize) -> (r: (usize, usize))
    ensures
        r.0 <= s@.len(),
        r.1 == utf8_len(s@.take(r.0 as int)),
        r.1 <= max_bytes,
        r.0 < s@.len() ==> utf8_len(s@.take(r.0 + 1)) > max_bytes,
{
    let mut k: usize = 0;
    let mut bytes: usize = 0;
    proof {
        assert(s@.take(0) =~= Seq::<char>::empty());
        assert(encode_utf8(Seq::<char>::empty()).len() == 0);
    }
    while k < s.len()
        invariant
            0 <= k <= s@.len(),
            bytes == utf8_len(s@.take(k as int)),
            bytes <= max_bytes,
        decreases s@.len() - k,
    {
        let w = char_len_utf8(s[k]);
        proof {
            assert(s@.take(k + 1) =~= s@.take(k as int).push(s@[k as int]));
            lemma_utf8_len_push(s@.take(k as int), s@[k as int]);
        }
        if w > max_bytes - bytes {
            return (k, bytes);
        }
        bytes = bytes + w;
        k = k + 1;
    }
    (k, bytes)
}

/// Byte length of a string (`str::len`).
pub fn str_byte_len(s: &str) -> (r: usize)
    ensures
        r == utf8_len(s@),
{
    let b = s.as_bytes();
    b.len()
}

/// Byte length of a character sequence.
pub fn utf8_len_of(s: &Vec<char>) -> (r: usize)
    requires
        utf8_len(s@) <= usize::MAX,
    ensures
        r == utf8_len(s@),
{
    let mut k: usize = 0;
    let mut bytes: usize = 0;
    proof {
        assert(s@.take(0) =~= Seq::<char>::empty());
        assert(encode_utf8(Seq::<char>::empty()).len() == 0);
    }
    while k < s.len()
        invariant
            0 <= k <= s@.len(),
            bytes == utf8_len(s@.take(k as int)),
            utf8_len(s@) <= usize::MAX,
        decreases s@.len() - k,
    {
        let w = char_len_utf8(s[k]);
        proof {
            assert(s@.take(k + 1) =~= s@.take(k as int).push(s@[k as int]));
            lemma_utf8_len_push(s@.take(k as int), s@[k as int]);
            lemma_utf8_len_prefix_monotone(s@, k + 1, s@.len() as int);
            assert(s@.take(s@.len() as int) =~= s@);
        }
        bytes = bytes + w;
        k = k + 1;
    }
    proof {
        assert(s@.take(k as int) =~= s@);
    }
    bytes
}

} // verus!
