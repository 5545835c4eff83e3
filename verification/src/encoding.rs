//! UTF-8 byte lengths of character sequences, and cutting a string to a
//! byte budget at a character boundary.

use vstd::prelude::*;
use vstd::utf8::{char_is_scalar, encode_scalar, encode_utf8};

use crate::text::push_char;

verus! {

/// Number of bytes in the UTF-8 encoding of `c`.
pub open spec fn char_utf8_len(c: char) -> nat {
    if (c as u32) <= 0x7F {
        1
    } else if (c as u32) <= 0x7FF {
        2
    } else if (c as u32) <= 0xFFFF {
        3
    } else {
        4
    }
}

/// Number of bytes in the UTF-8 encoding of `s` (what `str::len` returns).
pub open spec fn utf8_len(s: Seq<char>) -> nat
    decreases s.len(),
{
    if s.len() == 0 {
        0
    } else {
        utf8_len(s.drop_last()) + char_utf8_len(s.last())
    }
}

proof fn lemma_encode_utf8_concat(a: Seq<char>, b: Seq<char>)
    ensures
        encode_utf8(a + b) == encode_utf8(a) + encode_utf8(b),
    decreases a.len(),
{
    if a.len() == 0 {
        assert(a + b =~= b);
        assert(encode_utf8(a) =~= Seq::<u8>::empty());
        assert(encode_utf8(a) + encode_utf8(b) =~= encode_utf8(b));
    } else {
        assert((a + b).drop_first() =~= a.drop_first() + b);
        assert((a + b)[0] == a[0]);
        lemma_encode_utf8_concat(a.drop_first(), b);
        assert(encode_utf8(a + b) =~= encode_utf8(a) + encode_utf8(b));
    }
}

/// `utf8_len` is the length of vstd's UTF-8 encoding.
pub proof fn lemma_utf8_len(s: Seq<char>)
    ensures
        encode_utf8(s).len() == utf8_len(s),
    decreases s.len(),
{
    if s.len() > 0 {
        let c = s.last();
        lemma_utf8_len(s.drop_last());
        lemma_encode_utf8_concat(s.drop_last(), seq![c]);
        assert(s.drop_last() + seq![c] =~= s);
        char_is_scalar(c);
        assert(seq![c].drop_first() =~= Seq::<char>::empty());
        assert(encode_utf8(seq![c]) =~= encode_scalar(c as u32) + encode_utf8(Seq::<char>::empty()));
        assert(encode_utf8(seq![c]).len() == char_utf8_len(c));
    }
}

/// Longer prefixes never encode to fewer bytes.
pub proof fn lemma_utf8_len_prefix_mono(s: Seq<char>, a: int, b: int)
    requires
        0 <= a <= b <= s.len(),
    ensures
        utf8_len(s.take(a)) <= utf8_len(s.take(b)),
    decreases b - a,
{
    if a < b {
        lemma_utf8_len_prefix_mono(s, a, b - 1);
        assert(s.take(b).drop_last() =~= s.take(b - 1));
    }
}

/// `k` characters are the longest prefix of `s` that fits in `max` bytes,
/// and a character of `s` is left out.
pub open spec fn is_cut(s: Seq<char>, max: nat, k: int) -> bool {
    &&& 0 <= k < s.len()
    &&& utf8_len(s.take(k)) <= max
    &&& utf8_len(s.take(k + 1)) > max
}

/// `s` when it fits in `max` bytes; otherwise its longest prefix that fits,
/// followed by `…`.
pub open spec fn truncated(s: Seq<char>, max: nat) -> Seq<char> {
    if utf8_len(s) <= max {
        s
    } else {
        s.take(choose|k: int| is_cut(s, max, k)) + seq!['\u{2026}']
    }
}

proof fn lemma_cut_unique(s: Seq<char>, max: nat, k: int)
    requires
        is_cut(s, max, k),
    ensures
        (choose|j: int| is_cut(s, max, j)) == k,
{
    let j = choose|j: int| is_cut(s, max, j);
    assert(is_cut(s, max, j));
    if j < k {
        lemma_utf8_len_prefix_mono(s, j + 1, k);
    }
    if k < j {
        lemma_utf8_len_prefix_mono(s, k + 1, j);
    }
}

fn char_width(c: char) -> (w: usize)
    ensures
        w == char_utf8_len(c),
{
    let x = c as u32;
    if x <= 0x7F {
        1
    } else if x <= 0x7FF {
        2
    } else if x <= 0xFFFF {
        3
    } else {
        4
    }
}

/// Number of UTF-8 bytes of `s`.
pub fn byte_len(s: &str) -> (n: usize)
    requires
        utf8_len(s@) <= usize::MAX,
    ensures
        n == utf8_len(s@),
{
    proof {
        lemma_utf8_len(s@);
    }
    s.len()
}

/// `s` cut to at most `max` bytes at a character boundary, with `…`
/// appended when something was cut.
pub fn truncate(s: &str, max: usize) -> (r: String)
    requires
        utf8_len(s@) <= usize::MAX,
    ensures
        r@ == truncated(s@, max as nat),
{
    if byte_len(s) <= max {
        return s.to_owned();
    }
    let n = s.unicode_len();
    let mut k: usize = 0;
    let mut bytes: usize = 0;
    loop
        invariant
            n == s@.len(),
            k <= n,
            bytes == utf8_len(s@.take(k as int)),
            bytes <= max,
            utf8_len(s@) > max,
        decreases n - k,
    {
        if k == n {
            assert(s@.take(k as int) =~= s@);
            assert(false);
        }
        let w = char_width(s.get_char(k));
        assert(s@.take(k + 1).drop_last() =~= s@.take(k as int));
        if w > max - bytes {
            proof {
                assert(is_cut(s@, max as nat, k as int));
                lemma_cut_unique(s@, max as nat, k as int);
            }
            let mut r = s.substring_char(0, k).to_owned();
            push_char(&mut r, '\u{2026}');
            return r;
        }
        bytes = bytes + w;
        k = k + 1;
    }
}

} // verus!
