//! Delimiter arithmetic on character sequences.
//!
//! A token plaintext is `username$credential` and a stored credential is a
//! `$`-delimited envelope, so resolving a token is an exercise in splitting
//! on `$` and joining the tail back together.  This module gives the
//! specification-level split and join, the facts that connect them, and the
//! executable counting, searching and comparison routines the parser uses.

use vstd::prelude::*;

verus! {

/// How many times `c` occurs in `s`.
pub open spec fn count_char(s: Seq<char>, c: char) -> nat
    decreases s.len(),
{
    if s.len() == 0 {
        0
    } else {
        (if s[0] == c {
            1nat
        } else {
            0nat
        }) + count_char(s.drop_first(), c)
    }
}

/// The index of the first occurrence of `c` in `s`, or `s.len()` if absent.
pub open spec fn find_char(s: Seq<char>, c: char) -> int
    decreases s.len(),
{
    if s.len() == 0 {
        0
    } else if s[0] == c {
        0
    } else {
        1 + find_char(s.drop_first(), c)
    }
}

/// Split `s` on `c`, keeping empty segments: the result always holds one
/// segment more than `s` holds separators.
pub open spec fn split_char(s: Seq<char>, c: char) -> Seq<Seq<char>>
    decreases s.len(),
{
    if s.len() == 0 {
        seq![Seq::<char>::empty()]
    } else if s[0] == c {
        seq![Seq::<char>::empty()] + split_char(s.drop_first(), c)
    } else {
        let rest = split_char(s.drop_first(), c);
        seq![seq![s[0]] + rest[0]] + rest.drop_first()
    }
}

/// Join `parts` with `c` between consecutive segments.
pub open spec fn join_char(parts: Seq<Seq<char>>, c: char) -> Seq<char>
    decreases parts.len(),
{
    if parts.len() == 0 {
        Seq::<char>::empty()
    } else if parts.len() == 1 {
        parts[0]
    } else {
        parts[0] + seq![c] + join_char(parts.drop_first(), c)
    }
}

/// `c` occurs in `a + b` as often as in `a` and in `b` together.
pub proof fn lemma_count_char_concat(a: Seq<char>, b: Seq<char>, c: char)
    ensures
        count_char(a + b, c) == count_char(a, c) + count_char(b, c),
    decreases a.len(),
{
    if a.len() == 0 {
        assert(a + b =~= b);
    } else {
        assert((a + b).drop_first() =~= a.drop_first() + b);
        lemma_count_char_concat(a.drop_first(), b, c);
    }
}

/// A count of zero means no position holds `c`, and conversely.
pub proof fn lemma_count_char_zero(s: Seq<char>, c: char)
    ensures
        count_char(s, c) == 0 <==> (forall|j: int| 0 <= j < s.len() ==> s[j] != c),
    decreases s.len(),
{
    if s.len() > 0 {
        lemma_count_char_zero(s.drop_first(), c);
        if count_char(s, c) == 0 {
            assert forall|j: int| 0 <= j < s.len() implies s[j] != c by {
                if j > 0 {
                    assert(s[j] == s.drop_first()[j - 1]);
                }
            }
        } else {
            if s[0] != c {
                let j = choose|j: int| 0 <= j < s.drop_first().len() && s.drop_first()[j] == c;
                assert(s[j + 1] == c);
            }
        }
    }
}

/// Where the first occurrence sits: within bounds, on a `c`, with none before
/// it, and at the very end exactly when `s` holds no `c` at all.
pub proof fn lemma_find_char_props(s: Seq<char>, c: char)
    ensures
        0 <= find_char(s, c) <= s.len(),
        find_char(s, c) < s.len() ==> s[find_char(s, c)] == c,
        forall|j: int| 0 <= j < find_char(s, c) ==> s[j] != c,
        find_char(s, c) == s.len() <==> count_char(s, c) == 0,
    decreases s.len(),
{
    if s.len() > 0 && s[0] != c {
        lemma_find_char_props(s.drop_first(), c);
        let f = find_char(s, c);
        assert(forall|j: int| 1 <= j < f ==> s[j] == s.drop_first()[j - 1]);
    }
}

/// Splitting has one segment more than the sequence has separators.
pub proof fn lemma_split_char_len(s: Seq<char>, c: char)
    ensures
        split_char(s, c).len() == count_char(s, c) + 1,
    decreases s.len(),
{
    if s.len() > 0 {
        lemma_split_char_len(s.drop_first(), c);
    }
}

/// A separator-free prefix becomes the first segment, and the rest splits on
/// its own: the exact-segment-count argument of token parsing rests on this.
pub proof fn lemma_split_char_concat(a: Seq<char>, b: Seq<char>, c: char)
    requires
        count_char(a, c) == 0,
    ensures
        split_char(a + seq![c] + b, c) =~= seq![a] + split_char(b, c),
    decreases a.len(),
{
    let s = a + seq![c] + b;
    if a.len() == 0 {
        assert(s[0] == c);
        assert(s.drop_first() =~= b);
        assert(split_char(s, c) =~= seq![Seq::<char>::empty()] + split_char(b, c));
        assert(a =~= Seq::<char>::empty());
    } else {
        assert(s[0] == a[0]);
        assert(s[0] != c);
        assert(s.drop_first() =~= a.drop_first() + seq![c] + b);
        lemma_split_char_concat(a.drop_first(), b, c);
        let rest = split_char(s.drop_first(), c);
        lemma_split_char_len(b, c);
        assert(rest[0] == a.drop_first());
        assert(rest.drop_first() =~= split_char(b, c));
        assert(seq![s[0]] + rest[0] =~= a);
    }
}

/// Joining what splitting produced restores the original sequence.
pub proof fn lemma_join_split_char(s: Seq<char>, c: char)
    ensures
        join_char(split_char(s, c), c) =~= s,
    decreases s.len(),
{
    if s.len() == 0 {
    } else if s[0] == c {
        lemma_join_split_char(s.drop_first(), c);
        lemma_split_char_len(s.drop_first(), c);
        let parts = split_char(s, c);
        assert(parts.drop_first() =~= split_char(s.drop_first(), c));
        assert(join_char(parts, c) =~= Seq::<char>::empty() + seq![c] + join_char(
            split_char(s.drop_first(), c),
            c,
        ));
    } else {
        lemma_join_split_char(s.drop_first(), c);
        lemma_split_char_len(s.drop_first(), c);
        let rest = split_char(s.drop_first(), c);
        let parts = split_char(s, c);
        if rest.len() == 1 {
            assert(parts =~= seq![seq![s[0]] + rest[0]]);
            assert(join_char(parts, c) =~= seq![s[0]] + rest[0]);
            assert(join_char(rest, c) == rest[0]);
            assert(seq![s[0]] + s.drop_first() =~= s);
        } else {
            assert(parts[0] == seq![s[0]] + rest[0]);
            assert(parts.drop_first() =~= rest.drop_first());
            assert(join_char(parts, c) =~= (seq![s[0]] + rest[0]) + seq![c] + join_char(
                rest.drop_first(),
                c,
            ));
            assert(join_char(rest, c) =~= rest[0] + seq![c] + join_char(rest.drop_first(), c));
            assert(seq![s[0]] + join_char(rest, c) =~= (seq![s[0]] + rest[0]) + seq![c]
                + join_char(rest.drop_first(), c));
            assert(seq![s[0]] + s.drop_first() =~= s);
        }
    }
}

/// A sequence with at least one separator decomposes around the first one:
/// head segment before it, the tail of the split after it.
pub proof fn lemma_split_char_at_first(s: Seq<char>, c: char)
    requires
        count_char(s, c) > 0,
    ensures
        find_char(s, c) < s.len(),
        split_char(s, c)[0] =~= s.take(find_char(s, c)),
        split_char(s, c).drop_first() =~= split_char(s.skip(find_char(s, c) + 1), c),
        join_char(split_char(s, c).drop_first(), c) =~= s.skip(find_char(s, c) + 1),
    decreases s.len(),
{
    lemma_find_char_props(s, c);
    let f = find_char(s, c);
    let head = s.take(f);
    let tail = s.skip(f + 1);
    lemma_count_char_zero(head, c);
    assert(count_char(head, c) == 0);
    assert(head + seq![c] + tail =~= s);
    lemma_split_char_concat(head, tail, c);
    assert(split_char(s, c) =~= seq![head] + split_char(tail, c));
    assert(split_char(s, c)[0] =~= head);
    assert(split_char(s, c).drop_first() =~= split_char(tail, c));
    lemma_join_split_char(tail, c);
}

/// Counting in a one-element sequence is a test of that element.
pub proof fn lemma_count_char_single(x: char, c: char)
    ensures
        count_char(seq![x], c) == if x == c {
            1nat
        } else {
            0nat
        },
{
    reveal_with_fuel(count_char, 2);
    assert(seq![x].drop_first() =~= Seq::<char>::empty());
}

/// Count `c` in a string slice.
pub fn count_char_str(s: &str, c: char) -> (n: usize)
    ensures
        n == count_char(s@, c),
{
    let len = s.unicode_len();
    let mut n: usize = 0;
    let mut i: usize = 0;
    while i < len
        invariant
            0 <= i <= len,
            len == s@.len(),
            n == count_char(s@.take(i as int), c),
            n <= i,
        decreases len - i,
    {
        let ch = s.get_char(i);
        proof {
            assert(s@.take(i + 1 as int) =~= s@.take(i as int) + seq![s@[i as int]]);
            lemma_count_char_concat(s@.take(i as int), seq![s@[i as int]], c);
            lemma_count_char_single(s@[i as int], c);
        }
        if ch == c {
            n = n + 1;
        }
        i = i + 1;
    }
    proof {
        assert(s@.take(len as int) =~= s@);
    }
    n
}

/// Index of the first `c` in a string slice, or its character length.
pub fn find_char_str(s: &str, c: char) -> (n: usize)
    ensures
        n == find_char(s@, c),
        n <= s@.len(),
{
    let len = s.unicode_len();
    let mut i: usize = 0;
    while i < len
        invariant
            0 <= i <= len,
            len == s@.len(),
            forall|j: int| 0 <= j < i ==> s@[j] != c,
        decreases len - i,
    {
        let ch = s.get_char(i);
        if ch == c {
            proof {
                lemma_find_char_props(s@, c);
                let f = find_char(s@, c);
                if f < i {
                    assert(s@[f] != c);
                } else if f > i {
                    assert(s@[i as int] != c);
                }
            }
            return i;
        }
        i = i + 1;
    }
    proof {
        lemma_find_char_props(s@, c);
        let f = find_char(s@, c);
        if f < len {
            assert(s@[f] != c);
        }
    }
    len
}

/// UTF-8 encoding distributes over concatenation.
pub proof fn lemma_encode_utf8_concat(a: Seq<char>, b: Seq<char>)
    ensures
        vstd::utf8::encode_utf8(a + b) =~= vstd::utf8::encode_utf8(a) + vstd::utf8::encode_utf8(b),
    decreases a.len(),
{
    if a.len() == 0 {
        assert(a + b =~= b);
        assert(vstd::utf8::encode_utf8(a) =~= Seq::<u8>::empty());
    } else {
        assert((a + b).drop_first() =~= a.drop_first() + b);
        lemma_encode_utf8_concat(a.drop_first(), b);
        assert((a + b)[0] == a[0]);
    }
}

/// The delimiter encodes to the single byte 0x24.
pub proof fn lemma_encode_utf8_dollar()
    ensures
        vstd::utf8::encode_utf8(seq!['$']) =~= seq![0x24u8],
{
    reveal_with_fuel(vstd::utf8::encode_utf8, 2);
    assert(seq!['$'].drop_first() =~= Seq::<char>::empty());
    assert('$' as u32 == 0x24);
    assert(0x24u32 & 0x7F == 0x24) by (bit_vector);
    assert(vstd::utf8::encode_scalar(0x24) =~= seq![0x24u8]);
}

/// An encoding is empty exactly when the character sequence is.
pub proof fn lemma_encode_utf8_empty(s: Seq<char>)
    ensures
        vstd::utf8::encode_utf8(s).len() == 0 <==> s.len() == 0,
{
    if s.len() > 0 {
        assert(vstd::utf8::encode_scalar(s[0] as u32).len() >= 1);
    }
}

/// Compare two string slices by their views.
pub fn str_eq(a: &str, b: &str) -> (r: bool)
    ensures
        r == (a@ == b@),
{
    broadcast use vstd::utf8::encode_utf8_decode_utf8;

    let ab = a.as_bytes();
    let bb = b.as_bytes();
    if ab.len() != bb.len() {
        return false;
    }
    let len = ab.len();
    let mut i: usize = 0;
    while i < len
        invariant
            0 <= i <= len,
            len == ab@.len() == bb@.len(),
            ab@ == vstd::utf8::encode_utf8(a@),
            bb@ == vstd::utf8::encode_utf8(b@),
            forall|j: int| 0 <= j < i ==> ab@[j] == bb@[j],
        decreases len - i,
    {
        if ab[i] != bb[i] {
            return false;
        }
        i = i + 1;
    }
    proof {
        assert(ab@ =~= bb@);
        assert(vstd::utf8::decode_utf8(vstd::utf8::encode_utf8(a@)) == a@);
        assert(vstd::utf8::decode_utf8(vstd::utf8::encode_utf8(b@)) == b@);
    }
    true
}

} // verus!
