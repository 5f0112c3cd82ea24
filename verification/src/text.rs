//! Name ordering and matching: ASCII case-insensitive lexicographic
//! comparison and case-sensitive substring search, the two text operations
//! the listing's presentation transforms are built on.

use vstd::prelude::*;

verus! {

/// ASCII lowercase of one character; all other characters are unchanged.
pub open spec fn spec_lower(c: char) -> char {
    if 'A' <= c && c <= 'Z' {
        (((c as u32) + 32) as u8) as char
    } else {
        c
    }
}

/// A whole name, lowered character by character.
pub open spec fn lower_seq(s: Seq<char>) -> Seq<char> {
    s.map_values(|c: char| spec_lower(c))
}

/// Lexicographic "less than or equal" on character sequences, by code point.
pub open spec fn lex_leq(a: Seq<char>, b: Seq<char>) -> bool
    decreases a.len(),
{
    if a.len() == 0 {
        true
    } else if b.len() == 0 {
        false
    } else if a[0] != b[0] {
        (a[0] as u32) < (b[0] as u32)
    } else {
        lex_leq(a.drop_first(), b.drop_first())
    }
}

/// Case-insensitive name order: lexicographic on the lowered names.
pub open spec fn name_leq(a: Seq<char>, b: Seq<char>) -> bool {
    lex_leq(lower_seq(a), lower_seq(b))
}

/// `needle` occurs in `hay` starting at index `i`.
pub open spec fn matches_at(hay: Seq<char>, needle: Seq<char>, i: int) -> bool {
    &&& 0 <= i
    &&& i + needle.len() <= hay.len()
    &&& forall|j: int| 0 <= j < needle.len() ==> hay[i + j] == needle[j]
}

/// `needle` occurs somewhere in `hay` (case-sensitive).
pub open spec fn contains_seq(hay: Seq<char>, needle: Seq<char>) -> bool {
    exists|i: int| matches_at(hay, needle, i)
}

/// ASCII lowercase of one character.
pub fn lower_char(c: char) -> (r: char)
    ensures
        r == spec_lower(c),
{
    if 'A' <= c && c <= 'Z' {
        (((c as u32) + 32) as u8) as char
    } else {
        c
    }
}

/// Dropping the first `i` characters of two sequences that agree, lowered,
/// on those characters does not change their case-insensitive order.
proof fn lemma_lex_leq_skip(a: Seq<char>, b: Seq<char>, i: int)
    requires
        0 <= i <= a.len(),
        i <= b.len(),
        forall|j: int| 0 <= j < i ==> a[j] == b[j],
    ensures
        lex_leq(a, b) == lex_leq(a.skip(i), b.skip(i)),
    decreases i,
{
    if i == 0 {
        assert(a.skip(0) =~= a);
        assert(b.skip(0) =~= b);
    } else {
        assert(a[0] == b[0]);
        assert(a.drop_first() =~= a.skip(1));
        assert(b.drop_first() =~= b.skip(1));
        assert(lex_leq(a, b) == lex_leq(a.drop_first(), b.drop_first()));
        assert(forall|j: int| 0 <= j < i - 1 ==> a.skip(1)[j] == b.skip(1)[j]) by {
            assert(forall|j: int| 0 <= j < i - 1 ==> a.skip(1)[j] == a[j + 1] && b.skip(1)[j]
                == b[j + 1]);
        }
        lemma_lex_leq_skip(a.skip(1), b.skip(1), i - 1);
        assert(a.skip(1).skip(i - 1) =~= a.skip(i));
        assert(b.skip(1).skip(i - 1) =~= b.skip(i));
    }
}

/// Case-insensitive name comparison: `a` comes no later than `b`.
pub fn name_leq_exec(a: &str, b: &str) -> (r: bool)
    ensures
        r == name_leq(a@, b@),
{
    let alen = a.unicode_len();
    let blen = b.unicode_len();
    let n = if alen < blen {
        alen
    } else {
        blen
    };
    let mut i: usize = 0;
    while i < n
        invariant
            n == if alen < blen {
                alen
            } else {
                blen
            },
            alen == a@.len(),
            blen == b@.len(),
            0 <= i <= n,
            forall|j: int|
                0 <= j < i ==> lower_seq(a@)[j] == lower_seq(b@)[j],
        decreases n - i,
    {
        let ca = lower_char(a.get_char(i));
        let cb = lower_char(b.get_char(i));
        if ca != cb {
            proof {
                lemma_lex_leq_skip(lower_seq(a@), lower_seq(b@), i as int);
            }
            return (ca as u32) < (cb as u32);
        }
        i = i + 1;
    }
    proof {
        lemma_lex_leq_skip(lower_seq(a@), lower_seq(b@), n as int);
    }
    alen <= blen
}

/// Case-sensitive substring search: does `hay` contain `needle`?
pub fn contains_exec(hay: &str, needle: &str) -> (r: bool)
    ensures
        r == contains_seq(hay@, needle@),
{
    let hlen = hay.unicode_len();
    let nlen = needle.unicode_len();
    if nlen > hlen {
        assert(forall|i: int| !matches_at(hay@, needle@, i));
        return false;
    }
    let mut i: usize = 0;
    while i <= hlen - nlen
        invariant
            nlen <= hlen,
            hlen == hay@.len(),
            nlen == needle@.len(),
            0 <= i <= hlen - nlen + 1,
            forall|k: int| 0 <= k < i ==> !matches_at(hay@, needle@, k),
        decreases hlen + 1 - nlen - i,
    {
        let mut j: usize = 0;
        let mut matched = true;
        while j < nlen
            invariant
                nlen <= hlen,
                hlen == hay@.len(),
                nlen == needle@.len(),
                i + nlen <= hlen,
                0 <= j <= nlen,
                matched <==> forall|l: int| 0 <= l < j ==> hay@[i + l] == needle@[l],
            decreases nlen - j,
        {
            if hay.get_char(i + j) != needle.get_char(j) {
                matched = false;
                j = nlen;
            } else {
                j = j + 1;
            }
        }
        if matched {
            assert(matches_at(hay@, needle@, i as int));
            return true;
        }
        i = i + 1;
    }
    proof {
        assert(forall|k: int| matches_at(hay@, needle@, k) ==> 0 <= k <= hlen - nlen);
    }
    false
}

/// Distinct characters have distinct code points.
proof fn lemma_char_code_distinct(c1: char, c2: char)
    requires
        c1 != c2,
    ensures
        (c1 as u32) != (c2 as u32),
{
}

/// Case-insensitive order is total: of any two names, one comes no later
/// than the other.
pub proof fn lemma_lex_leq_total(a: Seq<char>, b: Seq<char>)
    ensures
        lex_leq(a, b) || lex_leq(b, a),
    decreases a.len(),
{
    if a.len() == 0 {
        assert(lex_leq(a, b));
    } else if b.len() == 0 {
        assert(lex_leq(b, a));
    } else if a[0] != b[0] {
        lemma_char_code_distinct(a[0], b[0]);
        if (a[0] as u32) < (b[0] as u32) {
            assert(lex_leq(a, b));
        } else {
            assert((b[0] as u32) < (a[0] as u32));
            assert(lex_leq(b, a));
        }
    } else {
        lemma_lex_leq_total(a.drop_first(), b.drop_first());
        assert(lex_leq(a, b) == lex_leq(a.drop_first(), b.drop_first()));
        assert(lex_leq(b, a) == lex_leq(b.drop_first(), a.drop_first()));
    }
}

/// Case-insensitive order is transitive.
pub proof fn lemma_lex_leq_trans(a: Seq<char>, b: Seq<char>, c: Seq<char>)
    requires
        lex_leq(a, b),
        lex_leq(b, c),
    ensures
        lex_leq(a, c),
    decreases a.len(),
{
    if a.len() > 0 && b.len() > 0 && c.len() > 0 {
        if a[0] == b[0] && b[0] == c[0] {
            lemma_lex_leq_trans(a.drop_first(), b.drop_first(), c.drop_first());
        }
    }
}

} // verus!
