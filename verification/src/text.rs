//! Character-level text utilities: ASCII case folding, substring search
//! (plain and case-insensitive) and lexicographic ordering of strings,
//! together with the order lemmas the sorting routines rely on.

use vstd::prelude::*;

verus! {

/// Code point of `c` with ASCII upper-case letters folded to lower case.
pub open spec fn fold_char(c: char) -> int {
    if 'A' <= c && c <= 'Z' {
        c as int + 32
    } else {
        c as int
    }
}

/// Character equality, case-insensitive when `fold` is set.
pub open spec fn char_eq(a: char, b: char, fold: bool) -> bool {
    if fold {
        fold_char(a) == fold_char(b)
    } else {
        a == b
    }
}

/// `needle` occurs in `hay` at offset `off` (character-wise).
pub open spec fn matches_at(hay: Seq<char>, needle: Seq<char>, off: int, fold: bool) -> bool {
    forall|j: int| 0 <= j < needle.len() ==> char_eq(hay[off + j], #[trigger] needle[j], fold)
}

/// `needle` is a substring of `hay`; the empty needle matches everything.
pub open spec fn contains_sub(hay: Seq<char>, needle: Seq<char>, fold: bool) -> bool {
    exists|off: int| 0 <= off <= hay.len() - needle.len() && matches_at(hay, needle, off, fold)
}

fn char_eq_exec(a: char, b: char, fold: bool) -> (r: bool)
    ensures
        r == char_eq(a, b, fold),
{
    if fold {
        let ua: u32 = a as u32;
        let ub: u32 = b as u32;
        let fa: u32 = if 65 <= ua && ua <= 90 {
            ua + 32
        } else {
            ua
        };
        let fb: u32 = if 65 <= ub && ub <= 90 {
            ub + 32
        } else {
            ub
        };
        fa == fb
    } else {
        a == b
    }
}

/// `needle` matches `hay` at offset `off`.
fn matches_at_exec(hay: &str, needle: &str, off: usize, needle_len: usize, fold: bool) -> (r: bool)
    requires
        needle_len == needle@.len(),
        off + needle_len <= hay@.len(),
        off + needle_len <= usize::MAX,
    ensures
        r == matches_at(hay@, needle@, off as int, fold),
{
    let mut j: usize = 0;
    while j < needle_len
        invariant
            0 <= j <= needle_len,
            needle_len == needle@.len(),
            off + needle_len <= hay@.len(),
            off + needle_len <= usize::MAX,
            forall|m: int| 0 <= m < j ==> char_eq(hay@[off + m], #[trigger] needle@[m], fold),
        decreases needle_len - j,
    {
        let hc = hay.get_char(off + j);
        let nc = needle.get_char(j);
        if !char_eq_exec(hc, nc, fold) {
            return false;
        }
        j += 1;
    }
    true
}

/// Substring search; case-insensitive (ASCII) when `fold` is set.
pub fn str_contains(hay: &str, needle: &str, fold: bool) -> (r: bool)
    ensures
        r == contains_sub(hay@, needle@, fold),
{
    let hay_len = hay.unicode_len();
    let needle_len = needle.unicode_len();
    if needle_len > hay_len {
        return false;
    }
    let mut off: usize = 0;
    while off <= hay_len - needle_len
        invariant
            hay_len == hay@.len(),
            needle_len == needle@.len(),
            needle_len <= hay_len,
            0 <= off <= hay_len - needle_len + 1,
            forall|m: int| 0 <= m < off ==> !matches_at(hay@, needle@, m, fold),
        decreases hay_len + 1 - needle_len - off,
    {
        if matches_at_exec(hay, needle, off, needle_len, fold) {
            return true;
        }
        off += 1;
    }
    false
}

/// Lexicographic order on character sequences by code point; a prefix
/// sorts before every extension of it. This is the order `str::cmp` uses.
pub open spec fn lex_le(a: Seq<char>, b: Seq<char>) -> bool
    decreases a.len(),
{
    if a.len() == 0 {
        true
    } else if b.len() == 0 {
        false
    } else if a[0] < b[0] {
        true
    } else if a[0] > b[0] {
        false
    } else {
        lex_le(a.drop_first(), b.drop_first())
    }
}

/// Any two strings are comparable under `lex_le`.
pub proof fn lemma_lex_le_total(a: Seq<char>, b: Seq<char>)
    ensures
        lex_le(a, b) || lex_le(b, a),
    decreases a.len(),
{
    if a.len() != 0 && b.len() != 0 && !(a[0] < b[0]) && !(a[0] > b[0]) {
        lemma_lex_le_total(a.drop_first(), b.drop_first());
    }
}

/// `lex_le` is transitive.
pub proof fn lemma_lex_le_trans(a: Seq<char>, b: Seq<char>, c: Seq<char>)
    requires
        lex_le(a, b),
        lex_le(b, c),
    ensures
        lex_le(a, c),
    decreases a.len(),
{
    if a.len() != 0 && b.len() != 0 && c.len() != 0 && !(a[0] < b[0]) && !(a[0] > b[0]) && !(b[0]
        < c[0]) && !(b[0] > c[0]) {
        lemma_lex_le_trans(a.drop_first(), b.drop_first(), c.drop_first());
    }
}

/// With an equal prefix of length `i`, the order is decided by the tails.
proof fn lemma_lex_le_common_prefix(a: Seq<char>, b: Seq<char>, i: int)
    requires
        0 <= i <= a.len(),
        i <= b.len(),
        forall|j: int| 0 <= j < i ==> a[j] == b[j],
    ensures
        lex_le(a, b) == lex_le(a.skip(i), b.skip(i)),
    decreases i,
{
    if i == 0 {
        assert(a.skip(0) =~= a);
        assert(b.skip(0) =~= b);
    } else {
        assert(a[0] == b[0]);
        lemma_lex_le_common_prefix(a.drop_first(), b.drop_first(), i - 1);
        assert(a.drop_first().skip(i - 1) =~= a.skip(i));
        assert(b.drop_first().skip(i - 1) =~= b.skip(i));
    }
}

/// Decides `lex_le` on string slices.
pub fn str_lex_le(a: &str, b: &str) -> (r: bool)
    ensures
        r == lex_le(a@, b@),
{
    let a_len = a.unicode_len();
    let b_len = b.unicode_len();
    let mut i: usize = 0;
    loop
        invariant
            a_len == a@.len(),
            b_len == b@.len(),
            0 <= i <= a_len,
            i <= b_len,
            forall|j: int| 0 <= j < i ==> a@[j] == b@[j],
        decreases a_len - i,
    {
        proof {
            lemma_lex_le_common_prefix(a@, b@, i as int);
        }
        if i >= a_len {
            return true;
        }
        if i >= b_len {
            return false;
        }
        let ca = a.get_char(i);
        let cb = b.get_char(i);
        if ca < cb {
            assert(a@.skip(i as int)[0] == ca);
            assert(b@.skip(i as int)[0] == cb);
            return true;
        }
        if cb < ca {
            assert(a@.skip(i as int)[0] == ca);
            assert(b@.skip(i as int)[0] == cb);
            return false;
        }
        assert(a@[i as int] == b@[i as int]) by {
            assert(ca as int == cb as int);
        }
        i += 1;
    }
}

/// Case-insensitive (ASCII) equality of two character sequences.
pub open spec fn seq_eq_fold(a: Seq<char>, b: Seq<char>) -> bool {
    a.len() == b.len() && forall|j: int| 0 <= j < a.len() ==> char_eq(a[j], #[trigger] b[j], true)
}

/// Decides case-insensitive (ASCII) equality of two string slices.
pub fn str_eq_fold(a: &str, b: &str) -> (r: bool)
    ensures
        r == seq_eq_fold(a@, b@),
{
    let a_len = a.unicode_len();
    let b_len = b.unicode_len();
    if a_len != b_len {
        return false;
    }
    let mut i: usize = 0;
    while i < a_len
        invariant
            a_len == a@.len(),
            b_len == b@.len(),
            a_len == b_len,
            0 <= i <= a_len,
            forall|j: int| 0 <= j < i ==> char_eq(a@[j], #[trigger] b@[j], true),
        decreases a_len - i,
    {
        let ca = a.get_char(i);
        let cb = b.get_char(i);
        if !char_eq_exec(ca, cb, true) {
            return false;
        }
        i += 1;
    }
    true
}

/// Decides character-sequence equality of two string slices.
pub fn str_eq(a: &str, b: &str) -> (r: bool)
    ensures
        r == (a@ == b@),
{
    let a_len = a.unicode_len();
    let b_len = b.unicode_len();
    if a_len != b_len {
        return false;
    }
    let mut i: usize = 0;
    while i < a_len
        invariant
            a_len == a@.len(),
            b_len == b@.len(),
            a_len == b_len,
            0 <= i <= a_len,
            forall|j: int| 0 <= j < i ==> a@[j] == b@[j],
        decreases a_len - i,
    {
        let ca = a.get_char(i);
        let cb = b.get_char(i);
        if ca != cb {
            return false;
        }
        i += 1;
    }
    assert(a@ =~= b@);
    true
}

} // verus!
