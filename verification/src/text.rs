use vstd::prelude::*;

verus! {

use vstd::string::StrSliceExecFns;

// Character-sequence helpers shared by the scanner and the formatter:
// ASCII case folding, substring containment, and a lexicographic order
// on code points (which coincides with byte-wise UTF-8 order).

/// ASCII lower-casing of one character; everything outside 'A'..='Z'
/// is left unchanged.
pub open spec fn lower_char(c: char) -> char {
    if 'A' as u32 <= c as u32 && c as u32 <= 'Z' as u32 {
        ((c as u32) + 32) as char
    } else {
        c
    }
}

/// Character-wise ASCII lower-casing of a sequence.
pub open spec fn lower(s: Seq<char>) -> Seq<char> {
    Seq::new(s.len(), |i: int| lower_char(s[i]))
}

/// `needle` occurs in `hay` starting at position `i`.
pub open spec fn matches_at(hay: Seq<char>, needle: Seq<char>, i: int) -> bool {
    &&& 0 <= i
    &&& i + needle.len() <= hay.len()
    &&& forall|j: int| 0 <= j < needle.len() ==> hay[i + j] == needle[j]
}

/// `needle` occurs somewhere in `hay` as a contiguous run.
pub open spec fn contains_seq(hay: Seq<char>, needle: Seq<char>) -> bool {
    exists|i: int| matches_at(hay, needle, i)
}

/// Strict lexicographic order on code points.
pub open spec fn lex_lt(a: Seq<char>, b: Seq<char>) -> bool
    decreases a.len(),
{
    if b.len() == 0 {
        false
    } else if a.len() == 0 {
        true
    } else if (a[0] as u32) < (b[0] as u32) {
        true
    } else if (a[0] as u32) > (b[0] as u32) {
        false
    } else {
        lex_lt(a.drop_first(), b.drop_first())
    }
}

/// Reflexive closure of `lex_lt`.
pub open spec fn lex_leq(a: Seq<char>, b: Seq<char>) -> bool {
    lex_lt(a, b) || a == b
}

/// Exactly one of `lex_lt(a, b)`, `lex_lt(b, a)`, `a == b` holds.
pub proof fn lemma_lex_lt_trichotomy(a: Seq<char>, b: Seq<char>)
    ensures
        lex_lt(a, b) || lex_lt(b, a) || a == b,
        lex_lt(a, b) ==> !lex_lt(b, a) && a != b,
        lex_lt(b, a) ==> !lex_lt(a, b) && a != b,
    decreases a.len(),
{
    if b.len() == 0 {
        if a.len() == 0 {
            assert(a =~= b);
        }
    } else if a.len() == 0 {
    } else if a[0] as u32 == b[0] as u32 {
        vstd::utf8::char_u32_cast(a[0], a[0] as u32);
        vstd::utf8::char_u32_cast(b[0], b[0] as u32);
        assert(a[0] == b[0]);
        lemma_lex_lt_trichotomy(a.drop_first(), b.drop_first());
        if a.drop_first() == b.drop_first() {
            assert forall|i: int| 0 <= i < a.len() implies a[i] == b[i] by {
                if i > 0 {
                    assert(a[i] == a.drop_first()[i - 1]);
                    assert(b[i] == b.drop_first()[i - 1]);
                }
            }
            assert(a =~= b);
        }
        if a == b {
            assert(a.drop_first() =~= b.drop_first());
        }
    } else {
        if a == b {
            assert(a[0] == b[0]);
        }
    }
}

/// `lex_lt` is transitive.
pub proof fn lemma_lex_lt_transitive(a: Seq<char>, b: Seq<char>, c: Seq<char>)
    requires
        lex_lt(a, b),
        lex_lt(b, c),
    ensures
        lex_lt(a, c),
    decreases a.len(),
{
    if b.len() == 0 {
    } else if c.len() == 0 {
    } else if a.len() == 0 {
    } else {
        if (a[0] as u32) == (b[0] as u32) && (b[0] as u32) == (c[0] as u32) {
            lemma_lex_lt_transitive(a.drop_first(), b.drop_first(), c.drop_first());
        }
    }
}

/// A shared pointwise-equal prefix does not change how two sequences compare.
pub proof fn lemma_lex_lt_common_prefix(a: Seq<char>, b: Seq<char>, i: int)
    requires
        0 <= i <= a.len(),
        i <= b.len(),
        forall|j: int| 0 <= j < i ==> a[j] == b[j],
    ensures
        lex_lt(a, b) == lex_lt(a.skip(i), b.skip(i)),
    decreases i,
{
    if i == 0 {
        assert(a.skip(0) =~= a);
        assert(b.skip(0) =~= b);
    } else {
        assert(a.drop_first() =~= a.skip(1));
        assert(b.drop_first() =~= b.skip(1));
        lemma_lex_lt_common_prefix(a.skip(1), b.skip(1), i - 1);
        assert(a.skip(1).skip(i - 1) =~= a.skip(i));
        assert(b.skip(1).skip(i - 1) =~= b.skip(i));
    }
}

/// ASCII lower-casing of one character.
pub fn lower_char_exec(c: char) -> (r: char)
    ensures
        r == lower_char(c),
{
    let u = c as u32;
    if 65 <= u && u <= 90 {
        let b = (c as u8) + 32;
        b as char
    } else {
        c
    }
}

/// Code-point lexicographic comparison of two strings.
pub fn str_lt(a: &str, b: &str) -> (r: bool)
    ensures
        r == lex_lt(a@, b@),
{
    let alen = a.unicode_len();
    let blen = b.unicode_len();
    let mut i: usize = 0;
    loop
        invariant
            i <= alen,
            i <= blen,
            alen == a@.len(),
            blen == b@.len(),
            forall|j: int| 0 <= j < i ==> a@[j] == b@[j],
        decreases alen - i,
    {
        proof {
            lemma_lex_lt_common_prefix(a@, b@, i as int);
        }
        if i == alen {
            proof {
                assert(a@.skip(i as int).len() == 0);
                if i < blen {
                    assert(b@.skip(i as int).len() > 0);
                }
            }
            return i < blen;
        }
        if i == blen {
            proof {
                assert(b@.skip(i as int).len() == 0);
            }
            return false;
        }
        let ca = a.get_char(i) as u32;
        let cb = b.get_char(i) as u32;
        proof {
            assert(a@.skip(i as int)[0] == a@[i as int]);
            assert(b@.skip(i as int)[0] == b@[i as int]);
        }
        if ca < cb {
            return true;
        }
        if ca > cb {
            return false;
        }
        proof {
            assert(a@[i as int] == b@[i as int]);
        }
        i = i + 1;
    }
}

/// Does `needle` stand in `s` at position `i`, after ASCII-lower-casing `s`?
fn matches_lower_at(s: &str, needle: &str, i: usize) -> (r: bool)
    requires
        i + needle@.len() <= s@.len(),
    ensures
        r == matches_at(lower(s@), needle@, i as int),
{
    let slen = s.unicode_len();
    let nlen = needle.unicode_len();
    let mut j: usize = 0;
    while j < nlen
        invariant
            slen == s@.len(),
            nlen == needle@.len(),
            i + nlen <= slen,
            j <= nlen,
            forall|m: int| 0 <= m < j ==> lower(s@)[i + m] == needle@[m],
        decreases nlen - j,
    {
        let cs = lower_char_exec(s.get_char(i + j));
        let cn = needle.get_char(j);
        if cs != cn {
            proof {
                assert(lower(s@)[i + j] == lower_char(s@[i + j]));
                assert(!matches_at(lower(s@), needle@, i as int));
            }
            return false;
        }
        proof {
            assert(lower(s@)[i + j] == lower_char(s@[i + j]));
        }
        j = j + 1;
    }
    true
}

/// Case-insensitive (ASCII) substring test: does the lower-cased `s`
/// contain `needle` (given already lower-cased)?
pub fn contains_lower(s: &str, needle: &str) -> (r: bool)
    ensures
        r == contains_seq(lower(s@), needle@),
{
    let slen = s.unicode_len();
    let nlen = needle.unicode_len();
    if nlen > slen {
        proof {
            assert forall|i: int| !matches_at(lower(s@), needle@, i) by {
                assert(lower(s@).len() == s@.len());
            }
        }
        return false;
    }
    let mut i: usize = 0;
    while i <= slen - nlen
        invariant
            slen == s@.len(),
            nlen == needle@.len(),
            nlen <= slen,
            i <= slen - nlen + 1,
            forall|k: int| 0 <= k < i ==> !matches_at(lower(s@), needle@, k),
        decreases slen - nlen - i + 1,
    {
        if matches_lower_at(s, needle, i) {
            proof {
                assert(matches_at(lower(s@), needle@, i as int));
            }
            return true;
        }
        i = i + 1;
    }
    proof {
        assert forall|k: int| !matches_at(lower(s@), needle@, k) by {
            assert(lower(s@).len() == s@.len());
            if 0 <= k < i {
            }
        }
    }
    false
}

/// Does `s` end with `suffix` (exact characters, case-sensitive)?
pub fn has_suffix(s: &str, suffix: &str) -> (r: bool)
    ensures
        r == (s@.len() >= suffix@.len() && matches_at(s@, suffix@, s@.len() - suffix@.len())),
{
    let slen = s.unicode_len();
    let xlen = suffix.unicode_len();
    if xlen > slen {
        return false;
    }
    let start = slen - xlen;
    let mut j: usize = 0;
    while j < xlen
        invariant
            slen == s@.len(),
            xlen == suffix@.len(),
            xlen <= slen,
            start == slen - xlen,
            j <= xlen,
            forall|m: int| 0 <= m < j ==> s@[start + m] == suffix@[m],
        decreases xlen - j,
    {
        if s.get_char(start + j) != suffix.get_char(j) {
            proof {
                assert(!matches_at(s@, suffix@, start as int));
            }
            return false;
        }
        j = j + 1;
    }
    true
}

} // verus!
