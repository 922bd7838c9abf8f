use vstd::prelude::*;
use vstd::seq_lib::*;

verus! {

/// `sub` occurs in `s` starting at offset `i`.
pub open spec fn occurs_at(s: Seq<char>, sub: Seq<char>, i: int) -> bool {
    0 <= i && i + sub.len() <= s.len() && s.subrange(i, i + sub.len() as int) == sub
}

/// `sub` occurs somewhere in `s`.
pub open spec fn contains_seq(s: Seq<char>, sub: Seq<char>) -> bool {
    exists|i: int| occurs_at(s, sub, i)
}

/// The code point of `c`, with an ASCII upper-case letter folded to lower case.
pub open spec fn fold_char(c: char) -> int {
    if 'A' <= c && c <= 'Z' {
        c as u32 + 32
    } else {
        c as int
    }
}

/// Character sequences equal up to ASCII case.
pub open spec fn ci_eq_seq(a: Seq<char>, b: Seq<char>) -> bool {
    a.len() == b.len() && forall|i: int| 0 <= i < a.len() ==> fold_char(a[i]) == fold_char(b[i])
}

/// Exact equality of two string slices.
pub fn str_eq(a: &str, b: &str) -> (r: bool)
    ensures
        r == (a@ == b@),
{
    let alen = a.unicode_len();
    let blen = b.unicode_len();
    if alen != blen {
        return false;
    }
    let mut i: usize = 0;
    while i < alen
        invariant
            alen == a@.len(),
            blen == b@.len(),
            alen == blen,
            i <= alen,
            forall|j: int| 0 <= j < i ==> a@[j] == b@[j],
        decreases alen - i,
    {
        if a.get_char(i) != b.get_char(i) {
            return false;
        }
        i += 1;
    }
    proof {
        assert(a@ =~= b@);
    }
    true
}

/// Equality of two string slices up to ASCII case.
pub fn str_ci_eq(a: &str, b: &str) -> (r: bool)
    ensures
        r == ci_eq_seq(a@, b@),
{
    let alen = a.unicode_len();
    let blen = b.unicode_len();
    if alen != blen {
        return false;
    }
    let mut i: usize = 0;
    while i < alen
        invariant
            alen == a@.len(),
            blen == b@.len(),
            alen == blen,
            i <= alen,
            forall|j: int| 0 <= j < i ==> fold_char(a@[j]) == fold_char(b@[j]),
        decreases alen - i,
    {
        let ca = a.get_char(i);
        let cb = b.get_char(i);
        let fa = if 'A' <= ca && ca <= 'Z' { ca as u32 + 32 } else { ca as u32 };
        let fb = if 'A' <= cb && cb <= 'Z' { cb as u32 + 32 } else { cb as u32 };
        if fa != fb {
            return false;
        }
        i += 1;
    }
    true
}

/// Whether `pre` is a prefix of `s`.
pub fn str_starts_with(s: &str, pre: &str) -> (r: bool)
    ensures
        r == pre@.is_prefix_of(s@),
{
    let slen = s.unicode_len();
    let plen = pre.unicode_len();
    if plen > slen {
        return false;
    }
    let mut i: usize = 0;
    while i < plen
        invariant
            slen == s@.len(),
            plen == pre@.len(),
            plen <= slen,
            i <= plen,
            forall|j: int| 0 <= j < i ==> s@[j] == pre@[j],
        decreases plen - i,
    {
        if s.get_char(i) != pre.get_char(i) {
            proof {
                assert(s@.subrange(0, pre@.len() as int)[i as int] != pre@[i as int]);
            }
            return false;
        }
        i += 1;
    }
    proof {
        assert(pre@ =~= s@.subrange(0, pre@.len() as int));
    }
    true
}

/// Whether `suf` is a suffix of `s`.
pub fn str_ends_with(s: &str, suf: &str) -> (r: bool)
    ensures
        r == suf@.is_suffix_of(s@),
{
    let slen = s.unicode_len();
    let flen = suf.unicode_len();
    if flen > slen {
        return false;
    }
    let off = slen - flen;
    let mut i: usize = 0;
    while i < flen
        invariant
            slen == s@.len(),
            flen == suf@.len(),
            flen <= slen,
            off == slen - flen,
            i <= flen,
            forall|j: int| 0 <= j < i ==> s@[off + j] == suf@[j],
        decreases flen - i,
    {
        if s.get_char(off + i) != suf.get_char(i) {
            proof {
                assert(s@.subrange(s@.len() - suf@.len(), s@.len() as int)[i as int]
                    != suf@[i as int]);
            }
            return false;
        }
        i += 1;
    }
    proof {
        assert(suf@ =~= s@.subrange(s@.len() - suf@.len(), s@.len() as int));
    }
    true
}

/// Whether `sub` occurs at offset `at` of `s`.
fn matches_at(s: &str, sub: &str, at: usize) -> (r: bool)
    requires
        at + sub@.len() <= s@.len(),
    ensures
        r == occurs_at(s@, sub@, at as int),
{
    let slen = s.unicode_len();
    let blen = sub.unicode_len();
    let mut i: usize = 0;
    while i < blen
        invariant
            slen == s@.len(),
            blen == sub@.len(),
            at + blen <= slen,
            i <= blen,
            forall|j: int| 0 <= j < i ==> s@[at + j] == sub@[j],
        decreases blen - i,
    {
        if s.get_char(at + i) != sub.get_char(i) {
            proof {
                assert(s@.subrange(at as int, at + sub@.len() as int)[i as int]
                    != sub@[i as int]);
            }
            return false;
        }
        i += 1;
    }
    proof {
        assert(sub@ =~= s@.subrange(at as int, at + sub@.len() as int));
    }
    true
}

/// Whether `sub` occurs anywhere in `s`.
pub fn str_contains(s: &str, sub: &str) -> (r: bool)
    ensures
        r == contains_seq(s@, sub@),
{
    let slen = s.unicode_len();
    let blen = sub.unicode_len();
    if blen > slen {
        proof {
            assert(forall|i: int| !occurs_at(s@, sub@, i));
        }
        return false;
    }
    if blen == 0 {
        proof {
            assert(s@.subrange(0, 0) =~= sub@);
            assert(occurs_at(s@, sub@, 0));
        }
        return true;
    }
    let last = slen - blen;
    let mut at: usize = 0;
    let mut found = false;
    while at <= last && !found
        invariant
            slen == s@.len(),
            blen == sub@.len(),
            1 <= blen <= slen,
            last == slen - blen,
            at <= last + 1,
            found ==> at <= last && occurs_at(s@, sub@, at as int),
            !found ==> forall|j: int| 0 <= j < at ==> !occurs_at(s@, sub@, j),
        decreases last + 1 - at + (if found { 0int } else { 1int }),
    {
        if matches_at(s, sub, at) {
            found = true;
        } else {
            at += 1;
        }
    }
    proof {
        if !found {
            assert(forall|j: int| occurs_at(s@, sub@, j) ==> 0 <= j <= last);
        }
    }
    found
}

} // verus!
