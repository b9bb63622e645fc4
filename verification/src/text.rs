//! Prefix containment and lexicographic order on strings, stated over their
//! character sequences.

use vstd::prelude::*;

verus! {

/// `a` is a leading part of `b`. Every string is a prefix of itself.
pub open spec fn is_prefix(a: Seq<char>, b: Seq<char>) -> bool {
    a.len() <= b.len() && forall|i: int| 0 <= i < a.len() ==> a[i] == b[i]
}

/// `a` sorts at or before `b`: the first position at which they differ holds
/// the smaller code point in `a`, or `a` runs out first.
pub open spec fn lex_le(a: Seq<char>, b: Seq<char>) -> bool
    decreases a.len(),
{
    if a.len() == 0 {
        true
    } else if b.len() == 0 {
        false
    } else if a[0] != b[0] {
        (a[0] as u32) < (b[0] as u32)
    } else {
        lex_le(a.drop_first(), b.drop_first())
    }
}

/// The character sequences of a list of strings, in the same order.
pub open spec fn views(v: Seq<String>) -> Seq<Seq<char>> {
    Seq::new(v.len(), |i: int| v[i]@)
}

/// Every earlier element sorts at or before every later one.
pub open spec fn sorted(s: Seq<Seq<char>>) -> bool {
    forall|i: int, j: int| 0 <= i < j < s.len() ==> lex_le(#[trigger] s[i], #[trigger] s[j])
}

/// Sorted, and no value occurs twice.
pub open spec fn strictly_sorted(s: Seq<Seq<char>>) -> bool {
    forall|i: int, j: int|
        0 <= i < j < s.len() ==> lex_le(#[trigger] s[i], #[trigger] s[j]) && s[i] != s[j]
}

/// Whether `s` starts with `pat`.
///
/// Trusted: `str::starts_with` with a string pattern is documented to return
/// true exactly when the pattern matches a prefix of the string slice.
#[verifier::external_body]
pub(crate) fn starts_with(s: &str, pat: &str) -> (r: bool)
    ensures
        r == is_prefix(pat@, s@),
{
    s.starts_with(pat)
}

/// Sorts the strings in place, in ascending order.
///
/// Trusted: `slice::sort` is documented to sort in ascending order by the
/// element's `Ord`, which for strings is lexicographic by code point; the
/// elements after the call are those before it, rearranged.
#[verifier::external_body]
pub(crate) fn sort_strings(v: &mut Vec<String>)
    ensures
        views(final(v)@).to_multiset() == views(old(v)@).to_multiset(),
        sorted(views(final(v)@)),
{
    v.sort()
}

/// A prefix sorts at or before anything it is a prefix of.
pub proof fn lemma_prefix_sorts_first(a: Seq<char>, b: Seq<char>)
    requires
        is_prefix(a, b),
    ensures
        lex_le(a, b),
    decreases a.len(),
{
    if a.len() > 0 {
        assert(a[0] == b[0]);
        let at = a.drop_first();
        let bt = b.drop_first();
        assert forall|i: int| 0 <= i < at.len() implies at[i] == bt[i] by {
            assert(a[i + 1] == b[i + 1]);
        }
        lemma_prefix_sorts_first(at, bt);
    }
}

/// Two strings that each sort at or before the other are the same string.
pub proof fn lemma_lex_le_antisymmetric(a: Seq<char>, b: Seq<char>)
    requires
        lex_le(a, b),
        lex_le(b, a),
    ensures
        a == b,
    decreases a.len(),
{
    if a.len() == 0 {
        assert(b.len() == 0);
        assert(a =~= b);
    } else {
        assert(b.len() > 0);
        assert(a[0] == b[0]);
        let at = a.drop_first();
        let bt = b.drop_first();
        lemma_lex_le_antisymmetric(at, bt);
        assert forall|i: int| 0 <= i < a.len() implies a[i] == b[i] by {
            if i > 0 {
                assert(a[i] == at[i - 1]);
                assert(b[i] == bt[i - 1]);
            }
        }
        assert(a.len() == at.len() + 1);
        assert(b.len() == bt.len() + 1);
        assert(a =~= b);
    }
}

/// Whatever sorts between a string and one of its extensions starts with that
/// string too.
pub proof fn lemma_between_keeps_prefix(a: Seq<char>, m: Seq<char>, b: Seq<char>)
    requires
        is_prefix(a, b),
        lex_le(a, m),
        lex_le(m, b),
    ensures
        is_prefix(a, m),
    decreases a.len(),
{
    if a.len() > 0 {
        assert(m.len() > 0);
        assert(b.len() > 0);
        assert(a[0] == b[0]);
        assert(m[0] == a[0]);
        let at = a.drop_first();
        let mt = m.drop_first();
        let bt = b.drop_first();
        assert forall|i: int| 0 <= i < at.len() implies at[i] == bt[i] by {
            assert(a[i + 1] == b[i + 1]);
        }
        lemma_between_keeps_prefix(at, mt, bt);
        assert forall|i: int| 0 <= i < a.len() implies a[i] == m[i] by {
            if i > 0 {
                assert(at[i - 1] == mt[i - 1]);
            }
        }
    }
}

/// Two strictly sorted lists that hold the same values are the same list.
pub proof fn lemma_strictly_sorted_unique(s: Seq<Seq<char>>, t: Seq<Seq<char>>)
    requires
        strictly_sorted(s),
        strictly_sorted(t),
        forall|p: Seq<char>| s.contains(p) <==> t.contains(p),
    ensures
        s == t,
    decreases s.len(),
{
    if s.len() == 0 {
        if t.len() > 0 {
            assert(t.contains(t[0]));
            assert(s.contains(t[0]));
        }
        assert(s =~= t);
    } else {
        assert(s.contains(s[0]));
        assert(t.contains(s[0]));
        let k = choose|k: int| 0 <= k < t.len() && t[k] == s[0];
        assert(t.contains(t[0]));
        assert(s.contains(t[0]));
        let m = choose|m: int| 0 <= m < s.len() && s[m] == t[0];
        if m > 0 && k > 0 {
            assert(lex_le(s[0], s[m]));
            assert(lex_le(t[0], t[k]));
            lemma_lex_le_antisymmetric(s[0], t[0]);
        }
        assert(s[0] == t[0]);
        let st = s.drop_first();
        let tt = t.drop_first();
        assert forall|i: int, j: int| 0 <= i < j < st.len() implies lex_le(
            #[trigger] st[i],
            #[trigger] st[j],
        ) && st[i] != st[j] by {
            assert(st[i] == s[i + 1] && st[j] == s[j + 1]);
        }
        assert forall|i: int, j: int| 0 <= i < j < tt.len() implies lex_le(
            #[trigger] tt[i],
            #[trigger] tt[j],
        ) && tt[i] != tt[j] by {
            assert(tt[i] == t[i + 1] && tt[j] == t[j + 1]);
        }
        assert forall|p: Seq<char>| st.contains(p) <==> tt.contains(p) by {
            if st.contains(p) {
                let i = choose|i: int| 0 <= i < st.len() && st[i] == p;
                assert(s[i + 1] == p);
                assert(s[0] != s[i + 1]);
                assert(s.contains(p));
                let j = choose|j: int| 0 <= j < t.len() && t[j] == p;
                assert(j > 0);
                assert(tt[j - 1] == p);
            }
            if tt.contains(p) {
                let i = choose|i: int| 0 <= i < tt.len() && tt[i] == p;
                assert(t[i + 1] == p);
                assert(t[0] != t[i + 1]);
                assert(t.contains(p));
                let j = choose|j: int| 0 <= j < s.len() && s[j] == p;
                assert(j > 0);
                assert(st[j - 1] == p);
            }
        }
        lemma_strictly_sorted_unique(st, tt);
        assert forall|i: int| 0 <= i < s.len() implies s[i] == t[i] by {
            if i > 0 {
                assert(s[i] == st[i - 1]);
                assert(t[i] == tt[i - 1]);
            }
        }
        assert(s.len() == st.len() + 1);
        assert(t.len() == tt.len() + 1);
        assert(s =~= t);
    }
}

} // verus!
