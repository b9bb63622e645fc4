//! Default prefixes: the minimal set of namespace prefixes that covers what a
//! principal's grants make listable.

use vstd::prelude::*;
use crate::error::ListError;
use crate::text::{is_prefix, lex_le, sorted, strictly_sorted, views, starts_with, sort_strings,
    lemma_prefix_sorts_first, lemma_lex_le_antisymmetric, lemma_between_keeps_prefix,
    lemma_strictly_sorted_unique};

verus! {

/// The level of access that a grant confers.
#[derive(Clone, Copy, Debug, PartialEq, Eq, Structural)]
pub enum Capability {
    Read,
    Write,
    Admin,
}

/// One access grant: a namespace prefix and the capability held over it.
#[derive(Clone, Debug)]
pub struct AuthorizedPrefix {
    pub prefix: String,
    pub user_capability: Capability,
}

/// The namespace of data-plane bookkeeping, under which nothing is listable.
pub open spec fn reserved_namespace() -> Seq<char> {
    "ops/dp/"@
}

/// The prefixes of a list of grants, in the same order.
pub open spec fn grant_prefixes(grants: Seq<AuthorizedPrefix>) -> Seq<Seq<char>> {
    Seq::new(grants.len(), |i: int| grants[i].prefix@)
}

/// `p` is granted and lies outside the reserved namespace.
pub open spec fn is_candidate(granted: Seq<Seq<char>>, p: Seq<char>) -> bool {
    granted.contains(p) && !is_prefix(reserved_namespace(), p)
}

/// `p` is a candidate that no other candidate is a prefix of.
pub open spec fn is_root(granted: Seq<Seq<char>>, p: Seq<char>) -> bool {
    is_candidate(granted, p) && forall|q: Seq<char>|
        is_candidate(granted, q) && is_prefix(q, p) ==> q == p
}

/// `out` lists exactly the roots of `granted`, each once, in sorted order.
pub open spec fn is_resolution(granted: Seq<Seq<char>>, out: Seq<Seq<char>>) -> bool {
    strictly_sorted(out) && forall|p: Seq<char>| out.contains(p) <==> is_root(granted, p)
}

/// The resolution of `granted`. Every list of grants has one, and only one.
pub open spec fn resolution(granted: Seq<Seq<char>>) -> Seq<Seq<char>> {
    choose|s: Seq<Seq<char>>| is_resolution(granted, s)
}

/// No element is a prefix of another one.
pub open spec fn non_nested(out: Seq<Seq<char>>) -> bool {
    forall|i: int, j: int|
        0 <= i < out.len() && 0 <= j < out.len() && i != j ==> !is_prefix(
            #[trigger] out[i],
            #[trigger] out[j],
        )
}

/// `out` holds exactly one prefix of `p`.
pub open spec fn covered_once(out: Seq<Seq<char>>, p: Seq<char>) -> bool {
    exists|j: int|
        0 <= j < out.len() && is_prefix(#[trigger] out[j], p) && forall|k: int|
            0 <= k < out.len() && is_prefix(#[trigger] out[k], p) ==> k == j
}


/// `out` holds a prefix of `p`.
spec fn covered(out: Seq<Seq<char>>, p: Seq<char>) -> bool {
    exists|j: int| 0 <= j < out.len() && is_prefix(#[trigger] out[j], p)
}

/// `p` is among the first `n` elements of `s`.
spec fn among_first(s: Seq<Seq<char>>, n: int, p: Seq<char>) -> bool {
    exists|k: int| 0 <= k < n && #[trigger] s[k] == p
}

/// What one pass over a sorted list leaves: elements of the list, in order,
/// none starting with an earlier one, and between them covering the list.
spec fn is_scan(ordered: Seq<Seq<char>>, out: Seq<Seq<char>>) -> bool {
    &&& forall|j: int| 0 <= j < out.len() ==> among_first(ordered, ordered.len() as int, #[trigger] out[j])
    &&& forall|a: int, b: int|
        0 <= a < b < out.len() ==> lex_le(#[trigger] out[a], #[trigger] out[b]) && !is_prefix(
            out[a],
            out[b],
        )
    &&& forall|k: int| 0 <= k < ordered.len() ==> covered(out, #[trigger] ordered[k])
}

/// Walks a sorted list once and keeps each element that does not start with
/// the element kept last.
fn drop_covered(ordered: &Vec<String>) -> (out: Vec<String>)
    requires
        sorted(views(ordered@)),
    ensures
        is_scan(views(ordered@), views(out@)),
{
    let ghost s = views(ordered@);
    let mut out: Vec<String> = Vec::new();
    let mut i: usize = 0;
    while i < ordered.len()
        invariant
            i <= ordered.len(),
            s == views(ordered@),
            sorted(s),
            forall|j: int| 0 <= j < out@.len() ==> among_first(s, i as int, #[trigger] views(out@)[j]),
            forall|a: int, b: int|
                0 <= a < b < out@.len() ==> lex_le(
                    #[trigger] views(out@)[a],
                    #[trigger] views(out@)[b],
                ) && !is_prefix(views(out@)[a], views(out@)[b]),
            forall|k: int| 0 <= k < i ==> covered(views(out@), #[trigger] s[k]),
        decreases ordered.len() - i,
    {
        let ghost before = views(out@);
        let n = out.len();
        let redundant = n > 0 && starts_with(ordered[i].as_str(), out[n - 1].as_str());
        if !redundant {
            let candidate = ordered[i].clone();
            out.push(candidate);
            proof {
                let after = views(out@);
                let c = s[i as int];
                assert(after[n as int] == c);
                assert forall|j: int| 0 <= j < n implies after[j] == before[j] by {}
                assert forall|j: int| 0 <= j < after.len() implies among_first(
                    s,
                    i + 1,
                    #[trigger] after[j],
                ) by {
                    if j < n {
                        assert(among_first(s, i as int, before[j]));
                        let k = choose|k: int| 0 <= k < i && s[k] == before[j];
                        assert(s[k] == after[j]);
                    } else {
                        assert(s[i as int] == after[j]);
                    }
                }
                assert forall|a: int, b: int| 0 <= a < b < after.len() implies lex_le(
                    #[trigger] after[a],
                    #[trigger] after[b],
                ) && !is_prefix(after[a], after[b]) by {
                    if b < n {
                        assert(lex_le(before[a], before[b]) && !is_prefix(before[a], before[b]));
                    } else {
                        assert(among_first(s, i as int, before[a]));
                        let k = choose|k: int| 0 <= k < i && s[k] == before[a];
                        assert(lex_le(s[k], s[i as int]));
                        let last = before[n - 1];
                        assert(among_first(s, i as int, before[n - 1]));
                        let kl = choose|kl: int| 0 <= kl < i && s[kl] == last;
                        assert(lex_le(s[kl], s[i as int]));
                        if a < n - 1 && is_prefix(before[a], c) {
                            assert(lex_le(before[a], before[n - 1]));
                            lemma_between_keeps_prefix(before[a], last, c);
                        }
                    }
                }
                assert forall|k: int| 0 <= k < i + 1 implies covered(after, #[trigger] s[k]) by {
                    if k < i {
                        assert(covered(before, s[k]));
                        let j = choose|j: int| 0 <= j < before.len() && is_prefix(before[j], s[k]);
                        assert(is_prefix(after[j], s[k]));
                    } else {
                        assert(is_prefix(after[n as int], s[k]));
                    }
                }
            }
        } else {
            proof {
                assert(is_prefix(before[n - 1], s[i as int]));
                assert forall|j: int| 0 <= j < before.len() implies among_first(
                    s,
                    i + 1,
                    #[trigger] before[j],
                ) by {
                    assert(among_first(s, i as int, before[j]));
                    let k = choose|k: int| 0 <= k < i && s[k] == before[j];
                    assert(s[k] == before[j]);
                }
            }
        }
        i += 1;
    }
    out
}

/// What the pass leaves of the sorted candidates is their resolution.
proof fn lemma_scan_is_resolution(
    granted: Seq<Seq<char>>,
    ordered: Seq<Seq<char>>,
    out: Seq<Seq<char>>,
)
    requires
        forall|p: Seq<char>| is_candidate(granted, p) <==> ordered.contains(p),
        is_scan(ordered, out),
    ensures
        is_resolution(granted, out),
{
    assert forall|a: int, b: int| 0 <= a < out.len() && 0 <= b < out.len() && a != b implies !is_prefix(
        #[trigger] out[a],
        #[trigger] out[b],
    ) by {
        if a > b && is_prefix(out[a], out[b]) {
            lemma_prefix_sorts_first(out[a], out[b]);
            assert(lex_le(out[b], out[a]));
            lemma_lex_le_antisymmetric(out[a], out[b]);
        }
    }
    assert forall|i: int, j: int| 0 <= i < j < out.len() implies lex_le(
        #[trigger] out[i],
        #[trigger] out[j],
    ) && out[i] != out[j] by {
        assert(!is_prefix(out[i], out[j]));
    }
    assert forall|p: Seq<char>| out.contains(p) <==> is_root(granted, p) by {
        if out.contains(p) {
            let j = choose|j: int| 0 <= j < out.len() && out[j] == p;
            assert(among_first(ordered, ordered.len() as int, out[j]));
            assert(ordered.contains(p));
            assert forall|q: Seq<char>| is_candidate(granted, q) && is_prefix(q, p) implies q
                == p by {
                assert(ordered.contains(q));
                let k = choose|k: int| 0 <= k < ordered.len() && ordered[k] == q;
                assert(covered(out, ordered[k]));
                let h = choose|h: int| 0 <= h < out.len() && is_prefix(out[h], q);
                assert(is_prefix(out[h], out[j]));
                assert(h == j);
                assert(q =~= p);
            }
        }
        if is_root(granted, p) {
            assert(ordered.contains(p));
            let k = choose|k: int| 0 <= k < ordered.len() && ordered[k] == p;
            assert(covered(out, ordered[k]));
            let h = choose|h: int| 0 <= h < out.len() && is_prefix(out[h], p);
            assert(among_first(ordered, ordered.len() as int, out[h]));
            assert(ordered.contains(out[h]));
            assert(is_candidate(granted, out[h]));
            assert(out[h] == p);
        }
    }
}

/// Every candidate has a root among its prefixes.
proof fn lemma_root_exists(granted: Seq<Seq<char>>, p: Seq<char>) -> (r: Seq<char>)
    requires
        is_candidate(granted, p),
    ensures
        is_root(granted, r),
        is_prefix(r, p),
    decreases p.len(),
{
    if is_root(granted, p) {
        p
    } else {
        let q = choose|q: Seq<char>| is_candidate(granted, q) && is_prefix(q, p) && q != p;
        if q.len() == p.len() {
            assert(q =~= p);
        }
        let r = lemma_root_exists(granted, q);
        assert(is_prefix(r, p));
        r
    }
}

/// A resolution is pairwise non-nested: none of its prefixes starts with
/// another one of them.
pub proof fn lemma_resolution_non_nested(granted: Seq<Seq<char>>, out: Seq<Seq<char>>)
    requires
        is_resolution(granted, out),
    ensures
        non_nested(out),
{
    assert forall|i: int, j: int| 0 <= i < out.len() && 0 <= j < out.len() && i != j implies !is_prefix(
        #[trigger] out[i],
        #[trigger] out[j],
    ) by {
        assert(out.contains(out[i]));
        assert(out.contains(out[j]));
        if is_prefix(out[i], out[j]) {
            assert(out[i] == out[j]);
            if i < j {
                assert(out[i] != out[j]);
            } else {
                assert(out[j] != out[i]);
            }
        }
    }
}

/// A resolution covers every listable grant exactly once: among its prefixes
/// there is one, and only one, that the grant's prefix starts with.
pub proof fn lemma_resolution_covers(granted: Seq<Seq<char>>, out: Seq<Seq<char>>, p: Seq<char>)
    requires
        is_resolution(granted, out),
        is_candidate(granted, p),
    ensures
        covered_once(out, p),
{
    let r = lemma_root_exists(granted, p);
    assert(out.contains(r));
    let j = choose|j: int| 0 <= j < out.len() && out[j] == r;
    lemma_resolution_non_nested(granted, out);
    assert forall|k: int| 0 <= k < out.len() && is_prefix(#[trigger] out[k], p) implies k == j by {
        if k != j {
            if out[k].len() <= out[j].len() {
                assert(is_prefix(out[k], out[j]));
            } else {
                assert(is_prefix(out[j], out[k]));
            }
        }
    }
    assert(is_prefix(out[j], p));
}

/// The grants decide the resolution: there is only one.
pub proof fn lemma_resolution_unique(
    granted: Seq<Seq<char>>,
    first: Seq<Seq<char>>,
    second: Seq<Seq<char>>,
)
    requires
        is_resolution(granted, first),
        is_resolution(granted, second),
    ensures
        first == second,
{
    lemma_strictly_sorted_unique(first, second);
}

/// Resolves the grants of a principal to the prefixes to list by default.
///
/// Grants under the reserved namespace are left out, and so is every grant
/// that another grant already covers. The result is sorted. When it holds
/// more than `max` prefixes the selection is ambiguous and nothing is
/// returned: cutting the list short would hide entries from the caller.
pub fn filter_default_prefixes(role_list: Vec<AuthorizedPrefix>, max: usize) -> (r: Result<
    Vec<String>,
    ListError,
>)
    ensures
        is_resolution(grant_prefixes(role_list@), resolution(grant_prefixes(role_list@))),
        match r {
            Ok(v) => {
                &&& views(v@) == resolution(grant_prefixes(role_list@))
                &&& v@.len() <= max
                &&& non_nested(views(v@))
                &&& forall|p: Seq<char>|
                    is_candidate(grant_prefixes(role_list@), p) ==> covered_once(views(v@), p)
            },
            Err(e) => {
                &&& e == (ListError::AmbiguousSelection { max })
                &&& resolution(grant_prefixes(role_list@)).len() > max
            },
        },
{
    let ghost granted = grant_prefixes(role_list@);
    let mut kept: Vec<String> = Vec::new();
    let mut i: usize = 0;
    while i < role_list.len()
        invariant
            i <= role_list.len(),
            granted == grant_prefixes(role_list@),
            forall|j: int|
                0 <= j < kept@.len() ==> is_candidate(granted, #[trigger] views(kept@)[j]),
            forall|k: int|
                0 <= k < i && !is_prefix(reserved_namespace(), #[trigger] granted[k]) ==> views(
                    kept@,
                ).contains(granted[k]),
        decreases role_list.len() - i,
    {
        let ghost before = views(kept@);
        if !starts_with(role_list[i].prefix.as_str(), "ops/dp/") {
            let prefix = role_list[i].prefix.clone();
            kept.push(prefix);
            proof {
                let after = views(kept@);
                assert(after[before.len() as int] == granted[i as int]);
                assert(granted.contains(granted[i as int]));
                assert forall|j: int| 0 <= j < before.len() implies after[j] == before[j] by {}
                assert forall|k: int|
                    0 <= k < i + 1 && !is_prefix(
                        reserved_namespace(),
                        #[trigger] granted[k],
                    ) implies after.contains(granted[k]) by {
                    if k < i {
                        let j = choose|j: int| 0 <= j < before.len() && before[j] == granted[k];
                        assert(after[j] == granted[k]);
                    } else {
                        assert(after[before.len() as int] == granted[k]);
                    }
                }
            }
        }
        i += 1;
    }
    let ghost unsorted = views(kept@);
    sort_strings(&mut kept);
    let ghost ordered = views(kept@);
    proof {
        unsorted.to_multiset_ensures();
        ordered.to_multiset_ensures();
        assert forall|p: Seq<char>| ordered.contains(p) <==> unsorted.contains(p) by {
            assert(ordered.to_multiset().count(p) == unsorted.to_multiset().count(p));
        }
        assert forall|p: Seq<char>| is_candidate(granted, p) <==> ordered.contains(p) by {
            if is_candidate(granted, p) {
                let k = choose|k: int| 0 <= k < granted.len() && granted[k] == p;
                assert(unsorted.contains(granted[k]));
            }
            if ordered.contains(p) {
                let j = choose|j: int| 0 <= j < unsorted.len() && unsorted[j] == p;
                assert(is_candidate(granted, unsorted[j]));
            }
        }
    }
    let prefixes = drop_covered(&kept);
    proof {
        lemma_scan_is_resolution(granted, ordered, views(prefixes@));
        lemma_resolution_unique(granted, views(prefixes@), resolution(granted));
        lemma_resolution_non_nested(granted, views(prefixes@));
        assert forall|p: Seq<char>| is_candidate(granted, p) implies covered_once(
            views(prefixes@),
            p,
        ) by {
            lemma_resolution_covers(granted, views(prefixes@), p);
        }
    }
    if prefixes.len() > max {
        return Err(ListError::AmbiguousSelection { max });
    }
    Ok(prefixes)
}

} // verus!
