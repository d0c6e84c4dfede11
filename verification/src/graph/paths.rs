//! Paths along the edges of the widget graph, and the graph's acyclicity.

use vstd::prelude::*;
use super::Edge;

verus! {

/// `path` is a chain of edges of `s` leading from node `a` to node `b`; the empty chain leads
/// from a node to itself.
pub open spec fn is_path(s: Set<(u32, u32, Edge)>, path: Seq<(u32, u32, Edge)>, a: u32, b: u32) -> bool {
    if path.len() == 0 {
        a == b
    } else {
        &&& path[0].0 == a
        &&& path.last().1 == b
        &&& forall|i: int| 0 <= i < path.len() ==> s.contains(#[trigger] path[i])
        &&& forall|i: int| 0 <= i < path.len() - 1 ==> (#[trigger] path[i]).1 == path[i + 1].0
    }
}

/// Node `b` can be reached from node `a` along the edges of `s` (every node reaches itself).
pub open spec fn reaches(s: Set<(u32, u32, Edge)>, a: u32, b: u32) -> bool {
    exists|path: Seq<(u32, u32, Edge)>| is_path(s, path, a, b)
}

/// No edge of `s` closes a cycle: its parent cannot be reached from its child.
pub open spec fn acyclic(s: Set<(u32, u32, Edge)>) -> bool {
    forall|t: (u32, u32, Edge)| #[trigger] s.contains(t) ==> !reaches(s, t.1, t.0)
}

/// The edges of `s` that do not end at node `c`.
pub open spec fn not_into(s: Set<(u32, u32, Edge)>, c: u32) -> Set<(u32, u32, Edge)> {
    s.filter(|t: (u32, u32, Edge)| t.1 != c)
}

/// What can be reached along fewer edges can be reached along more.
pub proof fn lemma_reaches_subset(s1: Set<(u32, u32, Edge)>, s2: Set<(u32, u32, Edge)>, a: u32, b: u32)
    requires
        s1.subset_of(s2),
        reaches(s1, a, b),
    ensures
        reaches(s2, a, b),
{
    let path = choose|path: Seq<(u32, u32, Edge)>| is_path(s1, path, a, b);
    assert(is_path(s2, path, a, b));
}

/// Fewer edges than those of an acyclic graph hold no cycle either.
pub proof fn lemma_acyclic_subset(s1: Set<(u32, u32, Edge)>, s2: Set<(u32, u32, Edge)>)
    requires
        s1.subset_of(s2),
        acyclic(s2),
    ensures
        acyclic(s1),
{
    assert forall|t: (u32, u32, Edge)| #[trigger] s1.contains(t) implies !reaches(s1, t.1, t.0) by {
        if reaches(s1, t.1, t.0) {
            lemma_reaches_subset(s1, s2, t.1, t.0);
            assert(s2.contains(t));
        }
    }
}

/// A path that leaves node `n` need never come back into it.
proof fn lemma_shortcut(s: Set<(u32, u32, Edge)>, path: Seq<(u32, u32, Edge)>, n: u32, p: u32)
    requires
        is_path(s, path, n, p),
    ensures
        reaches(not_into(s, n), n, p),
    decreases path.len(),
{
    let f = not_into(s, n);
    if path.len() == 0 {
        assert(is_path(f, Seq::<(u32, u32, Edge)>::empty(), n, p));
    } else if exists|i: int| 0 <= i < path.len() && (#[trigger] path[i]).1 == n {
        let i = choose|i: int| 0 <= i < path.len() && (#[trigger] path[i]).1 == n;
        if i == path.len() - 1 {
            assert(is_path(f, Seq::<(u32, u32, Edge)>::empty(), n, p));
        } else {
            let rest = path.subrange(i + 1, path.len() as int);
            assert(path[i + 1].0 == n);
            assert(rest.last() == path.last());
            assert forall|k: int| 0 <= k < rest.len() implies s.contains(#[trigger] rest[k]) by {
                assert(rest[k] == path[i + 1 + k]);
            }
            assert forall|k: int| 0 <= k < rest.len() - 1 implies (#[trigger] rest[k]).1 == rest[k + 1].0 by {
                assert(rest[k] == path[i + 1 + k]);
                assert(rest[k + 1] == path[i + 1 + k + 1]);
            }
            assert(is_path(s, rest, n, p));
            lemma_shortcut(s, rest, n, p);
        }
    } else {
        assert forall|k: int| 0 <= k < path.len() implies f.contains(#[trigger] path[k]) by {
            assert(path[k].1 != n);
        }
        assert(is_path(f, path, n, p));
    }
}

/// Whether `p` can be reached from `n` does not depend on the edges that end at `n`.
pub proof fn lemma_reaches_not_into(s: Set<(u32, u32, Edge)>, n: u32, p: u32)
    ensures
        reaches(s, n, p) <==> reaches(not_into(s, n), n, p),
{
    if reaches(s, n, p) {
        let path = choose|path: Seq<(u32, u32, Edge)>| is_path(s, path, n, p);
        lemma_shortcut(s, path, n, p);
    }
    if reaches(not_into(s, n), n, p) {
        lemma_reaches_subset(not_into(s, n), s, n, p);
    }
}

} // verus!
