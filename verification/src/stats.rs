//! Statistics about a registry.

use vstd::prelude::*;
use crate::group::GroupType;

verus! {

/// Counts of what a registry holds.
pub struct Stats {
    /// The number of files.
    pub file_count: usize,
    /// The number of groups.
    pub group_count: usize,
    /// The number of groups of each type that occurs, each type once, in
    /// the order in which the types first occur.
    pub group_breakdown: Vec<(GroupType, usize)>,
    /// The number of attributes.
    pub attribute_count: usize,
    /// The number of metrics.
    pub metric_count: usize,
}

/// How many of `s` are `t`.
pub open spec fn type_count(s: Seq<GroupType>, t: GroupType) -> nat
    decreases s.len(),
{
    if s.len() == 0 {
        0
    } else {
        type_count(s.drop_last(), t) + if s.last() == t {
            1nat
        } else {
            0nat
        }
    }
}

/// The breakdown of a sequence of group types: each type that occurs, once,
/// in order of first occurrence, with how many times it occurs.
pub open spec fn breakdown_of(s: Seq<GroupType>) -> Seq<(GroupType, nat)>
    decreases s.len(),
{
    if s.len() == 0 {
        Seq::empty()
    } else {
        let b = breakdown_of(s.drop_last());
        let t = s.last();
        if exists|i: int| 0 <= i < b.len() && (#[trigger] b[i]).0 == t {
            let i = choose|i: int| 0 <= i < b.len() && (#[trigger] b[i]).0 == t;
            b.update(i, (t, b[i].1 + 1))
        } else {
            b.push((t, 1nat))
        }
    }
}

/// The breakdown held by `v`.
pub open spec fn breakdown_view(v: Seq<(GroupType, usize)>) -> Seq<(GroupType, nat)> {
    v.map_values(|p: (GroupType, usize)| (p.0, p.1 as nat))
}

/// No type occurs twice in a breakdown.
pub open spec fn types_distinct(b: Seq<(GroupType, nat)>) -> bool {
    forall|i: int, j: int| 0 <= i < b.len() && 0 <= j < b.len() && i != j ==> (#[trigger] b[i]).0
        != (#[trigger] b[j]).0
}

/// The breakdown of a sequence has distinct types, counts each one exactly,
/// and lists exactly the types that occur.
pub proof fn law_breakdown_counts_each_type(s: Seq<GroupType>)
    ensures
        types_distinct(breakdown_of(s)),
        forall|i: int|
            0 <= i < breakdown_of(s).len() ==> (#[trigger] breakdown_of(s)[i]).1 == type_count(
                s,
                breakdown_of(s)[i].0,
            ),
        forall|t: GroupType|
            s.contains(t) <==> exists|i: int|
                0 <= i < breakdown_of(s).len() && (#[trigger] breakdown_of(s)[i]).0 == t,
        breakdown_of(s).len() <= s.len(),
    decreases s.len(),
{
    if s.len() > 0 {
        let d = s.drop_last();
        law_breakdown_counts_each_type(d);
        let b = breakdown_of(d);
        let t = s.last();
        let r = breakdown_of(s);
        assert forall|u: GroupType| s.contains(u) <==> (d.contains(u) || u == t) by {
            if s.contains(u) {
                let k = choose|k: int| 0 <= k < s.len() && s[k] == u;
                if k < d.len() {
                    assert(d[k] == s[k]);
                }
            }
            if d.contains(u) {
                let k = choose|k: int| 0 <= k < d.len() && d[k] == u;
                assert(s[k] == d[k]);
            }
            if u == t {
                assert(s[s.len() - 1] == t);
            }
        }
        if exists|i: int| 0 <= i < b.len() && (#[trigger] b[i]).0 == t {
            let i = choose|i: int| 0 <= i < b.len() && (#[trigger] b[i]).0 == t;
            assert(r == b.update(i, (t, b[i].1 + 1)));
            assert forall|x: int, y: int| 0 <= x < r.len() && 0 <= y < r.len() && x != y implies (
            #[trigger] r[x]).0 != (#[trigger] r[y]).0 by {
                assert(b[x].0 != b[y].0);
            }
            assert forall|k: int| 0 <= k < r.len() implies (#[trigger] r[k]).1 == type_count(s, r[k].0) by {
                assert(b[k].1 == type_count(d, b[k].0));
                if k != i {
                    assert(b[k].0 != b[i].0);
                }
            }
            assert forall|u: GroupType| s.contains(u) <==> exists|k: int|
                0 <= k < r.len() && (#[trigger] r[k]).0 == u by {
                if d.contains(u) {
                    let k = choose|k: int| 0 <= k < b.len() && (#[trigger] b[k]).0 == u;
                    assert(r[k].0 == u);
                }
                if u == t {
                    assert(r[i].0 == u);
                }
                if exists|k: int| 0 <= k < r.len() && (#[trigger] r[k]).0 == u {
                    let k = choose|k: int| 0 <= k < r.len() && (#[trigger] r[k]).0 == u;
                    assert(b[k].0 == u || k == i);
                }
            }
        } else {
            assert(r == b.push((t, 1nat)));
            assert(!d.contains(t));
            assert(type_count(d, t) == 0) by {
                lemma_type_count_absent(d, t);
            }
            assert forall|x: int, y: int| 0 <= x < r.len() && 0 <= y < r.len() && x != y implies (
            #[trigger] r[x]).0 != (#[trigger] r[y]).0 by {
                if x < b.len() && y < b.len() {
                    assert(b[x].0 != b[y].0);
                } else if x < b.len() {
                    assert(r[x] == b[x]);
                } else {
                    assert(r[y] == b[y]);
                }
            }
            assert forall|k: int| 0 <= k < r.len() implies (#[trigger] r[k]).1 == type_count(s, r[k].0) by {
                if k < b.len() {
                    assert(r[k] == b[k]);
                    assert(b[k].1 == type_count(d, b[k].0));
                }
            }
            assert forall|u: GroupType| s.contains(u) <==> exists|k: int|
                0 <= k < r.len() && (#[trigger] r[k]).0 == u by {
                if d.contains(u) {
                    let k = choose|k: int| 0 <= k < b.len() && (#[trigger] b[k]).0 == u;
                    assert(r[k] == b[k]);
                }
                if u == t {
                    assert(r[b.len() as int].0 == u);
                }
                if exists|k: int| 0 <= k < r.len() && (#[trigger] r[k]).0 == u {
                    let k = choose|k: int| 0 <= k < r.len() && (#[trigger] r[k]).0 == u;
                    if k < b.len() {
                        assert(r[k] == b[k]);
                    }
                }
            }
        }
    }
}

proof fn lemma_type_count_absent(s: Seq<GroupType>, t: GroupType)
    requires
        !s.contains(t),
    ensures
        type_count(s, t) == 0,
    decreases s.len(),
{
    if s.len() > 0 {
        assert(s[s.len() - 1] == s.last());
        assert(!s.drop_last().contains(t)) by {
            if s.drop_last().contains(t) {
                let k = choose|k: int| 0 <= k < s.drop_last().len() && s.drop_last()[k] == t;
                assert(s[k] == t);
            }
        }
        lemma_type_count_absent(s.drop_last(), t);
    }
}

} // verus!
