//! Values kept under unique names, in a vector of pairs: the profiles of
//! the CLI config and a package's named addresses. Read through `lookup`,
//! such a vector is a map from names to values.

use vstd::prelude::*;
use crate::text::str_eq;

verus! {

/// No two entries share a name.
pub open spec fn names_unique<V>(ps: Seq<(String, V)>) -> bool {
    forall|i: int, j: int| 0 <= i < j < ps.len() ==> (#[trigger] ps[i]).0@ != (#[trigger] ps[j]).0@
}

/// The index of the entry named `name`, if there is one.
pub open spec fn index_of<V>(ps: Seq<(String, V)>, name: Seq<char>) -> Option<int> {
    if exists|i: int| 0 <= i < ps.len() && (#[trigger] ps[i]).0@ == name {
        Some(choose|i: int| 0 <= i < ps.len() && (#[trigger] ps[i]).0@ == name)
    } else {
        None
    }
}

/// The value named `name` in `ps`.
pub open spec fn lookup<V>(ps: Seq<(String, V)>, name: Seq<char>) -> Option<V> {
    match index_of(ps, name) {
        Some(i) => Some(ps[i].1),
        None => None,
    }
}

/// With unique names, the entry at `i` is the one its name finds.
pub proof fn lemma_lookup_at<V>(ps: Seq<(String, V)>, i: int)
    requires
        names_unique(ps),
        0 <= i < ps.len(),
    ensures
        index_of(ps, ps[i].0@) == Some(i),
{
    let k = choose|k: int| 0 <= k < ps.len() && (#[trigger] ps[k]).0@ == ps[i].0@;
    if k < i {
        assert(ps[k].0@ != ps[i].0@);
    } else if i < k {
        assert(ps[i].0@ != ps[k].0@);
    }
}

/// A name that no entry carries finds nothing.
pub proof fn lemma_lookup_none<V>(ps: Seq<(String, V)>, name: Seq<char>)
    requires
        forall|j: int| 0 <= j < ps.len() ==> (#[trigger] ps[j]).0@ != name,
    ensures
        index_of(ps, name) is None,
{
}

/// An empty vector finds nothing.
pub proof fn lemma_lookup_empty<V>()
    ensures
        forall|n: Seq<char>| #[trigger] lookup(Seq::<(String, V)>::empty(), n) is None,
{
}

/// What `lookup` finding nothing says of every entry.
proof fn lemma_none_means_absent<V>(ps: Seq<(String, V)>, name: Seq<char>)
    requires
        index_of(ps, name) is None,
    ensures
        forall|j: int| 0 <= j < ps.len() ==> (#[trigger] ps[j]).0@ != name,
{
    assert forall|j: int| 0 <= j < ps.len() implies (#[trigger] ps[j]).0@ != name by {
        if ps[j].0@ == name {
            assert(exists|x: int| 0 <= x < ps.len() && (#[trigger] ps[x]).0@ == name);
        }
    }
}

/// Finds the entry named `name`.
pub fn find_named<V>(ps: &Vec<(String, V)>, name: &str) -> (r: Option<usize>)
    requires
        names_unique(ps@),
    ensures
        match r {
            Some(i) => i < ps@.len() && ps@[i as int].0@ == name@ && index_of(ps@, name@) == Some(
                i as int,
            ),
            None => index_of(ps@, name@) is None,
        },
{
    let mut i: usize = 0;
    while i < ps.len()
        invariant
            i <= ps@.len(),
            names_unique(ps@),
            forall|j: int| 0 <= j < i ==> (#[trigger] ps@[j]).0@ != name@,
        decreases ps@.len() - i,
    {
        if str_eq(ps[i].0.as_str(), name) {
            proof {
                lemma_lookup_at(ps@, i as int);
            }
            return Some(i);
        }
        i = i + 1;
    }
    None
}

/// Takes the entry named `name` out, and gives its value.
pub fn named_remove<V>(ps: &mut Vec<(String, V)>, name: &str) -> (r: Option<V>)
    requires
        names_unique(old(ps)@),
    ensures
        names_unique(final(ps)@),
        r == lookup(old(ps)@, name@),
        lookup(final(ps)@, name@) is None,
        forall|n: Seq<char>| n != name@ ==> #[trigger] lookup(final(ps)@, n) == lookup(old(ps)@, n),
{
    let ghost before = ps@;
    match find_named(ps, name) {
        None => None,
        Some(i) => {
            let entry = ps.remove(i);
            proof {
                let after = ps@;
                assert(after =~= before.remove(i as int));
                assert forall|a: int, b: int|
                    0 <= a < b < after.len() implies (#[trigger] after[a]).0@
                    != (#[trigger] after[b]).0@ by {
                    let a0 = if a < i { a } else { a + 1 };
                    let b0 = if b < i { b } else { b + 1 };
                    assert(after[a] == before[a0]);
                    assert(after[b] == before[b0]);
                    assert(before[a0].0@ != before[b0].0@);
                }
                assert forall|j: int| 0 <= j < after.len() implies (#[trigger] after[j]).0@
                    != name@ by {
                    let j0 = if j < i { j } else { j + 1 };
                    assert(after[j] == before[j0]);
                    assert(before[j0].0@ != before[i as int].0@);
                }
                lemma_lookup_none(after, name@);
                assert forall|n: Seq<char>| n != name@ implies #[trigger] lookup(after, n) == lookup(
                    before,
                    n,
                ) by {
                    match index_of(before, n) {
                        Some(k) => {
                            lemma_lookup_at(before, k);
                            assert(k != i);
                            let k1 = if k < i { k } else { k - 1 };
                            assert(after[k1] == before[k]);
                            lemma_lookup_at(after, k1);
                        },
                        None => {
                            lemma_none_means_absent(before, n);
                            assert forall|j: int| 0 <= j < after.len() implies (#[trigger] after[j]).0@
                                != n by {
                                let j0 = if j < i { j } else { j + 1 };
                                assert(after[j] == before[j0]);
                            }
                            lemma_lookup_none(after, n);
                        },
                    }
                }
            }
            Some(entry.1)
        },
    }
}

/// Puts `v` under `name`, replacing the value of that name if there is one.
pub fn named_insert<V>(ps: &mut Vec<(String, V)>, name: String, v: V)
    requires
        names_unique(old(ps)@),
    ensures
        names_unique(final(ps)@),
        lookup(final(ps)@, name@) == Some(v),
        forall|n: Seq<char>| n != name@ ==> #[trigger] lookup(final(ps)@, n) == lookup(old(ps)@, n),
{
    let ghost name_view = name@;
    let ghost before = ps@;
    match find_named(ps, name.as_str()) {
        Some(i) => {
            ps.set(i, (name, v));
            proof {
                let after = ps@;
                assert forall|a: int, b: int|
                    0 <= a < b < after.len() implies (#[trigger] after[a]).0@
                    != (#[trigger] after[b]).0@ by {
                    assert(after[a].0@ == before[a].0@);
                    assert(after[b].0@ == before[b].0@);
                }
                lemma_lookup_at(after, i as int);
                assert forall|n: Seq<char>| n != name_view implies #[trigger] lookup(after, n)
                    == lookup(before, n) by {
                    match index_of(before, n) {
                        Some(k) => {
                            lemma_lookup_at(before, k);
                            assert(k != i);
                            assert(after[k] == before[k]);
                            lemma_lookup_at(after, k);
                        },
                        None => {
                            lemma_none_means_absent(before, n);
                            assert forall|j: int| 0 <= j < after.len() implies (#[trigger] after[j]).0@
                                != n by {
                                assert(after[j].0@ == before[j].0@);
                            }
                            lemma_lookup_none(after, n);
                        },
                    }
                }
            }
        },
        None => {
            ps.push((name, v));
            proof {
                let after = ps@;
                lemma_none_means_absent(before, name_view);
                assert forall|a: int, b: int|
                    0 <= a < b < after.len() implies (#[trigger] after[a]).0@
                    != (#[trigger] after[b]).0@ by {
                    assert(after[a] == before[a]);
                    if b < before.len() {
                        assert(after[b] == before[b]);
                    }
                }
                lemma_lookup_at(after, before.len() as int);
                assert forall|n: Seq<char>| n != name_view implies #[trigger] lookup(after, n)
                    == lookup(before, n) by {
                    match index_of(before, n) {
                        Some(k) => {
                            lemma_lookup_at(before, k);
                            assert(after[k] == before[k]);
                            lemma_lookup_at(after, k);
                        },
                        None => {
                            lemma_none_means_absent(before, n);
                            assert forall|j: int| 0 <= j < after.len() implies (#[trigger] after[j]).0@
                                != n by {
                                if j < before.len() {
                                    assert(after[j] == before[j]);
                                }
                            }
                            lemma_lookup_none(after, n);
                        },
                    }
                }
            }
        },
    }
}

} // verus!
