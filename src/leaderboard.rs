use crate::creature::Creature;
use crate::world::WorldState;
use vstd::prelude::*;

verus! {

/// Number of living organisms of `strain`.
pub open spec fn strain_size(cs: Seq<Creature>, strain: u64) -> nat
    decreases cs.len(),
{
    if cs.len() == 0 {
        0
    } else {
        strain_size(cs.drop_last(), strain) + if cs.last().alive() && cs.last().strain == strain {
            1nat
        } else {
            0nat
        }
    }
}

/// Order of the leaderboard on `(strain, size)` entries: larger size first,
/// and on equal sizes the larger strain id first.
pub open spec fn ranks_before(a: (u64, u64), b: (u64, u64)) -> bool {
    a.1 > b.1 || (a.1 == b.1 && a.0 > b.0)
}

/// Each entry names a strain with living members and gives its size; every
/// such strain has an entry; no strain twice.
pub open spec fn counts_of(entries: Seq<(u64, u64)>, cs: Seq<Creature>) -> bool {
    &&& forall|k: int|
        0 <= k < entries.len() ==> (#[trigger] entries[k]).1 == strain_size(cs, entries[k].0)
            && entries[k].1 > 0
    &&& forall|s: u64|
        #[trigger] strain_size(cs, s) > 0 ==> exists|k: int|
            0 <= k < entries.len() && (#[trigger] entries[k]).0 == s
    &&& forall|k1: int, k2: int|
        0 <= k1 < entries.len() && 0 <= k2 < entries.len() && k1 != k2 ==> (#[trigger] entries[k1]).0
            != (#[trigger] entries[k2]).0
}

fn count_strains(cs: &Vec<Creature>) -> (entries: Vec<(u64, u64)>)
    ensures
        counts_of(entries@, cs@),
{
    let mut entries: Vec<(u64, u64)> = Vec::new();
    let mut i: usize = 0;
    while i < cs.len()
        invariant
            i <= cs.len(),
            counts_of(entries@, cs@.take(i as int)),
            forall|k: int| 0 <= k < entries.len() ==> (#[trigger] entries[k]).1 <= i,
        decreases cs.len() - i,
    {
        let ghost p = cs@.take(i as int);
        let ghost q = cs@.take(i + 1);
        assert(q.drop_last() =~= p);
        let c = cs[i];
        if c.is_alive() {
            let mut k: usize = 0;
            while k < entries.len() && entries[k].0 != c.strain
                invariant
                    k <= entries.len(),
                    forall|j: int| 0 <= j < k ==> (#[trigger] entries[j]).0 != c.strain,
                decreases entries.len() - k,
            {
                k = k + 1;
            }
            let ghost old_entries = entries@;
            if k < entries.len() {
                let n = entries[k].1;
                entries.set(k, (c.strain, n + 1));
            } else {
                entries.push((c.strain, 1));
            }
            proof {
                assert forall|s: u64| #[trigger] strain_size(q, s) > 0 implies exists|j: int|
                    0 <= j < entries.len() && (#[trigger] entries[j]).0 == s by {
                    if s == c.strain {
                        assert(entries[k as int].0 == s);
                    } else {
                        assert(strain_size(p, s) > 0);
                        let j = choose|j: int| 0 <= j < old_entries.len() && (#[trigger] old_entries[j]).0 == s;
                        assert(entries[j].0 == s);
                    }
                }
            }
        } else {
            proof {
                assert forall|s: u64| #[trigger] strain_size(q, s) > 0 implies exists|j: int|
                    0 <= j < entries.len() && (#[trigger] entries[j]).0 == s by {
                    assert(strain_size(p, s) > 0);
                }
            }
        }
        i = i + 1;
    }
    assert(cs@.take(i as int) =~= cs@);
    entries
}

pub open spec fn ranked(r: Seq<(u64, u64)>) -> bool {
    forall|a: int, b: int| 0 <= a < b < r.len() ==> ranks_before(#[trigger] r[a], #[trigger] r[b])
}

/// Inserts `e` into a ranked sequence at its place.
fn insert_ranked(r: &mut Vec<(u64, u64)>, e: (u64, u64))
    requires
        ranked(old(r)@),
        forall|j: int| 0 <= j < old(r).len() ==> (#[trigger] old(r)[j]).0 != e.0,
    ensures
        ranked(final(r)@),
        final(r).len() == old(r).len() + 1,
        forall|x: (u64, u64)| #[trigger] final(r)@.contains(x) <==> (old(r)@.contains(x) || x == e),
{
    let mut p: usize = 0;
    while p < r.len() && (r[p].1 > e.1 || (r[p].1 == e.1 && r[p].0 > e.0))
        invariant
            p <= r.len(),
            forall|j: int| 0 <= j < p ==> ranks_before(#[trigger] r[j], e),
        decreases r.len() - p,
    {
        p = p + 1;
    }
    let ghost old_r = r@;
    proof {
        old_r.insert_ensures(p as int, e);
        assert forall|j: int| p <= j < old_r.len() implies ranks_before(e, #[trigger] old_r[j]) by {
            if j > p {
                assert(ranks_before(old_r[p as int], old_r[j]));
            }
        }
    }
    r.insert(p, e);
    proof {
        assert forall|j: int| p < j < r.len() implies #[trigger] r@[j] == old_r[j - 1] by {
            assert(old_r.insert(p as int, e)[(j - 1) + 1] == old_r[j - 1]);
        }
        assert forall|a: int, b: int| 0 <= a < b < r.len() implies ranks_before(
            #[trigger] r[a],
            #[trigger] r[b],
        ) by {
            if b == p {
            } else if a == p {
                assert(r[b] == old_r[b - 1]);
            } else if a < p && b > p {
                assert(r[b] == old_r[b - 1]);
            } else if a < p {
            } else {
                assert(r[a] == old_r[a - 1]);
                assert(r[b] == old_r[b - 1]);
            }
        }
        assert forall|x: (u64, u64)| #[trigger] r@.contains(x) <==> (old_r.contains(x) || x == e) by {
            if r@.contains(x) {
                let rs = r@;
                let j = choose|j: int| 0 <= j < rs.len() && rs[j] == x;
                if j < p {
                    assert(old_r[j] == x);
                } else if j > p {
                    assert(old_r[j - 1] == x);
                }
            }
            if old_r.contains(x) {
                let j = choose|j: int| 0 <= j < old_r.len() && old_r[j] == x;
                if j < p {
                    assert(r@[j] == x);
                } else {
                    assert(r@[j + 1] == x);
                }
            }
            if x == e {
                assert(r@[p as int] == x);
            }
        }
    }
}

/// The living strains of a frame with their sizes, largest first, and on
/// equal sizes the larger strain id first.
pub fn leaderboard(state: &WorldState) -> (r: Vec<(u64, u64)>)
    ensures
        counts_of(r@, state.creatures@),
        ranked(r@),
{
    let entries = count_strains(&state.creatures);
    let ghost cs = state.creatures@;
    let mut r: Vec<(u64, u64)> = Vec::new();
    let mut i: usize = 0;
    while i < entries.len()
        invariant
            i <= entries.len(),
            counts_of(entries@, cs),
            ranked(r@),
            forall|x: (u64, u64)| #[trigger] r@.contains(x) <==> entries@.take(i as int).contains(x),
        decreases entries.len() - i,
    {
        let e = entries[i];
        proof {
            assert forall|j: int| 0 <= j < r.len() implies (#[trigger] r[j]).0 != e.0 by {
                assert(r@.contains(r[j]));
                let t = entries@.take(i as int);
                let k = choose|k: int| 0 <= k < t.len() && t[k] == r[j];
                assert(entries[k] == r[j]);
            }
        }
        insert_ranked(&mut r, e);
        i = i + 1;
        proof {
            let t = entries@.take(i as int);
            let u = entries@.take(i - 1);
            assert forall|x: (u64, u64)| #[trigger] r@.contains(x) <==> t.contains(x) by {
                assert(t =~= u.push(e));
                if u.contains(x) {
                    let k = choose|k: int| 0 <= k < u.len() && u[k] == x;
                    assert(t[k] == x);
                }
                if t.contains(x) && x != e {
                    let k = choose|k: int| 0 <= k < t.len() && t[k] == x;
                    assert(u[k] == x);
                }
                if x == e {
                    assert(t[i - 1] == x);
                }
            }
        }
    }
    proof {
        assert(entries@.take(i as int) =~= entries@);
        assert forall|j: int| 0 <= j < r.len() implies (#[trigger] r[j]).1 == strain_size(
            cs,
            r[j].0,
        ) && r[j].1 > 0 by {
            assert(r@.contains(r[j]));
            let es = entries@;
            let k = choose|k: int| 0 <= k < es.len() && es[k] == r[j];
            assert(entries[k] == r[j]);
        }
        assert forall|s: u64| #[trigger] strain_size(cs, s) > 0 implies exists|j: int|
            0 <= j < r.len() && (#[trigger] r[j]).0 == s by {
            let k = choose|k: int| 0 <= k < entries.len() && (#[trigger] entries[k]).0 == s;
            assert(entries@.contains(entries[k]));
            assert(r@.contains(entries[k]));
            let rs = r@;
            let j = choose|j: int| 0 <= j < rs.len() && rs[j] == entries[k];
            assert(r[j].0 == s);
        }
        assert forall|k1: int, k2: int|
            0 <= k1 < r.len() && 0 <= k2 < r.len() && k1 != k2 implies (#[trigger] r[k1]).0 != (
            #[trigger] r[k2]).0 by {
            if k1 < k2 {
                assert(ranks_before(r[k1], r[k2]));
            } else {
                assert(ranks_before(r[k2], r[k1]));
            }
        }
    }
    r
}

} // verus!
