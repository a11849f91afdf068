//! Dense ordering of records within scopes.
//!
//! Every record of an ordered collection is seen here as a slot: the scope it
//! belongs to and its `order` within that scope. A scope is dense when the
//! orders of its records are exactly `0, 1, ..., n - 1` for its `n` records.
use vstd::prelude::*;

verus! {

/// A record's scope and its position within that scope.
pub type Slot = (int, int);

/// Number of slots that belong to `scope`.
pub open spec fn count_in(slots: Seq<Slot>, scope: int) -> nat
    decreases slots.len(),
{
    if slots.len() == 0 {
        0
    } else {
        count_in(slots.drop_last(), scope) + if slots.last().0 == scope {
            1nat
        } else {
            0nat
        }
    }
}

/// The set of orders held by the slots of `scope`.
pub open spec fn orders_in(slots: Seq<Slot>, scope: int) -> Set<int> {
    Set::new(|o: int| exists|i: int| 0 <= i < slots.len() && #[trigger] slots[i] == (scope, o))
}

/// The orders of `scope` are `0..n` for its `n` slots, each held once.
pub open spec fn dense_in(slots: Seq<Slot>, scope: int) -> bool {
    &&& forall|i: int|
        0 <= i < slots.len() && (#[trigger] slots[i]).0 == scope ==> 0 <= slots[i].1 < count_in(
            slots,
            scope,
        )
    &&& forall|k: int|
        0 <= k < count_in(slots, scope) ==> #[trigger] orders_in(slots, scope).contains(k)
    &&& forall|i: int, j: int|
        0 <= i < slots.len() && 0 <= j < slots.len() && i != j && (#[trigger] slots[i]).0 == scope
            && (#[trigger] slots[j]).0 == scope ==> slots[i].1 != slots[j].1
}

/// Every scope is dense.
pub open spec fn all_dense(slots: Seq<Slot>) -> bool {
    forall|scope: int| #[trigger] dense_in(slots, scope)
}

/// New order of a record at `o` when a record is placed at `at`.
pub open spec fn insert_shift(o: int, at: int) -> int {
    if o >= at {
        o + 1
    } else {
        o
    }
}

/// New order of a record at `o` when the record at `gone` leaves.
pub open spec fn remove_shift(o: int, gone: int) -> int {
    if o > gone {
        o - 1
    } else {
        o
    }
}

/// New order of a record at `o` when the record at `from` moves to `to`.
pub open spec fn move_shift(o: int, from: int, to: int) -> int {
    if from < to && from < o <= to {
        o - 1
    } else if to < from && to <= o < from {
        o + 1
    } else {
        o
    }
}

/// Slots `a` and `b` hold the same scopes at the same places.
pub open spec fn same_scopes(a: Seq<Slot>, b: Seq<Slot>) -> bool {
    a.len() == b.len() && forall|j: int| 0 <= j < a.len() ==> (#[trigger] a[j]).0 == b[j].0
}

pub proof fn lemma_count_same_scopes(a: Seq<Slot>, b: Seq<Slot>, scope: int)
    requires
        same_scopes(a, b),
    ensures
        count_in(a, scope) == count_in(b, scope),
    decreases a.len(),
{
    if a.len() > 0 {
        assert(same_scopes(a.drop_last(), b.drop_last())) by {
            assert forall|j: int| 0 <= j < a.drop_last().len() implies (
            #[trigger] a.drop_last()[j]).0 == b.drop_last()[j].0 by {
                assert(a[j].0 == b[j].0);
            }
        }
        lemma_count_same_scopes(a.drop_last(), b.drop_last(), scope);
        assert(a.last().0 == b.last().0);
    }
}

/// Slots `b` are slots `a` without the one at `i`, scopes kept in place.
pub open spec fn scopes_without(a: Seq<Slot>, b: Seq<Slot>, i: int) -> bool {
    &&& 0 <= i < a.len()
    &&& b.len() + 1 == a.len()
    &&& forall|j: int| 0 <= j < i ==> (#[trigger] b[j]).0 == a[j].0
    &&& forall|j: int| i <= j < b.len() ==> (#[trigger] b[j]).0 == a[j + 1].0
}

pub proof fn lemma_count_without(a: Seq<Slot>, b: Seq<Slot>, i: int, scope: int)
    requires
        scopes_without(a, b, i),
    ensures
        count_in(b, scope) + (if a[i].0 == scope {
            1nat
        } else {
            0nat
        }) == count_in(a, scope),
    decreases a.len(),
{
    if i == a.len() - 1 {
        assert(same_scopes(a.drop_last(), b)) by {
            assert forall|j: int| 0 <= j < a.drop_last().len() implies (
            #[trigger] a.drop_last()[j]).0 == b[j].0 by {
                assert(b[j].0 == a[j].0);
            }
        }
        lemma_count_same_scopes(a.drop_last(), b, scope);
    } else {
        let a2 = a.drop_last();
        let b2 = b.drop_last();
        assert(scopes_without(a2, b2, i)) by {
            assert forall|j: int| 0 <= j < i implies (#[trigger] b2[j]).0 == a2[j].0 by {
                assert(b[j].0 == a[j].0);
            }
            assert forall|j: int| i <= j < b2.len() implies (#[trigger] b2[j]).0 == a2[j + 1].0 by {
                assert(b[j].0 == a[j + 1].0);
            }
        }
        lemma_count_without(a2, b2, i, scope);
        assert(b.last().0 == a.last().0) by {
            assert(b[b.len() - 1].0 == a[b.len() - 1 + 1].0);
        }
    }
}

/// A dense scope holds exactly the orders `0..n`, `n` its number of records.
pub proof fn lemma_dense_orders(slots: Seq<Slot>, scope: int)
    requires
        dense_in(slots, scope),
    ensures
        orders_in(slots, scope) == Set::new(|o: int| 0 <= o < count_in(slots, scope)),
{
    let n = count_in(slots, scope);
    assert forall|o: int| #[trigger] orders_in(slots, scope).contains(o) implies 0 <= o < n by {
        let i = choose|i: int| 0 <= i < slots.len() && #[trigger] slots[i] == (scope, o);
        assert(slots[i].0 == scope);
    }
    assert(orders_in(slots, scope) =~= Set::new(|o: int| 0 <= o < n));
}

/// Placing a new record of `scope` at `at` (at most the scope's size), after
/// shifting up the records of that scope at `at` or later, keeps every scope
/// dense.
pub proof fn lemma_insert_dense(old: Seq<Slot>, new: Seq<Slot>, scope: int, at: int)
    requires
        all_dense(old),
        0 <= at <= count_in(old, scope),
        new.len() == old.len() + 1,
        new[old.len() as int] == (scope, at),
        forall|j: int|
            0 <= j < old.len() ==> (#[trigger] new[j]).0 == old[j].0 && new[j].1 == if old[j].0
                == scope {
                insert_shift(old[j].1, at)
            } else {
                old[j].1
            },
    ensures
        all_dense(new),
        count_in(new, scope) == count_in(old, scope) + 1,
        forall|s: int| s != scope ==> #[trigger] count_in(new, s) == count_in(old, s),
{
    assert(same_scopes(new.drop_last(), old)) by {
        assert forall|j: int| 0 <= j < new.drop_last().len() implies (
        #[trigger] new.drop_last()[j]).0 == old[j].0 by {
            assert(new[j].0 == old[j].0);
        }
    }
    assert forall|s: int| #[trigger] count_in(new, s) == count_in(old, s) + if s == scope {
        1nat
    } else {
        0nat
    } by {
        lemma_count_same_scopes(new.drop_last(), old, s);
    }
    let last = old.len() as int;
    assert forall|s: int| #[trigger] dense_in(new, s) by {
        assert(dense_in(old, s));
        let n = count_in(old, s);
        assert(count_in(new, s) == n + if s == scope {
            1nat
        } else {
            0nat
        });
        assert forall|i: int| 0 <= i < new.len() && (#[trigger] new[i]).0 == s implies 0 <= new[i].1
            < count_in(new, s) by {
            if i < last {
                assert(old[i].0 == s);
            }
        }
        assert forall|k: int| 0 <= k < count_in(new, s) implies #[trigger] orders_in(
            new,
            s,
        ).contains(k) by {
            if s == scope && k == at {
                assert(new[last] == (s, k));
            } else {
                let k0 = if s == scope && k > at {
                    k - 1
                } else {
                    k
                };
                assert(orders_in(old, s).contains(k0));
                let i = choose|i: int| 0 <= i < old.len() && #[trigger] old[i] == (s, k0);
                assert(new[i] == (s, k));
            }
        }
        assert forall|i: int, j: int|
            0 <= i < new.len() && 0 <= j < new.len() && i != j && (#[trigger] new[i]).0 == s && (
            #[trigger] new[j]).0 == s implies new[i].1 != new[j].1 by {
            if i < last && j < last {
                assert(old[i].0 == s && old[j].0 == s);
                assert(old[i].1 != old[j].1);
            } else if i < last {
                assert(old[i].0 == s);
            } else {
                assert(old[j].0 == s);
            }
        }
    }
}

/// Taking out the record at `gone` (index in `old`), after shifting down the
/// records of its scope that came after it, keeps every scope dense.
pub proof fn lemma_remove_dense(old: Seq<Slot>, new: Seq<Slot>, gone: int)
    requires
        all_dense(old),
        0 <= gone < old.len(),
        new.len() + 1 == old.len(),
        forall|j: int|
            0 <= j < new.len() ==> {
                let src = if j < gone {
                    j
                } else {
                    j + 1
                };
                &&& (#[trigger] new[j]).0 == old[src].0
                &&& new[j].1 == if old[src].0 == old[gone].0 {
                    remove_shift(old[src].1, old[gone].1)
                } else {
                    old[src].1
                }
            },
    ensures
        all_dense(new),
        count_in(new, old[gone].0) + 1 == count_in(old, old[gone].0),
        forall|s: int| s != old[gone].0 ==> #[trigger] count_in(new, s) == count_in(old, s),
{
    let scope = old[gone].0;
    let r = old[gone].1;
    assert(scopes_without(old, new, gone)) by {
        assert forall|j: int| 0 <= j < gone implies (#[trigger] new[j]).0 == old[j].0 by {}
        assert forall|j: int| gone <= j < new.len() implies (#[trigger] new[j]).0 == old[j
            + 1].0 by {}
    }
    assert forall|s: int| #[trigger] count_in(new, s) + (if s == scope {
        1nat
    } else {
        0nat
    }) == count_in(old, s) by {
        lemma_count_without(old, new, gone, s);
    }
    assert(dense_in(old, scope));
    assert forall|s: int| #[trigger] dense_in(new, s) by {
        assert(dense_in(old, s));
        assert forall|i: int| 0 <= i < new.len() && (#[trigger] new[i]).0 == s implies 0 <= new[i].1
            < count_in(new, s) by {
            let src = if i < gone {
                i
            } else {
                i + 1
            };
            assert(old[src].0 == s);
            if s == scope {
                assert(old[src].1 != old[gone].1);
            }
        }
        assert forall|k: int| 0 <= k < count_in(new, s) implies #[trigger] orders_in(
            new,
            s,
        ).contains(k) by {
            let k0 = if s == scope && k >= r {
                k + 1
            } else {
                k
            };
            assert(orders_in(old, s).contains(k0));
            let i0 = choose|i: int| 0 <= i < old.len() && #[trigger] old[i] == (s, k0);
            if s == scope {
                assert(old[i0].1 != old[gone].1 || i0 == gone);
            }
            assert(i0 != gone);
            let i = if i0 < gone {
                i0
            } else {
                i0 - 1
            };
            assert(new[i] == (s, k));
        }
        assert forall|i: int, j: int|
            0 <= i < new.len() && 0 <= j < new.len() && i != j && (#[trigger] new[i]).0 == s && (
            #[trigger] new[j]).0 == s implies new[i].1 != new[j].1 by {
            let si = if i < gone {
                i
            } else {
                i + 1
            };
            let sj = if j < gone {
                j
            } else {
                j + 1
            };
            assert(old[si].0 == s && old[sj].0 == s);
            assert(old[si].1 != old[sj].1);
            if s == scope {
                assert(old[si].1 != old[gone].1);
                assert(old[sj].1 != old[gone].1);
            }
        }
    }
}

/// Giving the record at index `i` the order `to` (below its scope's size),
/// after shifting the records of its scope that lay between its old order and
/// `to` by one towards the gap, keeps every scope dense.
pub proof fn lemma_move_dense(old: Seq<Slot>, new: Seq<Slot>, i: int, to: int)
    requires
        all_dense(old),
        0 <= i < old.len(),
        0 <= to < count_in(old, old[i].0),
        new.len() == old.len(),
        new[i] == (old[i].0, to),
        forall|j: int|
            0 <= j < old.len() && j != i ==> (#[trigger] new[j]).0 == old[j].0 && new[j].1 == if old[j].0
                == old[i].0 {
                move_shift(old[j].1, old[i].1, to)
            } else {
                old[j].1
            },
    ensures
        all_dense(new),
        forall|s: int| #[trigger] count_in(new, s) == count_in(old, s),
{
    let scope = old[i].0;
    let from = old[i].1;
    assert(same_scopes(old, new)) by {
        assert forall|j: int| 0 <= j < old.len() implies (#[trigger] old[j]).0 == new[j].0 by {
            if j != i {
                assert(new[j].0 == old[j].0);
            }
        }
    }
    assert forall|s: int| #[trigger] count_in(new, s) == count_in(old, s) by {
        lemma_count_same_scopes(old, new, s);
    }
    assert(dense_in(old, scope));
    assert forall|s: int| #[trigger] dense_in(new, s) by {
        assert(dense_in(old, s));
        assert forall|a: int| 0 <= a < new.len() && (#[trigger] new[a]).0 == s implies 0 <= new[a].1
            < count_in(new, s) by {
            if a != i {
                assert(old[a].0 == s);
                if s == scope {
                    assert(old[a].1 != old[i].1);
                }
            }
        }
        assert forall|k: int| 0 <= k < count_in(new, s) implies #[trigger] orders_in(
            new,
            s,
        ).contains(k) by {
            if s == scope && k == to {
                assert(new[i] == (s, k));
            } else {
                let k0 = if s != scope {
                    k
                } else if from < to && from <= k < to {
                    k + 1
                } else if to < from && to < k <= from {
                    k - 1
                } else {
                    k
                };
                assert(orders_in(old, s).contains(k0));
                let a = choose|a: int| 0 <= a < old.len() && #[trigger] old[a] == (s, k0);
                if s == scope {
                    assert(k0 != from);
                }
                assert(a != i);
                assert(new[a] == (s, k));
            }
        }
        assert forall|a: int, b: int|
            0 <= a < new.len() && 0 <= b < new.len() && a != b && (#[trigger] new[a]).0 == s && (
            #[trigger] new[b]).0 == s implies new[a].1 != new[b].1 by {
            if a != i && b != i {
                assert(old[a].0 == s && old[b].0 == s);
                assert(old[a].1 != old[b].1);
                if s == scope {
                    assert(old[a].1 != from && old[b].1 != from);
                }
            } else if a != i {
                assert(old[a].0 == s);
                assert(old[a].1 != from);
            } else {
                assert(old[b].0 == s);
                assert(old[b].1 != from);
            }
        }
    }
}

pub proof fn lemma_count_bounded(slots: Seq<Slot>, scope: int)
    ensures
        count_in(slots, scope) <= slots.len(),
    decreases slots.len(),
{
    if slots.len() > 0 {
        lemma_count_bounded(slots.drop_last(), scope);
    }
}

/// When every slot lies in `scope`, the scope holds all of them.
pub proof fn lemma_count_single_scope(slots: Seq<Slot>, scope: int)
    requires
        forall|i: int| 0 <= i < slots.len() ==> (#[trigger] slots[i]).0 == scope,
    ensures
        count_in(slots, scope) == slots.len(),
    decreases slots.len(),
{
    if slots.len() > 0 {
        let d = slots.drop_last();
        assert forall|i: int| 0 <= i < d.len() implies (#[trigger] d[i]).0 == scope by {
            assert(slots[i].0 == scope);
        }
        lemma_count_single_scope(d, scope);
        assert(slots[slots.len() - 1].0 == scope);
    }
}

} // verus!
