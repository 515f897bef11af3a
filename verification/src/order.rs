//! The order in which a batch is listed: by key, and among equal keys in
//! the order of arrival.

use vstd::prelude::*;

verus! {

/// Where a key goes among positions already in order: behind the last of
/// them whose key is not greater. `order` holds positions in `keys`.
pub open spec fn slot(keys: Seq<u64>, order: Seq<int>, key: u64) -> nat
    decreases order.len(),
{
    if order.len() == 0 {
        0
    } else if keys[order.last()] <= key {
        order.len()
    } else {
        slot(keys, order.drop_last(), key)
    }
}

/// The positions of `keys`, arranged so that the keys ascend and equal keys
/// stay in the order they came in.
pub open spec fn stable_order(keys: Seq<u64>) -> Seq<int>
    decreases keys.len(),
{
    if keys.len() == 0 {
        Seq::empty()
    } else {
        let before = stable_order(keys.drop_last());
        before.insert(slot(keys, before, keys.last()) as int, keys.len() - 1)
    }
}

/// `order` holds every position below `count` exactly once.
pub open spec fn is_arrangement(order: Seq<int>, count: nat) -> bool {
    &&& order.len() == count
    &&& forall|i: int| 0 <= i < order.len() ==> 0 <= #[trigger] order[i] < count
    &&& forall|i: int, j: int|
        0 <= i < j < order.len() ==> #[trigger] order[i] != #[trigger] order[j]
}

/// Along `order` the keys never descend, and where two are equal the
/// earlier position stands first.
pub open spec fn ascends(keys: Seq<u64>, order: Seq<int>) -> bool {
    forall|i: int, j: int|
        0 <= i < j < order.len() ==> {
            ||| keys[#[trigger] order[i]] < keys[#[trigger] order[j]]
            ||| (keys[order[i]] == keys[order[j]] && order[i] < order[j])
        }
}

/// The slot lies within the order, everything before it is not greater
/// than the key, and everything from it on is greater.
pub proof fn lemma_slot_parts(keys: Seq<u64>, order: Seq<int>, key: u64)
    ensures
        slot(keys, order, key) <= order.len(),
        ascends(keys, order) ==> forall|i: int|
            0 <= i < slot(keys, order, key) ==> keys[#[trigger] order[i]] <= key,
        forall|i: int|
            slot(keys, order, key) <= i < order.len() ==> keys[#[trigger] order[i]] > key,
    decreases order.len(),
{
    if order.len() > 0 {
        let rest = order.drop_last();
        lemma_slot_parts(keys, rest, key);
        if keys[order.last()] <= key {
            if ascends(keys, order) {
                assert forall|i: int| 0 <= i < order.len() implies keys[#[trigger] order[i]]
                    <= key by {
                    if i < order.len() - 1 {
                        assert(keys[order[i]] <= keys[order[order.len() - 1]]);
                    }
                }
            }
        } else {
            assert forall|i: int| 0 <= i < rest.len() implies rest[i] == order[i] by {}
            if ascends(keys, order) {
                assert(ascends(keys, rest)) by {
                    assert forall|i: int, j: int| 0 <= i < j < rest.len() implies {
                        ||| keys[#[trigger] rest[i]] < keys[#[trigger] rest[j]]
                        ||| (keys[rest[i]] == keys[rest[j]] && rest[i] < rest[j])
                    } by {
                        assert(rest[i] == order[i] && rest[j] == order[j]);
                    }
                }
            }
            assert forall|i: int| slot(keys, order, key) <= i < order.len() implies keys[
            #[trigger] order[i]] > key by {
                if i < order.len() - 1 {
                    assert(rest[i] == order[i]);
                }
            }
        }
    }
}

/// The stable order arranges all positions, and along it the keys ascend
/// with equal keys in their order of arrival.
pub proof fn lemma_stable_order_sorts(keys: Seq<u64>)
    ensures
        is_arrangement(stable_order(keys), keys.len()),
        ascends(keys, stable_order(keys)),
    decreases keys.len(),
{
    if keys.len() > 0 {
        let front = keys.drop_last();
        let before = stable_order(front);
        let at = slot(keys, before, keys.last()) as int;
        let order = stable_order(keys);
        let newest = keys.len() - 1;
        lemma_stable_order_sorts(front);
        assert(ascends(keys, before)) by {
            assert forall|i: int, j: int| 0 <= i < j < before.len() implies {
                ||| keys[#[trigger] before[i]] < keys[#[trigger] before[j]]
                ||| (keys[before[i]] == keys[before[j]] && before[i] < before[j])
            } by {
                assert(front[before[i]] == keys[before[i]]);
                assert(front[before[j]] == keys[before[j]]);
            }
        }
        lemma_slot_parts(keys, before, keys.last());
        assert(order == before.insert(at, newest));
        assert forall|i: int| 0 <= i < order.len() implies 0 <= #[trigger] order[i]
            < keys.len() by {
            if i < at {
                assert(order[i] == before[i]);
            } else if i > at {
                assert(order[i] == before[i - 1]);
            }
        }
        assert forall|i: int, j: int| 0 <= i < j < order.len() implies #[trigger] order[i]
            != #[trigger] order[j] && {
            ||| keys[order[i]] < keys[order[j]]
            ||| (keys[order[i]] == keys[order[j]] && order[i] < order[j])
        } by {
            let a = if i < at {
                i
            } else {
                i - 1
            };
            let b = if j < at {
                j
            } else {
                j - 1
            };
            if i != at {
                assert(order[i] == before[a]);
            }
            if j != at {
                assert(order[j] == before[b]);
            }
            if i != at && j != at {
                assert(a < b);
            }
        }
    }
}

/// No key occurs twice.
pub open spec fn distinct(keys: Seq<u64>) -> bool {
    forall|i: int, j: int| 0 <= i < j < keys.len() ==> #[trigger] keys[i] != #[trigger] keys[j]
}

/// Position `p` stands somewhere in `order`.
pub open spec fn holds(order: Seq<int>, p: int) -> bool {
    exists|r: int| 0 <= r < order.len() && #[trigger] order[r] == p
}

/// Every position below `count` stands somewhere in `order`.
pub open spec fn covers(order: Seq<int>, count: nat) -> bool {
    forall|p: int| 0 <= p < count ==> #[trigger] holds(order, p)
}

/// `via` and `back` take the positions below `count` to one another: each
/// undoes what the other does.
pub open spec fn mirrors(via: Seq<int>, back: Seq<int>, count: nat) -> bool {
    &&& via.len() == count
    &&& back.len() == count
    &&& forall|i: int| 0 <= i < count ==> 0 <= #[trigger] via[i] < count && back[via[i]] == i
    &&& forall|p: int| 0 <= p < count ==> 0 <= #[trigger] back[p] < count && via[back[p]] == p
}

/// The stable order leaves no position out.
pub proof fn lemma_stable_order_covers(keys: Seq<u64>)
    ensures
        covers(stable_order(keys), keys.len()),
    decreases keys.len(),
{
    if keys.len() > 0 {
        let front = keys.drop_last();
        let before = stable_order(front);
        let order = stable_order(keys);
        lemma_stable_order_covers(front);
        lemma_stable_order_sorts(front);
        lemma_slot_parts(keys, before, keys.last());
        let at = slot(keys, before, keys.last()) as int;
        assert(order == before.insert(at, keys.len() - 1));
        assert forall|p: int| 0 <= p < keys.len() implies #[trigger] holds(order, p) by {
            if p == keys.len() - 1 {
                assert(order[at] == p);
            } else {
                assert(holds(before, p));
                let r = choose|r: int| 0 <= r < before.len() && #[trigger] before[r] == p;
                if r < at {
                    assert(order[r] == p);
                } else {
                    assert(order[r + 1] == p);
                }
            }
        }
    }
}

/// Two orders that both leave no position out, and along both of which the
/// keys ascend with equal keys in their order of arrival, agree at every
/// place.
pub proof fn lemma_ascending_orders_agree(keys: Seq<u64>, x: Seq<int>, y: Seq<int>, r: int)
    requires
        x.len() == keys.len(),
        y.len() == keys.len(),
        forall|i: int| 0 <= i < x.len() ==> 0 <= #[trigger] x[i] < keys.len(),
        forall|i: int| 0 <= i < y.len() ==> 0 <= #[trigger] y[i] < keys.len(),
        ascends(keys, x),
        ascends(keys, y),
        covers(x, keys.len()),
        covers(y, keys.len()),
        0 <= r < keys.len(),
    ensures
        x[r] == y[r],
    decreases r,
{
    assert forall|t: int| 0 <= t < r implies x[t] == y[t] by {
        lemma_ascending_orders_agree(keys, x, y, t);
    }
    assert(holds(y, x[r]));
    assert(holds(x, y[r]));
    let t = choose|t: int| 0 <= t < y.len() && #[trigger] y[t] == x[r];
    let u = choose|u: int| 0 <= u < x.len() && #[trigger] x[u] == y[r];
    if t < r {
        assert(x[t] == y[t]);
        assert(keys[x[t]] < keys[x[r]] || (keys[x[t]] == keys[x[r]] && x[t] < x[r]));
    } else if t > r {
        assert(keys[y[r]] < keys[y[t]] || (keys[y[r]] == keys[y[t]] && y[r] < y[t]));
        if u < r {
            assert(x[u] == y[u]);
            assert(keys[y[u]] < keys[y[r]] || (keys[y[u]] == keys[y[r]] && y[u] < y[r]));
        } else if u > r {
            assert(keys[x[r]] < keys[x[u]] || (keys[x[r]] == keys[x[u]] && x[r] < x[u]));
        }
    }
}

/// The stable order is the only one: an order that leaves no position out,
/// and along which the keys ascend with equal keys in their order of
/// arrival, is the stable order.
pub proof fn lemma_stable_order_is_the_only_one(keys: Seq<u64>, order: Seq<int>)
    requires
        order.len() == keys.len(),
        forall|i: int| 0 <= i < order.len() ==> 0 <= #[trigger] order[i] < keys.len(),
        covers(order, keys.len()),
        ascends(keys, order),
    ensures
        order == stable_order(keys),
{
    lemma_stable_order_sorts(keys);
    lemma_stable_order_covers(keys);
    assert forall|r: int| 0 <= r < order.len() implies order[r] == stable_order(keys)[r] by {
        lemma_ascending_orders_agree(keys, order, stable_order(keys), r);
    }
    assert(order =~= stable_order(keys));
}

/// The order of a batch does not depend on how it arrived, as long as no
/// two keys are equal: if `later` holds the keys of `keys` in another
/// arrangement, each place of the stable order holds the same key's holder
/// in both.
pub proof fn lemma_order_ignores_arrival(
    keys: Seq<u64>,
    later: Seq<u64>,
    via: Seq<int>,
    back: Seq<int>,
)
    requires
        later.len() == keys.len(),
        mirrors(via, back, keys.len()),
        forall|i: int| 0 <= i < later.len() ==> #[trigger] later[i] == keys[via[i]],
        distinct(keys),
    ensures
        forall|r: int|
            0 <= r < keys.len() ==> via[#[trigger] stable_order(later)[r]] == stable_order(
                keys,
            )[r],
{
    let n = keys.len();
    let first = stable_order(keys);
    let second = stable_order(later);
    lemma_stable_order_sorts(keys);
    lemma_stable_order_sorts(later);
    lemma_stable_order_covers(keys);
    lemma_stable_order_covers(later);
    let carried = Seq::new(n, |r: int| via[second[r]]);
    assert(ascends(keys, carried)) by {
        assert forall|i: int, j: int| 0 <= i < j < carried.len() implies {
            ||| keys[#[trigger] carried[i]] < keys[#[trigger] carried[j]]
            ||| (keys[carried[i]] == keys[carried[j]] && carried[i] < carried[j])
        } by {
            let a = second[i];
            let b = second[j];
            assert(a != b);
            assert(later[a] == keys[via[a]]);
            assert(later[b] == keys[via[b]]);
            assert(back[via[a]] == a && back[via[b]] == b);
            assert(via[a] != via[b]);
            if via[a] < via[b] {
                assert(keys[via[a]] != keys[via[b]]);
            } else {
                assert(keys[via[b]] != keys[via[a]]);
            }
        }
    }
    assert(covers(carried, n)) by {
        assert forall|p: int| 0 <= p < n implies #[trigger] holds(carried, p) by {
            let i = back[p];
            assert(holds(second, i));
            let r = choose|r: int| 0 <= r < second.len() && #[trigger] second[r] == i;
            assert(carried[r] == p);
        }
    }
    assert forall|r: int| 0 <= r < n implies via[#[trigger] second[r]] == first[r] by {
        lemma_ascending_orders_agree(keys, carried, first, r);
        assert(carried[r] == via[second[r]]);
    }
}

/// Works out the order in which to list a batch from its keys alone.
pub fn sort_order(keys: &Vec<u64>) -> (order: Vec<usize>)
    ensures
        order@.map_values(|p: usize| p as int) == stable_order(keys@),
        order@.len() == keys@.len(),
        forall|i: int| 0 <= i < order@.len() ==> #[trigger] order@[i] < keys@.len(),
{
    let mut order: Vec<usize> = Vec::new();
    let mut next: usize = 0;
    while next < keys.len()
        invariant
            next <= keys@.len(),
            order@.len() == next,
            forall|i: int| 0 <= i < order@.len() ==> #[trigger] order@[i] < next,
            order@.map_values(|p: usize| p as int) == stable_order(keys@.take(next as int)),
        decreases keys@.len() - next,
    {
        let key = keys[next];
        let ghost seen = keys@.take(next + 1);
        let ghost before = order@.map_values(|p: usize| p as int);
        let mut at: usize = order.len();
        assert(before.take(at as int) =~= before);
        while at > 0 && keys[order[at - 1]] > key
            invariant
                at <= order@.len(),
                order@.len() == next,
                next < keys@.len(),
                key == keys@[next as int],
                seen == keys@.take(next + 1),
                before == order@.map_values(|p: usize| p as int),
                forall|i: int| 0 <= i < order@.len() ==> #[trigger] order@[i] < next,
                slot(seen, before, key) == slot(seen, before.take(at as int), key),
            decreases at,
        {
            proof {
                let part = before.take(at as int);
                assert(part.last() == order@[at - 1] as int);
                assert(seen[part.last()] == keys@[order@[at - 1] as int]);
                assert(part.drop_last() =~= before.take(at - 1));
            }
            at = at - 1;
        }
        proof {
            let part = before.take(at as int);
            if at > 0 {
                assert(part.last() == order@[at - 1] as int);
                assert(seen[part.last()] == keys@[order@[at - 1] as int]);
            }
            assert(slot(seen, before, key) == at);
            assert(seen.drop_last() =~= keys@.take(next as int));
            assert(seen.last() == key);
        }
        order.insert(at, next);
        proof {
            assert(order@.map_values(|p: usize| p as int) =~= before.insert(
                at as int,
                next as int,
            ));
        }
        next = next + 1;
    }
    assert(keys@.take(next as int) =~= keys@);
    order
}

} // verus!
