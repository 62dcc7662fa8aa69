//! The keys of a map, in order.

use std::collections::HashMap;

use vstd::prelude::*;

verus! {

broadcast use vstd::std_specs::hash::group_hash_axioms;

/// A list that ascends and holds exactly the members of a set.
pub open spec fn lists(keys: Seq<u32>, set: Set<u32>) -> bool {
    &&& forall|i: int, j: int| 0 <= i < j < keys.len() ==> keys[i] < keys[j]
    &&& forall|i: int| 0 <= i < keys.len() ==> set.contains(#[trigger] keys[i])
    &&& forall|k: u32| #[trigger] set.contains(k) ==> keys.contains(k)
}

/// Put a key in its place. Gives back where that is.
fn insert_key(keys: &mut Vec<u32>, key: u32) -> (at: usize)
    requires
        forall|i: int, j: int| 0 <= i < j < old(keys)@.len() ==> old(keys)@[i] < old(keys)@[j],
        !old(keys)@.contains(key),
    ensures
        at <= old(keys)@.len(),
        final(keys)@ == old(keys)@.insert(at as int, key),
        forall|i: int| 0 <= i < at ==> old(keys)@[i] < key,
        forall|i: int| at <= i < old(keys)@.len() ==> key < #[trigger] old(keys)@[i],
{
    let ghost before = keys@;
    let mut at: usize = 0;
    let n: usize = keys.len();
    while at < n && keys[at] < key
        invariant
            at <= n,
            n == keys@.len(),
            keys@ == before,
            forall|i: int| 0 <= i < at ==> before[i] < key,
        decreases n - at,
    {
        at = at + 1;
    }
    assert forall|i: int| at <= i < n implies key < #[trigger] before[i] by {
        assert(before[i] != key);
    }
    keys.insert(at, key);
    at
}

proof fn lemma_inserted(before: Seq<u32>, at: int, key: u32, set: Set<u32>)
    requires
        lists(before, set),
        0 <= at <= before.len(),
        forall|i: int| 0 <= i < at ==> before[i] < key,
        forall|i: int| at <= i < before.len() ==> key < #[trigger] before[i],
    ensures
        lists(before.insert(at, key), set.insert(key)),
{
    let after = before.insert(at, key);
    assert forall|k: u32| #[trigger] set.insert(key).contains(k) implies after.contains(k) by {
        if k == key {
            assert(after[at] == key);
        } else {
            assert(before.contains(k));
            let i = choose|i: int| 0 <= i < before.len() && before[i] == k;
            if i < at {
                assert(after[i] == k);
            } else {
                assert(after[i + 1] == k);
            }
        }
    }
    assert forall|i: int| 0 <= i < after.len() implies set.insert(key).contains(
        #[trigger] after[i],
    ) by {
        if i < at {
            assert(after[i] == before[i]);
        } else if i > at {
            assert(after[i] == before[i - 1]);
        }
    }
    assert forall|i: int, j: int| 0 <= i < j < after.len() implies after[i] < after[j] by {
        let a = if i < at {
            before[i]
        } else if i == at {
            key
        } else {
            before[i - 1]
        };
        let b = if j < at {
            before[j]
        } else if j == at {
            key
        } else {
            before[j - 1]
        };
        assert(after[i] == a && after[j] == b);
    }
}

/// The keys of a map, in ascending order.
pub fn sorted_keys<V>(m: &HashMap<u32, V>) -> (r: Vec<u32>)
    ensures
        lists(r@, m@.dom()),
{
    let mut keys: Vec<u32> = Vec::new();
    assert(Seq::<&u32>::empty().unref().to_set() =~= Set::<u32>::empty());
    assert(lists(keys@, Set::<u32>::empty()));
    for k in it: m.keys()
        invariant
            it.seq().no_duplicates(),
            it.seq().take(it.seq().len() as int) =~= it.seq(),
            it.seq().unref().to_set() == m@.dom(),
            lists(keys@, it.seq().take(it.index()).unref().to_set()),
    {
        let ghost seen = it.seq().take(it.index());
        let ghost more = it.seq().take(it.index() + 1);
        proof {
            assert(more =~= seen.push(k));
            lemma_set_grows(seen, k);
            assert(!seen.unref().to_set().contains(*k)) by {
                if seen.unref().to_set().contains(*k) {
                    let i = choose|i: int| 0 <= i < seen.unref().len() && seen.unref()[i] == *k;
                    assert(*it.seq()[i] == *k);
                    assert(it.seq()[i] == it.seq()[it.index() as int]);
                }
            }
        }
        let ghost before = keys@;
        assert(!before.contains(*k)) by {
            if before.contains(*k) {
                let i = choose|i: int| 0 <= i < before.len() && before[i] == *k;
                assert(seen.unref().to_set().contains(before[i]));
            }
        }
        let at: usize = insert_key(&mut keys, *k);
        proof {
            lemma_inserted(before, at as int, *k, seen.unref().to_set());
        }
    }
    keys
}

proof fn lemma_set_grows(seen: Seq<&u32>, k: &u32)
    ensures
        seen.push(k).unref().to_set() == seen.unref().to_set().insert(*k),
{
    let a = seen.push(k).unref();
    let b = seen.unref();
    assert(a =~= b.push(*k));
    assert forall|x: u32| a.to_set().contains(x) <==> b.to_set().insert(*k).contains(x) by {
        if a.to_set().contains(x) {
            let i = choose|i: int| 0 <= i < a.len() && a[i] == x;
            if i < b.len() {
                assert(b[i] == x);
            }
        }
        if b.to_set().contains(x) {
            let i = choose|i: int| 0 <= i < b.len() && b[i] == x;
            assert(a[i] == x);
        }
        if x == *k {
            assert(a[b.len() as int] == x);
        }
    }
    assert(a.to_set() =~= b.to_set().insert(*k));
}

/// A set has one such list.
pub proof fn law_ordered_list_is_unique(a: Seq<u32>, b: Seq<u32>, set: Set<u32>)
    requires
        lists(a, set),
        lists(b, set),
    ensures
        a == b,
    decreases a.len(),
{
    if a.len() == 0 {
        if b.len() > 0 {
            assert(set.contains(b[0]));
            assert(a.contains(b[0]));
        }
        assert(a =~= b);
    } else if b.len() == 0 {
        assert(set.contains(a[0]));
        assert(b.contains(a[0]));
    } else {
        assert(set.contains(a.last()) && set.contains(b.last()));
        let i = choose|i: int| 0 <= i < b.len() && b[i] == a.last();
        assert(b.contains(a.last()));
        let j = choose|j: int| 0 <= j < a.len() && a[j] == b.last();
        assert(a.contains(b.last()));
        assert(a.last() <= b.last()) by {
            assert(b[i] == a.last());
        }
        assert(b.last() <= a.last()) by {
            assert(a[j] == b.last());
        }
        let x = a.last();
        let smaller = set.remove(x);
        lemma_shorter(a, set);
        lemma_shorter(b, set);
        law_ordered_list_is_unique(a.drop_last(), b.drop_last(), smaller);
        assert(a =~= a.drop_last().push(x));
        assert(b =~= b.drop_last().push(x));
    }
}

proof fn lemma_shorter(a: Seq<u32>, set: Set<u32>)
    requires
        lists(a, set),
        a.len() > 0,
    ensures
        lists(a.drop_last(), set.remove(a.last())),
{
    let rest = a.drop_last();
    let smaller = set.remove(a.last());
    assert forall|k: u32| #[trigger] smaller.contains(k) implies rest.contains(k) by {
        assert(a.contains(k));
        let i = choose|i: int| 0 <= i < a.len() && a[i] == k;
        assert(rest[i] == k);
    }
}

} // verus!
