//! Ordering records by a number.

use vstd::prelude::*;

verus! {

/// Puts a record at its place, largest key first; equals keep their order.
pub open spec fn insertedIndex(order: Seq<int>, keys: Seq<u64>, i: int) -> Seq<int>
    decreases order.len(),
{
    if order.len() == 0 || keys[order[0]] < keys[i] {
        seq![i] + order
    } else {
        seq![order[0]] + insertedIndex(order.drop_first(), keys, i)
    }
}

/// The first `count` records by position, largest key first; equals keep their order.
pub open spec fn largestFirst(keys: Seq<u64>, count: int) -> Seq<int>
    decreases count,
{
    if count <= 0 {
        Seq::empty()
    } else {
        insertedIndex(largestFirst(keys, count - 1), keys, count - 1)
    }
}

/// Positions as numbers.
pub open spec fn positions(order: Seq<usize>) -> Seq<int> {
    order.map_values(|i: usize| i as int)
}

/// Orders records by their keys, largest first; equals keep their order.
pub fn orderLargestFirst(keys: &Vec<u64>) -> (result: Vec<usize>)
    ensures
        positions(result@) == largestFirst(keys@, keys@.len() as int),
        forall|k: int| 0 <= k < result@.len() ==> result@[k] < keys@.len(),
        result@.len() == keys@.len(),
{
    let mut order: Vec<usize> = Vec::new();
    let mut i: usize = 0;
    assert(positions(order@) == largestFirst(keys@, 0));
    while i < keys.len()
        invariant
            i <= keys.len(),
            order@.len() == i,
            positions(order@) == largestFirst(keys@, i as int),
            forall|k: int| 0 <= k < order@.len() ==> order@[k] < i,
        decreases keys.len() - i,
    {
        let ghost before = positions(order@);
        let mut at: usize = 0;
        assert(before.skip(0) == before);
        assert(before.take(0) + insertedIndex(before.skip(0), keys@, i as int) == insertedIndex(
            before,
            keys@,
            i as int,
        ));
        while at < order.len() && keys[order[at]] >= keys[i]
            invariant
                at <= order.len(),
                i < keys.len(),
                before == positions(order@),
                forall|k: int| 0 <= k < order@.len() ==> order@[k] < i,
                before.take(at as int) + insertedIndex(before.skip(at as int), keys@, i as int)
                    == insertedIndex(before, keys@, i as int),
            decreases order.len() - at,
        {
            let ghost rest = before.skip(at as int);
            assert(rest[0] == before[at as int]);
            assert(rest.drop_first() == before.skip(at + 1));
            assert(before.take(at as int) + (seq![rest[0]] + insertedIndex(
                before.skip(at + 1),
                keys@,
                i as int,
            )) == before.take(at + 1) + insertedIndex(before.skip(at + 1), keys@, i as int));
            at += 1;
        }
        let ghost rest = before.skip(at as int);
        if at < order.len() {
            assert(rest[0] == before[at as int]);
        }
        order.insert(at, i);
        assert(positions(order@) == before.take(at as int) + (seq![i as int] + rest));
        i += 1;
    }
    order
}

/// Whether the records at these positions stand largest first.
pub open spec fn isLargestFirst(order: Seq<int>, keys: Seq<u64>) -> bool {
    forall|a: int, b: int|
        0 <= a < b < order.len() ==> keys[#[trigger] order[a]] >= keys[#[trigger] order[b]]
}

proof fn lemmaInsertedIndex(order: Seq<int>, keys: Seq<u64>, i: int)
    requires
        isLargestFirst(order, keys),
    ensures
        isLargestFirst(insertedIndex(order, keys, i), keys),
        forall|x: int| #[trigger]
            insertedIndex(order, keys, i).contains(x) <==> x == i || order.contains(x),
        insertedIndex(order, keys, i).len() == order.len() + 1,
    decreases order.len(),
{
    let result = insertedIndex(order, keys, i);
    if order.len() == 0 || keys[order[0]]
        < keys[i] {
        assert forall|a: int, b: int| 0 <= a < b < result.len() implies keys[
            #[trigger] result[a]
        ] >= keys[#[trigger] result[b]] by {
            assert(result[b] == order[b - 1]);
            if a > 0 {
                assert(result[a] == order[a - 1]);
            } else if b > 1 {
                assert(keys[order[0]]
                    >= keys[order[b - 1]]);
            }
        }
        assert forall|x: int| #[trigger] result.contains(x) <==> x == i || order.contains(x) by {
            if result.contains(x) {
                let k = choose|k: int| 0 <= k < result.len() && result[k] == x;
                if k > 0 {
                    assert(order[k - 1] == x);
                }
            }
            if order.contains(x) {
                let k = choose|k: int| 0 <= k < order.len() && order[k] == x;
                assert(result[k + 1] == x);
            }
            assert(result[0] == i);
        }
    } else {
        let rest = order.drop_first();
        assert(isLargestFirst(rest, keys)) by {
            assert forall|a: int, b: int| 0 <= a < b < rest.len() implies keys[
                #[trigger] rest[a]
            ] >= keys[#[trigger] rest[b]] by {
                assert(rest[a] == order[a + 1] && rest[b] == order[b + 1]);
            }
        }
        lemmaInsertedIndex(rest, keys, i);
        let inner = insertedIndex(rest, keys, i);
        assert forall|a: int, b: int| 0 <= a < b < result.len() implies keys[
            #[trigger] result[a]
        ] >= keys[#[trigger] result[b]] by {
            assert(result[b] == inner[b - 1]);
            if a > 0 {
                assert(result[a] == inner[a - 1]);
            } else {
                assert(inner.contains(inner[b - 1]));
                if inner[b - 1] != i {
                    let k = choose|k: int| 0 <= k < rest.len() && rest[k] == inner[b - 1];
                    assert(rest[k] == order[k + 1]);
                }
            }
        }
        assert forall|x: int| #[trigger] result.contains(x) <==> x == i || order.contains(x) by {
            if result.contains(x) {
                let k = choose|k: int| 0 <= k < result.len() && result[k] == x;
                if k > 0 {
                    assert(inner[k - 1] == x);
                    assert(inner.contains(x));
                    if x != i {
                        let m = choose|m: int| 0 <= m < rest.len() && rest[m] == x;
                        assert(order[m + 1] == x);
                    }
                } else {
                    assert(order[0] == x);
                }
            }
            if x == i || order.contains(x) {
                if order.contains(x) && order[0] == x {
                    assert(result[0] == x);
                } else {
                    if x != i {
                        let m = choose|m: int| 0 <= m < order.len() && order[m] == x;
                        assert(rest[m - 1] == x);
                    }
                    assert(inner.contains(x));
                    let k = choose|k: int| 0 <= k < inner.len() && inner[k] == x;
                    assert(result[k + 1] == x);
                }
            }
        }
    }
}

/// Ordering gives each position once, largest key first.
pub proof fn lawLargestFirst(keys: Seq<u64>, count: int)
    requires
        0 <= count <= keys.len(),
    ensures
        isLargestFirst(largestFirst(keys, count), keys),
        largestFirst(keys, count).len() == count,
        forall|x: int| #[trigger] largestFirst(keys, count).contains(x) <==> 0 <= x < count,
    decreases count,
{
    if count > 0 {
        lawLargestFirst(keys, count - 1);
        let before = largestFirst(keys, count - 1);
        lemmaInsertedIndex(before, keys, count - 1);
        assert forall|x: int| #[trigger] largestFirst(keys, count).contains(x) <==> 0 <= x
            < count by {
            assert(before.contains(x) <==> 0 <= x < count - 1);
        }
    }
}

/// Keys that stand in the opposite order.
pub open spec fn mirroredKeys(keys: Seq<u64>) -> Seq<u64> {
    keys.map_values(|key: u64| (u64::MAX - key) as u64)
}

/// Records by position, smallest key first; equals keep their order.
pub open spec fn smallestFirst(keys: Seq<u64>) -> Seq<int> {
    largestFirst(mirroredKeys(keys), keys.len() as int)
}

/// Orders records by their keys, smallest first; equals keep their order.
pub fn orderSmallestFirst(keys: &Vec<u64>) -> (result: Vec<usize>)
    ensures
        positions(result@) == smallestFirst(keys@),
        forall|k: int| 0 <= k < result@.len() ==> result@[k] < keys@.len(),
        result@.len() == keys@.len(),
{
    let mut mirrored: Vec<u64> = Vec::new();
    let mut i: usize = 0;
    while i < keys.len()
        invariant
            i <= keys.len(),
            mirrored@ == mirroredKeys(keys@).take(i as int),
        decreases keys.len() - i,
    {
        mirrored.push(u64::MAX - keys[i]);
        i += 1;
        assert(mirrored@ == mirroredKeys(keys@).take(i as int));
    }
    assert(mirrored@ == mirroredKeys(keys@));
    orderLargestFirst(&mirrored)
}

/// Ordering gives each position once, smallest key first.
pub proof fn lawSmallestFirst(keys: Seq<u64>)
    ensures
        smallestFirst(keys).len() == keys.len(),
        forall|x: int| #[trigger] smallestFirst(keys).contains(x) <==> 0 <= x < keys.len(),
        forall|a: int, b: int|
            0 <= a < b < keys.len() ==> keys[#[trigger] smallestFirst(keys)[a]]
                <= keys[#[trigger] smallestFirst(keys)[b]],
{
    let order = smallestFirst(keys);
    let mirrored = mirroredKeys(keys);
    lawLargestFirst(mirrored, keys.len() as int);
    assert forall|a: int, b: int| 0 <= a < b < keys.len() implies keys[#[trigger] order[a]]
        <= keys[#[trigger] order[b]] by {
        assert(order.contains(order[a]) && order.contains(order[b]));
        assert(mirrored[order[a]] >= mirrored[order[b]]);
    }
}

} // verus!
