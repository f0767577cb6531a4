//! The batch of one cycle: the changes that are migrated next, in ascending order and each
//! once, cut to the configured size.

use vstd::prelude::*;

verus! {

/// Whether each number of `ids` is smaller than the next.
pub open spec fn is_ascending(ids: Seq<u32>) -> bool {
    forall|i: int, j: int| 0 <= i < j < ids.len() ==> ids[i] < ids[j]
}

/// Whether `sorted` holds the numbers of `ids`, and no others, in ascending order.
pub open spec fn orders(sorted: Seq<u32>, ids: Seq<u32>) -> bool {
    is_ascending(sorted) && forall|n: u32| sorted.contains(n) <==> ids.contains(n)
}

/// The numbers of `ids` in ascending order, each once.
pub open spec fn ascending_of(ids: Seq<u32>) -> Seq<u32> {
    choose|sorted: Seq<u32>| orders(sorted, ids)
}

/// The first change to migrate when `last` is the change that the last commit holds: the one
/// after it, or the first of all where no commit holds one.
pub open spec fn resume_after(last: Option<u32>) -> nat {
    match last {
        Some(id) => (id + 1) as nat,
        None => 1,
    }
}

/// The first `size` numbers of `ids`, or all of them where they are fewer.
pub open spec fn first_of(ids: Seq<u32>, size: nat) -> Seq<u32> {
    if size < ids.len() {
        ids.take(size as int)
    } else {
        ids
    }
}

/// The first change to migrate after `last`.
pub fn resume_point(last: Option<u32>) -> (next: u64)
    ensures
        next == resume_after(last),
{
    match last {
        Some(id) => id as u64 + 1,
        None => 1,
    }
}

/// Puts `id` at its place in the ascending `ids`, unless it is there.
pub fn insert_ascending(ids: &mut Vec<u32>, id: u32)
    requires
        is_ascending(old(ids)@),
    ensures
        is_ascending(final(ids)@),
        forall|n: u32| final(ids)@.contains(n) <==> old(ids)@.contains(n) || n == id,
{
    let mut at: usize = 0;
    while at < ids.len() && ids[at] < id
        invariant
            at <= ids.len(),
            ids@ == old(ids)@,
            forall|k: int| 0 <= k < at ==> ids@[k] < id,
        decreases ids.len() - at,
    {
        at += 1;
    }
    if at < ids.len() && ids[at] == id {
        assert(ids@.contains(id));
        return ;
    }
    ids.insert(at, id);
    proof {
        let before = old(ids)@;
        let after = ids@;
        assert forall|i: int, j: int| 0 <= i < j < after.len() implies after[i] < after[j] by {
            if j < at {
                assert(after[i] == before[i] && after[j] == before[j]);
            } else if j == at {
                assert(after[i] == before[i]);
            } else if i < at {
                assert(after[i] == before[i] && after[j] == before[j - 1]);
                if at < j - 1 {
                    assert(before[at as int] < before[j - 1]);
                }
            } else if i == at {
                assert(after[j] == before[j - 1]);
                if at < j - 1 {
                    assert(before[at as int] < before[j - 1]);
                }
            } else {
                assert(after[i] == before[i - 1] && after[j] == before[j - 1]);
            }
        }
        assert forall|n: u32| after.contains(n) <==> before.contains(n) || n == id by {
            if after.contains(n) {
                let k = choose|k: int| 0 <= k < after.len() && after[k] == n;
                if k < at {
                    assert(before[k] == n);
                } else if k > at {
                    assert(before[k - 1] == n);
                }
            }
            if before.contains(n) {
                let k = choose|k: int| 0 <= k < before.len() && before[k] == n;
                if k < at {
                    assert(after[k] == n);
                } else {
                    assert(after[k + 1] == n);
                }
            }
            if n == id {
                assert(after[at as int] == n);
            }
        }
    }
}

/// Two ascending sequences of the same numbers are one sequence.
pub proof fn lemma_one_order(a: Seq<u32>, b: Seq<u32>)
    requires
        is_ascending(a),
        is_ascending(b),
        forall|n: u32| a.contains(n) <==> b.contains(n),
    ensures
        a == b,
    decreases a.len(),
{
    if a.len() == 0 {
        if b.len() > 0 {
            assert(b.contains(b[0]));
        }
        assert(a =~= b);
    } else {
        assert(a.contains(a.last()));
        assert(b.len() > 0);
        assert(b.contains(b.last()));
        let i = choose|i: int| 0 <= i < b.len() && b[i] == a.last();
        let j = choose|j: int| 0 <= j < a.len() && a[j] == b.last();
        assert(a.last() == b.last()) by {
            if i < b.len() - 1 {
                assert(b[i] < b[b.len() - 1]);
            }
            if j < a.len() - 1 {
                assert(a[j] < a[a.len() - 1]);
            }
        }
        let x = a.drop_last();
        let y = b.drop_last();
        assert forall|n: u32| x.contains(n) <==> y.contains(n) by {
            if x.contains(n) {
                let k = choose|k: int| 0 <= k < x.len() && x[k] == n;
                assert(a[k] == n && a[k] < a[a.len() - 1]);
                assert(a.contains(n));
                let m = choose|m: int| 0 <= m < b.len() && b[m] == n;
                assert(y[m] == n);
            }
            if y.contains(n) {
                let k = choose|k: int| 0 <= k < y.len() && y[k] == n;
                assert(b[k] == n && b[k] < b[b.len() - 1]);
                assert(b.contains(n));
                let m = choose|m: int| 0 <= m < a.len() && a[m] == n;
                assert(x[m] == n);
            }
        }
        assert(is_ascending(x)) by {
            assert forall|i: int, j: int| 0 <= i < j < x.len() implies x[i] < x[j] by {
                assert(x[i] == a[i] && x[j] == a[j]);
            }
        }
        assert(is_ascending(y)) by {
            assert forall|i: int, j: int| 0 <= i < j < y.len() implies y[i] < y[j] by {
                assert(y[i] == b[i] && y[j] == b[j]);
            }
        }
        lemma_one_order(x, y);
        assert(a =~= x.push(a.last()));
        assert(b =~= y.push(b.last()));
    }
}

/// An ascending sequence with one more number put at its place.
proof fn lemma_insert(sorted: Seq<u32>, id: u32) -> (with: Seq<u32>)
    requires
        is_ascending(sorted),
    ensures
        is_ascending(with),
        forall|n: u32| with.contains(n) <==> sorted.contains(n) || n == id,
        with.len() > 0,
        sorted.len() > 0 ==> with.last() == sorted.last() || with.last() == id,
        sorted.len() == 0 ==> with.last() == id,
    decreases sorted.len(),
{
    if sorted.len() == 0 {
        let with = seq![id];
        assert(with[0] == id);
        with
    } else if sorted.last() < id {
        let with = sorted.push(id);
        assert forall|i: int, j: int| 0 <= i < j < with.len() implies with[i] < with[j] by {
            if j == with.len() - 1 {
                if i < sorted.len() - 1 {
                    assert(sorted[i] < sorted[sorted.len() - 1]);
                }
            }
        }
        assert forall|n: u32| with.contains(n) <==> sorted.contains(n) || n == id by {
            if with.contains(n) {
                let k = choose|k: int| 0 <= k < with.len() && with[k] == n;
                if k < sorted.len() {
                    assert(sorted[k] == n);
                }
            }
            if sorted.contains(n) {
                let k = choose|k: int| 0 <= k < sorted.len() && sorted[k] == n;
                assert(with[k] == n);
            }
            if n == id {
                assert(with[with.len() - 1] == n);
            }
        }
        with
    } else if sorted.last() == id {
        assert(sorted.contains(id));
        sorted
    } else {
        let rest = sorted.drop_last();
        let last = sorted.last();
        assert(is_ascending(rest)) by {
            assert forall|i: int, j: int| 0 <= i < j < rest.len() implies rest[i] < rest[j] by {
                assert(rest[i] == sorted[i] && rest[j] == sorted[j]);
            }
        }
        let inner = lemma_insert(rest, id);
        let with = inner.push(last);
        assert(inner.last() < last) by {
            if rest.len() > 0 && inner.last() == rest.last() {
                assert(sorted[sorted.len() - 2] < sorted[sorted.len() - 1]);
            }
        }
        assert forall|i: int, j: int| 0 <= i < j < with.len() implies with[i] < with[j] by {
            if j == with.len() - 1 {
                if i < inner.len() - 1 {
                    assert(inner[i] < inner[inner.len() - 1]);
                }
            }
        }
        assert forall|n: u32| with.contains(n) <==> sorted.contains(n) || n == id by {
            if with.contains(n) {
                let k = choose|k: int| 0 <= k < with.len() && with[k] == n;
                if k < inner.len() {
                    assert(inner[k] == n);
                    assert(inner.contains(n));
                    if rest.contains(n) {
                        let r = choose|r: int| 0 <= r < rest.len() && rest[r] == n;
                        assert(sorted[r] == n);
                    }
                } else {
                    assert(sorted[sorted.len() - 1] == n);
                }
            }
            if sorted.contains(n) {
                let r = choose|r: int| 0 <= r < sorted.len() && sorted[r] == n;
                if r < rest.len() {
                    assert(rest[r] == n);
                    assert(inner.contains(n));
                    let k = choose|k: int| 0 <= k < inner.len() && inner[k] == n;
                    assert(with[k] == n);
                } else {
                    assert(with[with.len() - 1] == n);
                }
            }
            if n == id {
                assert(inner.contains(n));
                let k = choose|k: int| 0 <= k < inner.len() && inner[k] == n;
                assert(with[k] == n);
            }
        }
        with
    }
}

/// Every sequence of numbers has its ascending order.
pub proof fn lemma_ascending_exists(ids: Seq<u32>)
    ensures
        orders(ascending_of(ids), ids),
    decreases ids.len(),
{
    if ids.len() == 0 {
        let none = Seq::<u32>::empty();
        assert(orders(none, ids));
    } else {
        let rest = ids.drop_last();
        lemma_ascending_exists(rest);
        let with = lemma_insert(ascending_of(rest), ids.last());
        assert forall|n: u32| with.contains(n) <==> ids.contains(n) by {
            if rest.contains(n) {
                let r = choose|r: int| 0 <= r < rest.len() && rest[r] == n;
                assert(ids[r] == n);
            }
            if ids.contains(n) {
                let r = choose|r: int| 0 <= r < ids.len() && ids[r] == n;
                if r < rest.len() {
                    assert(rest[r] == n);
                }
            }
            if n == ids.last() {
                assert(ids[ids.len() - 1] == n);
            }
        }
        assert(orders(with, ids));
    }
}

/// The numbers of `ids` in ascending order, each once.
pub fn ascending(ids: &Vec<u32>) -> (sorted: Vec<u32>)
    ensures
        sorted@ == ascending_of(ids@),
        is_ascending(sorted@),
        forall|n: u32| sorted@.contains(n) <==> ids@.contains(n),
{
    let mut sorted: Vec<u32> = Vec::new();
    let mut i: usize = 0;
    while i < ids.len()
        invariant
            i <= ids.len(),
            is_ascending(sorted@),
            forall|n: u32| sorted@.contains(n) <==> ids@.take(i as int).contains(n),
        decreases ids.len() - i,
    {
        let ghost seen = ids@.take(i as int);
        let ghost before = sorted@;
        insert_ascending(&mut sorted, ids[i]);
        proof {
            let next = ids@.take(i + 1);
            assert(next == seen.push(ids@[i as int]));
            assert forall|n: u32| sorted@.contains(n) <==> next.contains(n) by {
                if next.contains(n) {
                    let k = choose|k: int| 0 <= k < next.len() && next[k] == n;
                    if k < i {
                        assert(seen[k] == n);
                    }
                }
                if seen.contains(n) {
                    let k = choose|k: int| 0 <= k < seen.len() && seen[k] == n;
                    assert(next[k] == n);
                }
                if n == ids@[i as int] {
                    assert(next[i as int] == n);
                }
            }
        }
        i += 1;
    }
    proof {
        assert(ids@.take(ids.len() as int) == ids@);
        assert(orders(sorted@, ids@));
        lemma_one_order(sorted@, ascending_of(ids@));
    }
    sorted
}

/// The first `size` numbers of `ids`.
pub fn take_batch(ids: &Vec<u32>, size: usize) -> (batch: Vec<u32>)
    ensures
        batch@ == first_of(ids@, size as nat),
{
    let mut batch: Vec<u32> = Vec::new();
    let mut i: usize = 0;
    while i < ids.len() && i < size
        invariant
            i <= ids.len(),
            i <= size,
            batch@ == ids@.take(i as int),
        decreases ids.len() - i,
    {
        batch.push(ids[i]);
        assert(ids@.take(i + 1) == ids@.take(i as int).push(ids@[i as int]));
        i += 1;
    }
    proof {
        if i == ids.len() {
            assert(ids@.take(i as int) == ids@);
        }
    }
    batch
}

/// The changes of a listing come out in strictly ascending order, and so none of them twice,
/// whatever the order in which they were listed.
pub proof fn ascending_order(ids: Seq<u32>)
    ensures
        is_ascending(ascending_of(ids)),
        forall|i: int, j: int|
            0 <= i < j < ascending_of(ids).len() ==> ascending_of(ids)[i] != ascending_of(ids)[j],
        forall|n: u32| ascending_of(ids).contains(n) <==> ids.contains(n),
{
    lemma_ascending_exists(ids);
}

/// A batch keeps the order of the changes it was cut from: the start of an ascending
/// sequence is ascending.
pub proof fn batch_is_ascending(ids: Seq<u32>, size: nat)
    requires
        is_ascending(ids),
    ensures
        is_ascending(first_of(ids, size)),
        first_of(ids, size).len() <= size,
        first_of(ids, size).is_prefix_of(ids),
{
    let batch = first_of(ids, size);
    assert forall|i: int, j: int| 0 <= i < j < batch.len() implies batch[i] < batch[j] by {
        assert(batch[i] == ids[i] && batch[j] == ids[j]);
    }
    assert(batch =~= ids.subrange(0, batch.len() as int));
}

} // verus!
