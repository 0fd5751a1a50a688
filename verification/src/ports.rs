//! The port-slot table: a fixed number of slots, each free (`0`) or occupied
//! (non-zero). Slot `i` names the sub-interface `tap<i>` of one layer-2 peer.

use vstd::prelude::*;
use vstd::multiset::Multiset;

verus! {

/// Slot `i` exists in `table` and is free.
pub open spec fn is_free(table: Seq<u8>, i: int) -> bool {
    0 <= i < table.len() && table[i] == 0
}

/// Slot `i` is free and every slot below it is occupied.
pub open spec fn is_lowest_free(table: Seq<u8>, i: int) -> bool {
    is_free(table, i) && forall|j: int| 0 <= j < i ==> table[j] != 0
}

/// No slot of `table` is free.
pub open spec fn is_full(table: Seq<u8>) -> bool {
    forall|j: int| 0 <= j < table.len() ==> table[j] != 0
}

/// A table of `n` slots, all free.
pub open spec fn all_free(n: nat) -> Seq<u8> {
    Seq::new(n, |i: int| 0u8)
}

/// The number of occupied slots.
pub open spec fn occupied(table: Seq<u8>) -> nat
    decreases table.len(),
{
    if table.len() == 0 {
        0
    } else {
        occupied(table.drop_last()) + if table.last() != 0 {
            1nat
        } else {
            0nat
        }
    }
}

/// The slot that an allocation on `table` hands out: the lowest free one,
/// or none when the table is full.
pub open spec fn grant(table: Seq<u8>) -> Option<usize> {
    if is_full(table) {
        None
    } else {
        Some(choose|i: usize| is_lowest_free(table, i as int))
    }
}

/// The table after an allocation.
pub open spec fn after_get(table: Seq<u8>) -> Seq<u8> {
    match grant(table) {
        Some(i) => table.update(i as int, 1u8),
        None => table,
    }
}

/// The table after slot `index` is released.
pub open spec fn after_put(table: Seq<u8>, index: usize) -> Seq<u8> {
    if index < table.len() {
        table.update(index as int, 0u8)
    } else {
        table
    }
}

/// At most one slot is the lowest free one.
pub proof fn lemma_lowest_free_unique(table: Seq<u8>, i: int, j: int)
    requires
        is_lowest_free(table, i),
        is_lowest_free(table, j),
    ensures
        i == j,
{
    if i < j {
        assert(table[i] != 0);
    } else if j < i {
        assert(table[j] != 0);
    }
}

/// A table that is not full has a lowest free slot.
pub proof fn lemma_lowest_free_exists(table: Seq<u8>) -> (i: int)
    requires
        !is_full(table),
    ensures
        is_lowest_free(table, i),
    decreases table.len(),
{
    let k = choose|k: int| 0 <= k < table.len() && table[k] == 0;
    let head = table.take(k);
    if is_full(head) {
        assert forall|j: int| 0 <= j < k implies table[j] != 0 by {
            assert(head[j] == table[j]);
        }
        k
    } else {
        let i = lemma_lowest_free_exists(head);
        assert(table[i] == head[i]);
        assert forall|j: int| 0 <= j < i implies table[j] != 0 by {
            assert(head[j] == table[j]);
        }
        i
    }
}

/// What `grant` returns is the lowest free slot, and it returns none exactly
/// on a full table.
pub proof fn lemma_grant(table: Seq<u8>)
    requires
        table.len() <= usize::MAX,
    ensures
        match grant(table) {
            Some(i) => is_lowest_free(table, i as int),
            None => is_full(table),
        },
{
    if !is_full(table) {
        let i = lemma_lowest_free_exists(table);
        assert(is_lowest_free(table, (i as usize) as int));
    }
}

/// Writing `v` into slot `i` changes the number of occupied slots by what
/// slot `i` was and what it becomes.
pub proof fn lemma_occupied_update(table: Seq<u8>, i: int, v: u8)
    requires
        0 <= i < table.len(),
    ensures
        occupied(table.update(i, v)) + (if table[i] != 0 { 1nat } else { 0nat })
            == occupied(table) + (if v != 0 { 1nat } else { 0nat }),
    decreases table.len(),
{
    let after = table.update(i, v);
    if i == table.len() - 1 {
        assert(after.drop_last() =~= table.drop_last());
    } else {
        assert(after.drop_last() =~= table.drop_last().update(i, v));
        lemma_occupied_update(table.drop_last(), i, v);
    }
}

/// No more slots are occupied than there are, and all of them are exactly
/// when the table is full.
pub proof fn lemma_occupied_bound(table: Seq<u8>)
    ensures
        occupied(table) <= table.len(),
        occupied(table) == table.len() <==> is_full(table),
    decreases table.len(),
{
    if table.len() > 0 {
        let init = table.drop_last();
        lemma_occupied_bound(init);
        if is_full(table) {
            assert forall|j: int| 0 <= j < init.len() implies init[j] != 0 by {
                assert(init[j] == table[j]);
            }
            assert(table.last() != 0);
        }
        if occupied(table) == table.len() {
            assert forall|j: int| 0 <= j < table.len() implies table[j] != 0 by {
                if j < init.len() {
                    assert(init[j] == table[j]);
                }
            }
        }
    }
}

/// A table with every slot free has no occupied slot.
pub proof fn lemma_all_free(n: nat)
    ensures
        occupied(all_free(n)) == 0,
    decreases n,
{
    if n > 0 {
        assert(all_free(n).drop_last() =~= all_free((n - 1) as nat));
        lemma_all_free((n - 1) as nat);
    }
}

/// Allocates the lowest free slot, marks it occupied and returns its index;
/// returns `None`, leaving the table as it was, when every slot is occupied.
pub fn get_port(arr: &mut [u8]) -> (r: Option<usize>)
    ensures
        r == grant(old(arr)@),
        final(arr)@ == after_get(old(arr)@),
        match r {
            Some(i) => is_lowest_free(old(arr)@, i as int),
            None => is_full(old(arr)@),
        },
{
    let n: usize = arr.len();
    let mut i: usize = 0;
    while i < n
        invariant
            n == arr@.len(),
            arr@ == old(arr)@,
            i <= n,
            forall|j: int| 0 <= j < i ==> arr@[j] != 0,
        decreases n - i,
    {
        if arr[i] == 0 {
            proof {
                lemma_grant(arr@);
                lemma_lowest_free_unique(arr@, i as int, grant(arr@).unwrap() as int);
            }
            arr[i] = 1;
            return Some(i);
        }
        i += 1;
    }
    None
}

/// Releases slot `index`. An index outside the table is ignored, and so, in
/// effect, is one whose slot is already free.
pub fn put_port(arr: &mut [u8], index: usize)
    ensures
        final(arr)@ == after_put(old(arr)@, index),
        !(index < old(arr)@.len() && old(arr)@[index as int] != 0) ==> final(arr)@ == old(arr)@,
{
    if index < arr.len() {
        arr[index] = 0;
    }
    proof {
        if index < old(arr)@.len() && old(arr)@[index as int] == 0 {
            assert(old(arr)@.update(index as int, 0u8) =~= old(arr)@);
        }
    }
}

/// One operation on a port-slot table.
pub enum PortOp {
    /// Allocate a slot.
    Get,
    /// Release the slot of this index.
    Put(usize),
}

/// A port-slot table together with the slots that have been handed out and
/// not released since, each as often as it is held.
pub struct Ledger {
    pub table: Seq<u8>,
    pub held: Multiset<usize>,
}

impl Ledger {
    /// A table of `n` free slots, and nothing handed out.
    pub open spec fn start(n: nat) -> Ledger {
        Ledger { table: all_free(n), held: Multiset::empty() }
    }

    /// The ledger after one operation.
    pub open spec fn step(self, op: PortOp) -> Ledger {
        match op {
            PortOp::Get => match grant(self.table) {
                Some(i) => Ledger { table: after_get(self.table), held: self.held.insert(i) },
                None => self,
            },
            PortOp::Put(i) => Ledger { table: after_put(self.table, i), held: self.held.remove(i) },
        }
    }

    /// The ledger after the operations `ops`, in order, on `n` free slots.
    pub open spec fn run(n: nat, ops: Seq<PortOp>) -> Ledger
        decreases ops.len(),
    {
        if ops.len() == 0 {
            Ledger::start(n)
        } else {
            Ledger::run(n, ops.drop_last()).step(ops.last())
        }
    }

    /// The slots handed out are the occupied ones, each held once.
    pub open spec fn exclusive(self) -> bool {
        forall|i: usize|
            #![trigger self.held.count(i)]
            self.held.count(i) == if i < self.table.len() && self.table[i as int] != 0 {
                1nat
            } else {
                0nat
            }
    }
}

/// Port allocation is exclusive: after any sequence of allocations and
/// releases on a table of `n` slots, no slot is held more than once, the
/// slots held are exactly the occupied ones, and the next allocation hands
/// out an index below `n` that nobody holds.
pub proof fn lemma_allocation_exclusive(n: nat, ops: Seq<PortOp>)
    requires
        n <= usize::MAX,
    ensures
        Ledger::run(n, ops).table.len() == n,
        Ledger::run(n, ops).exclusive(),
        forall|i: usize| Ledger::run(n, ops).held.count(i) <= 1,
        grant(Ledger::run(n, ops).table) matches Some(i) ==> i < n && Ledger::run(n, ops).held.count(
            i,
        ) == 0,
    decreases ops.len(),
{
    let after = Ledger::run(n, ops);
    if ops.len() > 0 {
        let before = Ledger::run(n, ops.drop_last());
        lemma_allocation_exclusive(n, ops.drop_last());
        lemma_grant(before.table);
        match ops.last() {
            PortOp::Get => {
                assert forall|i: usize| #![trigger after.held.count(i)]
                    after.held.count(i) == if i < after.table.len() && after.table[i as int] != 0 {
                        1nat
                    } else {
                        0nat
                    } by {
                    assert(before.held.count(i) <= 1);
                }
            },
            PortOp::Put(p) => {
                assert forall|i: usize| #![trigger after.held.count(i)]
                    after.held.count(i) == if i < after.table.len() && after.table[i as int] != 0 {
                        1nat
                    } else {
                        0nat
                    } by {
                    assert(before.held.count(i) <= 1);
                    assert(before.held.count(p) <= 1);
                }
            },
        }
    }
    lemma_grant(after.table);
    assert forall|i: usize| after.held.count(i) <= 1 by {
        assert(after.held.count(i) == if i < after.table.len() && after.table[i as int] != 0 {
            1nat
        } else {
            0nat
        });
    }
}

/// Release is idempotent: releasing a slot twice is releasing it once,
/// releasing a free slot or an index outside the table changes nothing, and
/// a release takes at most one from the number of occupied slots.
pub proof fn lemma_release_idempotent(table: Seq<u8>, index: usize)
    ensures
        after_put(after_put(table, index), index) == after_put(table, index),
        !(index < table.len() && table[index as int] != 0) ==> after_put(table, index) == table,
        index < table.len() && table[index as int] != 0 ==> occupied(after_put(table, index)) + 1
            == occupied(table),
{
    if index < table.len() {
        assert(table.update(index as int, 0u8).update(index as int, 0u8) =~= table.update(
            index as int,
            0u8,
        ));
        if table[index as int] == 0 {
            assert(table.update(index as int, 0u8) =~= table);
        } else {
            lemma_occupied_update(table, index as int, 0u8);
        }
    }
}

} // verus!
