//! Lookup bookkeeping: the keyed container of per-relation challenge
//! tuples drawn from the transcript channel, and the multiset ledgers that
//! the memory-consistency and range-check arguments reduce to. A LogUp
//! fraction sum over challenge-compressed tuples is identically zero
//! exactly when the positive and negative tuple multisets agree, so the
//! ledgers here carry the arguments' whole algebraic content.

use vstd::multiset::Multiset;
use vstd::prelude::*;
use vstd::assert_multisets_equal;

use crate::field::Fp;
use crate::memory::MemoryRecord;

verus! {

/// The distinct lookup relations of the machine, as a closed set.
#[derive(Clone, Copy, Debug, PartialEq, Eq, Hash, Structural)]
pub enum RelationKind {
    BitOp,
    LoadStore,
    ProgramCheck,
    RegisterCheck,
    Range8,
    Range16,
    Range32,
    Range128,
    Range256,
}

/// One relation's challenge tuple, drawn from the transcript channel after
/// the main trace is committed.
#[derive(Clone, Copy, Debug, PartialEq, Eq)]
pub struct LookupElements {
    pub alpha: Fp,
    pub z: Fp,
}

/// First entry at or after `k` holding the given relation.
pub open spec fn find_rel_from(
    entries: Seq<(RelationKind, LookupElements)>,
    kind: RelationKind,
    k: int,
) -> Option<int>
    decreases entries.len() - k,
{
    if k < 0 || k >= entries.len() {
        None
    } else if entries[k].0 == kind {
        Some(k)
    } else {
        find_rel_from(entries, kind, k + 1)
    }
}

/// The keyed container of every relation's challenge tuple. Each relation
/// may be registered once; registering it twice is a configuration error
/// and is ruled out.
#[derive(Debug, PartialEq, Eq)]
pub struct AllLookupElements {
    pub entries: Vec<(RelationKind, LookupElements)>,
}

impl AllLookupElements {
    /// Relations occur at most once.
    pub open spec fn wf(self) -> bool {
        forall|i: int, j: int|
            0 <= i < j < self.entries@.len() ==> self.entries@[i].0 != self.entries@[j].0
    }

    /// Whether a relation is registered.
    pub open spec fn spec_contains(self, kind: RelationKind) -> bool {
        find_rel_from(self.entries@, kind, 0) is Some
    }

    /// An empty container.
    pub fn new() -> (r: AllLookupElements)
        ensures
            r.wf(),
            r.entries@.len() == 0,
    {
        AllLookupElements { entries: Vec::new() }
    }

    /// Registers a relation's challenge tuple. Registering the same
    /// relation twice is a programming error and is excluded.
    pub fn insert(&mut self, kind: RelationKind, elements: LookupElements)
        requires
            old(self).wf(),
            !old(self).spec_contains(kind),
        ensures
            final(self).wf(),
            final(self).entries@ == old(self).entries@.push((kind, elements)),
            final(self).spec_contains(kind),
    {
        proof {
            lemma_rel_none_all(self.entries@, kind, 0);
        }
        let ghost pre = self.entries@;
        self.entries.push((kind, elements));
        proof {
            lemma_rel_push_found(pre, kind, elements, 0);
            assert forall|i: int, j: int|
                0 <= i < j < self.entries@.len() implies self.entries@[i].0
                != self.entries@[j].0 by {
                if j == self.entries@.len() - 1 {
                    assert(self.entries@[i].0 == pre[i].0);
                }
            }
        }
    }

    /// Whether no relation has been registered.
    pub fn is_empty(&self) -> (r: bool)
        ensures
            r == (self.entries@.len() == 0),
    {
        self.entries.len() == 0
    }

    /// The challenge tuple of a registered relation.
    pub fn get(&self, kind: RelationKind) -> (r: Option<LookupElements>)
        ensures
            match r {
                Some(e) => exists|i: int|
                    0 <= i < self.entries@.len() && self.entries@[i] == (kind, e),
                None => !self.spec_contains(kind),
            },
    {
        let mut i: usize = 0;
        while i < self.entries.len()
            invariant
                i <= self.entries@.len(),
                find_rel_from(self.entries@, kind, 0) == find_rel_from(
                    self.entries@,
                    kind,
                    i as int,
                ),
            decreases self.entries@.len() - i,
        {
            if self.entries[i].0 == kind {
                return Some(self.entries[i].1);
            }
            i = i + 1;
        }
        None
    }
}

/// A relation never found occurs in no entry.
proof fn lemma_rel_none_all(entries: Seq<(RelationKind, LookupElements)>, kind: RelationKind, k: int)
    requires
        0 <= k,
        find_rel_from(entries, kind, k) is None,
    ensures
        forall|a: int| k <= a < entries.len() ==> entries[a].0 != kind,
    decreases entries.len() - k,
{
    if k < entries.len() {
        lemma_rel_none_all(entries, kind, k + 1);
    }
}

/// After a push of a fresh relation, that relation is found.
proof fn lemma_rel_push_found(
    pre: Seq<(RelationKind, LookupElements)>,
    kind: RelationKind,
    elements: LookupElements,
    k: int,
)
    requires
        0 <= k <= pre.len(),
        find_rel_from(pre, kind, k) is None,
    ensures
        find_rel_from(pre.push((kind, elements)), kind, k) == Some(pre.len() as int),
    decreases pre.len() - k,
{
    if k < pre.len() {
        lemma_rel_push_found(pre, kind, elements, k + 1);
    } else {
        assert(pre.push((kind, elements))[k].0 == kind);
    }
}

/// The tuples a transcript's records consume: for each record, the value
/// and timestamp the location held before the access.
pub open spec fn reads_side(rs: Seq<MemoryRecord>) -> Multiset<(u32, int)>
    decreases rs.len(),
{
    if rs.len() <= 0 {
        Multiset::empty()
    } else {
        reads_side(rs.drop_last()).insert(
            (rs.last().value_before, rs.last().timestamp_prev as int),
        )
    }
}

/// The tuples a transcript's records produce: for each record, the value
/// and timestamp the location holds after the access.
pub open spec fn writes_side(rs: Seq<MemoryRecord>) -> Multiset<(u32, int)>
    decreases rs.len(),
{
    if rs.len() <= 0 {
        Multiset::empty()
    } else {
        writes_side(rs.drop_last()).insert((rs.last().value_after, rs.last().timestamp_cur as int))
    }
}

/// A single location's transcript is well ordered: each record picks up
/// the value and timestamp the previous one left.
pub open spec fn chain_consistent(rs: Seq<MemoryRecord>) -> bool {
    forall|i: int|
        0 <= i < rs.len() - 1 ==> rs[i + 1].value_before == rs[i].value_after && rs[
            i + 1
        ].timestamp_prev == rs[i].timestamp_cur as int
}

/// Memory consistency, at the ledger level: over a well-ordered transcript
/// of one location, the consumed tuples together with the final state are
/// exactly the produced tuples together with the initial state. The LogUp
/// fraction sum of the memory-check chips is the challenge-compressed form
/// of this multiset identity, so it vanishes on such a transcript.
pub proof fn lemma_memory_check_balanced(rs: Seq<MemoryRecord>)
    requires
        rs.len() > 0,
        chain_consistent(rs),
    ensures
        reads_side(rs).insert((rs.last().value_after, rs.last().timestamp_cur as int))
            == writes_side(rs).insert((rs[0].value_before, rs[0].timestamp_prev as int)),
    decreases rs.len(),
{
    if rs.len() == 1 {
        assert(rs.drop_last().len() == 0);
        assert(reads_side(rs.drop_last()) == Multiset::<(u32, int)>::empty());
        assert(writes_side(rs.drop_last()) == Multiset::<(u32, int)>::empty());
        assert(reads_side(rs) == Multiset::<(u32, int)>::empty().insert(
            (rs.last().value_before, rs.last().timestamp_prev as int),
        ));
        assert(writes_side(rs) == Multiset::<(u32, int)>::empty().insert(
            (rs.last().value_after, rs.last().timestamp_cur as int),
        ));
        assert_multisets_equal!(
            reads_side(rs).insert((rs.last().value_after, rs.last().timestamp_cur as int)),
            writes_side(rs).insert((rs[0].value_before, rs[0].timestamp_prev as int))
        );
    } else {
        let rs0 = rs.drop_last();
        let last = rs.last();
        let prev = rs0.last();
        assert(chain_consistent(rs0));
        assert(rs0[0] == rs[0]);
        lemma_memory_check_balanced(rs0);
        assert(rs[rs.len() - 2 + 1].value_before == rs[rs.len() - 2].value_after && rs[rs.len() - 2
            + 1].timestamp_prev == rs[rs.len() - 2].timestamp_cur as int);
        assert(last.value_before == prev.value_after && last.timestamp_prev
            == prev.timestamp_cur as int);
        assert(reads_side(rs) == reads_side(rs0).insert(
            (prev.value_after, prev.timestamp_cur as int),
        ));
        assert(writes_side(rs) == writes_side(rs0).insert(
            (last.value_after, last.timestamp_cur as int),
        ));
        assert_multisets_equal!(
            reads_side(rs).insert((last.value_after, last.timestamp_cur as int)),
            writes_side(rs).insert((rs[0].value_before, rs[0].timestamp_prev as int))
        );
    }
}

/// Decides whether a single location's transcript is well ordered: each
/// record picks up the value and timestamp the previous one left, so the
/// memory-check ledger over it balances.
pub fn chain_check(rs: &Vec<MemoryRecord>) -> (r: bool)
    ensures
        r == chain_consistent(rs@),
{
    if rs.len() == 0 {
        return true;
    }
    let mut i: usize = 0;
    while i < rs.len() - 1
        invariant
            rs@.len() >= 1,
            i <= rs@.len() - 1,
            forall|j: int|
                0 <= j < i ==> rs@[j + 1].value_before == rs@[j].value_after && rs@[
                    j + 1
                ].timestamp_prev == rs@[j].timestamp_cur as int,
        decreases rs@.len() - i,
    {
        if rs[i + 1].value_before != rs[i].value_after || rs[i + 1].timestamp_prev
            != rs[i].timestamp_cur {
            return false;
        }
        i = i + 1;
    }
    true
}

/// Whether every claimed value lies below its range bound: the condition
/// under which a range chip's LogUp fractions can cancel against its
/// table.
pub open spec fn all_in_range(claims: Seq<u32>, bound: u32) -> bool {
    forall|i: int| 0 <= i < claims.len() ==> claims[i] < bound
}

/// Decides whether a range chip's ledger balances: its fractions sum to
/// zero over the lookup challenges exactly when every registered value
/// lies in the table `[0, bound)`.
pub fn range_check_balanced(claims: &Vec<u32>, bound: u32) -> (r: bool)
    ensures
        r == all_in_range(claims@, bound),
{
    let mut i: usize = 0;
    while i < claims.len()
        invariant
            i <= claims@.len(),
            forall|j: int| 0 <= j < i ==> claims@[j] < bound,
        decreases claims@.len() - i,
    {
        if claims[i] >= bound {
            return false;
        }
        i = i + 1;
    }
    true
}

/// Range soundness: a witness holding any value at or above its declared
/// range leaves the range chip's ledger unbalanced, so some range-check
/// LogUp fraction sum is nonzero.
pub proof fn lemma_range_soundness(claims: Seq<u32>, bound: u32, i: int)
    requires
        0 <= i < claims.len(),
        claims[i] >= bound,
    ensures
        !all_in_range(claims, bound),
{
}

} // verus!
