//! The connection registry: the set of currently-open peer addresses.
//!
//! The registry is the one piece of state shared by all connections; every
//! mutation is a single insert or a single remove, and the count is a
//! consistent snapshot.  Entries are registry keys (packed peer addresses,
//! see [`crate::addr`]).  A trace model of opens and closes lets the crate
//! state, and prove, how the registry evolves under any interleaving of
//! connection lifecycles.

use vstd::prelude::*;

use std::collections::HashSet;

verus! {

broadcast use vstd::std_specs::hash::group_hash_axioms;

/// The set of currently-open peer addresses, by registry key.
pub struct ConnectionRegistry {
    addrs: HashSet<u64>,
}

impl View for ConnectionRegistry {
    type V = Set<u64>;

    closed spec fn view(&self) -> Set<u64> {
        self.addrs@
    }
}

impl ConnectionRegistry {
    /// The registry is well formed: its set of keys is finite, as a set held
    /// in memory must be.  Construction establishes it and every mutation
    /// preserves it.
    pub closed spec fn wf(&self) -> bool {
        self.addrs@.finite()
    }

    /// An empty registry: no connection is open.
    pub fn new() -> (r: ConnectionRegistry)
        ensures
            r@ == Set::<u64>::empty(),
            r.wf(),
    {
        ConnectionRegistry { addrs: HashSet::new() }
    }

    /// Tracks a peer.  Inserting an address that is already present leaves
    /// the registry unchanged, so a double add is harmless.
    pub fn add(&mut self, key: u64)
        ensures
            final(self)@ == old(self)@.insert(key),
            old(self).wf() ==> final(self).wf(),
    {
        self.addrs.insert(key);
        proof {
            if old(self).wf() {
                vstd::set::axiom_set_insert_finite(old(self)@, key);
            }
        }
    }

    /// Stops tracking a peer.  Removing an absent address is a no-op, which
    /// defends against double-termination edge cases.
    pub fn remove(&mut self, key: u64)
        ensures
            final(self)@ == old(self)@.remove(key),
            old(self).wf() ==> final(self).wf(),
    {
        self.addrs.remove(&key);
        proof {
            if old(self).wf() {
                vstd::set::axiom_set_remove_finite(old(self)@, key);
            }
        }
    }

    /// Whether the peer with this key is currently tracked.
    pub fn contains(&self, key: u64) -> (b: bool)
        ensures
            b == self@.contains(key),
    {
        self.addrs.contains(&key)
    }

    /// A consistent snapshot of how many peers are open.
    pub fn count(&self) -> (n: usize)
        ensures
            n == self@.len(),
    {
        self.addrs.len()
    }

    /// A well-formed registry's set is finite, so its count is meaningful.
    pub proof fn lemma_finite(&self)
        requires
            self.wf(),
        ensures
            self@.finite(),
    {
    }

    /// Applies a recorded interleaving of opens and closes, one mutation at
    /// a time, as the concurrent connection lifecycles would.
    pub fn apply_trace(&mut self, ops: &Vec<RegOp>)
        ensures
            final(self)@ == apply_ops(old(self)@, ops@),
            old(self).wf() ==> final(self).wf(),
    {
        let mut i: usize = 0;
        proof {
            assert(ops@.skip(0) =~= ops@);
        }
        while i < ops.len()
            invariant
                i <= ops@.len(),
                old(self).wf() ==> self.wf(),
                apply_ops(old(self)@, ops@) == apply_ops(self@, ops@.skip(i as int)),
            decreases ops@.len() - i,
        {
            let ghost pre = self@;
            match ops[i] {
                RegOp::Open(a) => {
                    self.add(a);
                },
                RegOp::Close(a) => {
                    self.remove(a);
                },
            }
            proof {
                assert(ops@.skip(i as int).skip(1) =~= ops@.skip(i as int + 1));
                assert(apply_ops(pre, ops@.skip(i as int)) == apply_ops(
                    self@,
                    ops@.skip(i as int + 1),
                ));
            }
            i = i + 1;
        }
        proof {
            assert(ops@.skip(ops@.len() as int) =~= Seq::<RegOp>::empty());
        }
    }
}

/// One registry mutation, as the dispatcher and the handlers issue them: a
/// connection's accept or its termination.
#[derive(PartialEq, Eq, Structural, Clone, Copy, Debug)]
pub enum RegOp {
    /// A connection from this key was accepted.
    Open(u64),
    /// The connection from this key terminated, cleanly or not.
    Close(u64),
}

/// The registry's set after one mutation.
pub open spec fn apply_op(s: Set<u64>, op: RegOp) -> Set<u64> {
    match op {
        RegOp::Open(a) => s.insert(a),
        RegOp::Close(a) => s.remove(a),
    }
}

/// The registry's set after a recorded interleaving of mutations.
pub open spec fn apply_ops(s: Set<u64>, ops: Seq<RegOp>) -> Set<u64>
    decreases ops.len(),
{
    if ops.len() == 0 {
        s
    } else {
        apply_ops(apply_op(s, ops[0]), ops.skip(1))
    }
}

/// Whether a key is tracked after a trace, given whether it was tracked
/// before: the last mention of the key in the trace decides, and a key the
/// trace never mentions keeps its prior status.
pub open spec fn tracked_after(ops: Seq<RegOp>, key: u64, before: bool) -> bool
    decreases ops.len(),
{
    if ops.len() == 0 {
        before
    } else {
        tracked_after(
            ops.skip(1),
            key,
            match ops[0] {
                RegOp::Open(a) => if a == key { true } else { before },
                RegOp::Close(a) => if a == key { false } else { before },
            },
        )
    }
}

/// No stale and no missing entries: after any interleaving of opens and
/// closes, a key is in the registry exactly when its last mention in the
/// trace opened it, or it was present before and the trace never mentions it.
pub proof fn lemma_trace_membership(s: Set<u64>, ops: Seq<RegOp>, key: u64)
    ensures
        apply_ops(s, ops).contains(key) == tracked_after(ops, key, s.contains(key)),
    decreases ops.len(),
{
    if ops.len() > 0 {
        lemma_trace_membership(apply_op(s, ops[0]), ops.skip(1), key);
    }
}

/// At a quiescent point the count moves exactly with the lifecycle events:
/// opening an untracked peer raises it by one, closing a tracked peer lowers
/// it by one, and the other two cases leave the registry's set unchanged.
pub proof fn lemma_count_tracks_lifecycle(s: Set<u64>, key: u64)
    requires
        s.finite(),
    ensures
        !s.contains(key) ==> s.insert(key).len() == s.len() + 1,
        s.contains(key) ==> s.insert(key) == s,
        s.contains(key) ==> s.remove(key).len() == s.len() - 1,
        !s.contains(key) ==> s.remove(key) == s,
{
    vstd::set::axiom_set_insert_len(s, key);
    vstd::set::axiom_set_remove_len(s, key);
    if s.contains(key) {
        assert(s.insert(key) =~= s);
    } else {
        assert(s.remove(key) =~= s);
    }
}

/// A balanced interleaving converges: if the last mention of every key that
/// the trace opens is a close, a registry that starts empty ends empty —
/// however the opens and closes of different connections interleave.
pub proof fn lemma_interleaving_converges(ops: Seq<RegOp>)
    requires
        forall|key: u64| !tracked_after(ops, key, false),
    ensures
        apply_ops(Set::<u64>::empty(), ops) == Set::<u64>::empty(),
{
    let end = apply_ops(Set::<u64>::empty(), ops);
    assert forall|key: u64| !end.contains(key) by {
        lemma_trace_membership(Set::<u64>::empty(), ops, key);
    }
    assert(end =~= Set::<u64>::empty());
}

} // verus!
