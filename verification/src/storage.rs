//! Positions on the ledger.

use vstd::prelude::*;

verus! {

/// Height of a block.
#[derive(Clone, Copy, Debug, PartialEq, Eq, PartialOrd, Ord, Structural, Hash, Default)]
pub struct BlockHeight(pub u64);

/// Index of a transaction inside its block.
#[derive(Clone, Copy, Debug, PartialEq, Eq, PartialOrd, Ord, Structural, Hash, Default)]
pub struct TxIndex(pub u32);

/// Epoch in which a block was decided.
#[derive(Clone, Copy, Debug, PartialEq, Eq, PartialOrd, Ord, Structural, Hash, Default)]
pub struct Epoch(pub u64);

/// The place of one transaction on the ledger. Positions are totally ordered,
/// first by height and then by index, and serve as the cursor of every scan.
#[derive(Clone, Copy, Debug, PartialEq, Eq, PartialOrd, Ord, Structural, Hash, Default)]
pub struct IndexedTx {
    pub height: BlockHeight,
    pub index: TxIndex,
}

impl IndexedTx {
    /// `self` comes strictly before `other` on the ledger.
    pub open spec fn spec_lt(self, other: IndexedTx) -> bool {
        self.height.0 < other.height.0 || (self.height.0 == other.height.0 && self.index.0
            < other.index.0)
    }

    /// `self` comes before `other` on the ledger, or is the same position.
    pub open spec fn spec_le(self, other: IndexedTx) -> bool {
        self.spec_lt(other) || self == other
    }

    pub fn new(height: u64, index: u32) -> (r: IndexedTx)
        ensures
            r.height.0 == height,
            r.index.0 == index,
    {
        IndexedTx { height: BlockHeight(height), index: TxIndex(index) }
    }

    /// Strict comparison of two positions.
    #[verifier::when_used_as_spec(spec_lt)]
    pub fn lt(self, other: IndexedTx) -> (r: bool)
        ensures
            r == self.spec_lt(other),
    {
        self.height.0 < other.height.0 || (self.height.0 == other.height.0 && self.index.0
            < other.index.0)
    }

    /// Comparison of two positions.
    #[verifier::when_used_as_spec(spec_le)]
    pub fn le(self, other: IndexedTx) -> (r: bool)
        ensures
            r == self.spec_le(other),
    {
        !other.lt(self)
    }
}

/// Order of two checkpoints, where an absent checkpoint ("never scanned")
/// comes before every position.
pub open spec fn checkpoint_le(a: Option<IndexedTx>, b: Option<IndexedTx>) -> bool {
    match (a, b) {
        (None, _) => true,
        (Some(_), None) => false,
        (Some(x), Some(y)) => x.spec_le(y),
    }
}

/// Strict order of two checkpoints.
pub open spec fn checkpoint_lt(a: Option<IndexedTx>, b: Option<IndexedTx>) -> bool {
    checkpoint_le(a, b) && a != b
}

/// Whether a checkpoint lies strictly before the position `tx`.
pub fn checkpoint_before(checkpoint: Option<IndexedTx>, tx: IndexedTx) -> (r: bool)
    ensures
        r == checkpoint_lt(checkpoint, Some(tx)),
{
    match checkpoint {
        None => true,
        Some(at) => at.lt(tx),
    }
}

/// The order of positions is total: it is reflexive, antisymmetric and
/// transitive, and any two positions compare.
pub proof fn lemma_indexed_tx_total_order(a: IndexedTx, b: IndexedTx, c: IndexedTx)
    ensures
        a.spec_le(a),
        a.spec_le(b) && b.spec_le(a) ==> a == b,
        a.spec_le(b) && b.spec_le(c) ==> a.spec_le(c),
        a.spec_le(b) || b.spec_le(a),
        a.spec_lt(b) <==> !b.spec_le(a),
{
}

} // verus!
