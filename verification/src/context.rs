//! The shielded context: what a session knows of the commitment tree, of the
//! notes of its viewing keys and of how far each key has been scanned.
//!
//! The mathematics of notes lives outside this crate. What a viewing key
//! decrypts of a payload is handed in as plain values, and a witness is kept
//! as the position of its note and the number of commitments it has taken in
//! since: together with the leaves of the tree they fix the path of the note.

use vstd::prelude::*;
use crate::error::Error;
use crate::storage::{checkpoint_before, checkpoint_le, checkpoint_lt, IndexedTx};
use crate::tx::{Node, Nullifier, Transaction, ViewingKey};

verus! {

/// The number of leaves that a commitment tree of full depth has room for.
pub const TREE_CAPACITY: u64 = 0x1_0000_0000;

/// The witness of one note: the position of the note among all commitments,
/// and the number of later commitments that the witness has taken in.
#[derive(Clone, Copy, Debug, PartialEq, Eq)]
pub struct Witness {
    pub position: usize,
    pub appended: usize,
}

/// The plain text of a note.
#[derive(Clone, Copy, Debug, PartialEq, Eq)]
pub struct Note {
    pub asset_type: [u8; 32],
    pub value: u64,
    pub rseed: [u8; 32],
}

/// What a viewing key made of one output that it could decrypt: the note, the
/// diversifier of the address it was sent to, and the nullifier that will
/// mark the note as spent.
#[derive(Clone, Copy, Debug, PartialEq, Eq)]
pub struct DecryptedNote {
    pub note: Note,
    pub diversifier: [u8; 11],
    pub nullifier: Nullifier,
}

/// A note of one of the viewing keys of the session.
#[derive(Clone, Copy, Debug, PartialEq, Eq)]
pub struct OwnedNote {
    pub position: usize,
    pub vk: ViewingKey,
    pub decrypted: DecryptedNote,
}

/// How far one viewing key has been scanned: up to and with the position
/// `at`, or not at all.
#[derive(Clone, Copy, Debug, PartialEq, Eq)]
pub struct Checkpoint {
    pub vk: ViewingKey,
    pub at: Option<IndexedTx>,
}

/// Where the notes of one transaction start among all commitments.
#[derive(Clone, Copy, Debug, PartialEq, Eq)]
pub struct NotePlace {
    pub indexed_tx: IndexedTx,
    pub position: usize,
}

/// What one viewing key decrypted of the outputs of a payload, output by
/// output.
#[derive(Clone, Debug, PartialEq, Eq)]
pub struct TrialDecryption {
    pub vk: ViewingKey,
    pub notes: Vec<Option<DecryptedNote>>,
}

/// The state of a shielded context.
pub struct ContextView {
    /// The number of leaves that the tree has room for.
    pub capacity: u64,
    /// The commitments seen so far, in the order of the ledger.
    pub tree: Seq<Node>,
    /// The witness of each commitment, by position.
    pub witness_map: Seq<Witness>,
    /// The checkpoint of each viewing key.
    pub vk_heights: Seq<Checkpoint>,
    /// Where the notes of each witnessed transaction start.
    pub tx_note_map: Seq<NotePlace>,
    /// The notes that the viewing keys own. Their nullifiers are the set by
    /// which spent notes are told.
    pub notes: Seq<OwnedNote>,
    /// The positions of the notes that were seen spent.
    pub spents: Seq<usize>,
}

/// The checkpoints hold each viewing key once.
pub open spec fn distinct_keys(vk_heights: Seq<Checkpoint>) -> bool {
    forall|i: int, j: int|
        0 <= i < j < vk_heights.len() ==> (#[trigger] vk_heights[i]).vk != (
        #[trigger] vk_heights[j]).vk
}

/// Every commitment has its witness, each witness has taken in every later
/// commitment, and no transaction starts beyond the tree.
pub open spec fn wf_view(v: ContextView) -> bool {
    &&& v.capacity <= TREE_CAPACITY
    &&& v.tree.len() <= v.capacity
    &&& v.witness_map.len() == v.tree.len()
    &&& forall|i: int|
        0 <= i < v.witness_map.len() ==> (#[trigger] v.witness_map[i]).position == i
            && v.witness_map[i].appended == v.tree.len() - 1 - i
    &&& forall|i: int|
        0 <= i < v.tx_note_map.len() ==> (#[trigger] v.tx_note_map[i]).position <= v.tree.len()
    &&& distinct_keys(v.vk_heights)
}

// ---------------------------------------------------------------------------
// The witness map
// ---------------------------------------------------------------------------
/// The highest position among the witnessed transactions.
pub open spec fn spec_last_witnessed(places: Seq<NotePlace>) -> Option<IndexedTx>
    decreases places.len(),
{
    if places.len() == 0 {
        None
    } else {
        match spec_last_witnessed(places.drop_last()) {
            None => Some(places.last().indexed_tx),
            Some(highest) => if highest.spec_lt(places.last().indexed_tx) {
                Some(places.last().indexed_tx)
            } else {
                Some(highest)
            },
        }
    }
}

/// Where the notes of `indexed_tx` start: as the latest record of it says.
pub open spec fn spec_note_position(places: Seq<NotePlace>, indexed_tx: IndexedTx) -> Option<usize>
    decreases places.len(),
{
    if places.len() == 0 {
        None
    } else if places.last().indexed_tx == indexed_tx {
        Some(places.last().position)
    } else {
        spec_note_position(places.drop_last(), indexed_tx)
    }
}

/// The witnesses after `added` more commitments: each witness has taken them
/// all in, and each of them has a witness of its own, which has taken in
/// those that came after it.
pub open spec fn spec_update_witnesses(witnesses: Seq<Witness>, added: nat) -> Seq<Witness> {
    Seq::new(
        witnesses.len() + added,
        |i: int|
            if i < witnesses.len() {
                Witness {
                    position: witnesses[i].position,
                    appended: (witnesses[i].appended + added) as usize,
                }
            } else {
                Witness { position: i as usize, appended: (witnesses.len() + added - 1 - i) as usize }
            },
    )
}

/// The context after the commitments of a payload were added to the tree for
/// the transaction at `indexed_tx`.
pub open spec fn spec_witnessed(v: ContextView, indexed_tx: IndexedTx, commitments: Seq<Node>)
    -> ContextView {
    ContextView {
        tree: v.tree + commitments,
        witness_map: spec_update_witnesses(v.witness_map, commitments.len()),
        tx_note_map: v.tx_note_map.push(
            NotePlace { indexed_tx, position: v.tree.len() as usize },
        ),
        ..v
    }
}

/// Whether the tree has room for `added` more commitments.
pub open spec fn has_room(v: ContextView, added: nat) -> bool {
    v.tree.len() + added <= v.capacity
}

/// What adding the commitments of a payload does: with room in the tree the
/// context is that of [`spec_witnessed`]; without, nothing changes and the
/// update fails.
pub open spec fn spec_update_witness_map(
    v: ContextView,
    indexed_tx: IndexedTx,
    commitments: Seq<Node>,
) -> (ContextView, Result<(), Error>) {
    if has_room(v, commitments.len()) {
        (spec_witnessed(v, indexed_tx, commitments), Ok(()))
    } else {
        (v, Err(Error::TreeFull))
    }
}

// ---------------------------------------------------------------------------
// The notes of one key
// ---------------------------------------------------------------------------
/// The notes that a key owns among the outputs of a payload whose notes start
/// at `base`: one for each output that the key decrypted, at the position of
/// that output.
pub open spec fn spec_owned_notes(base: nat, vk: ViewingKey, decrypted: Seq<Option<DecryptedNote>>)
    -> Seq<OwnedNote>
    decreases decrypted.len(),
{
    if decrypted.len() == 0 {
        Seq::empty()
    } else {
        let earlier = spec_owned_notes(base, vk, decrypted.drop_last());
        match decrypted.last() {
            Some(d) => earlier.push(
                OwnedNote { position: (base + decrypted.len() - 1) as usize, vk, decrypted: d },
            ),
            None => earlier,
        }
    }
}

/// The position of the note that `nullifier` spends: that of the latest note
/// with this nullifier.
pub open spec fn spec_spent_position(notes: Seq<OwnedNote>, nullifier: Nullifier) -> Option<usize>
    decreases notes.len(),
{
    if notes.len() == 0 {
        None
    } else if notes.last().decrypted.nullifier == nullifier {
        Some(notes.last().position)
    } else {
        spec_spent_position(notes.drop_last(), nullifier)
    }
}

/// The positions of the notes that the spends of a payload render unusable,
/// in the order of the spends.
pub open spec fn spec_spent(notes: Seq<OwnedNote>, nullifiers: Seq<Nullifier>) -> Seq<usize>
    decreases nullifiers.len(),
{
    if nullifiers.len() == 0 {
        Seq::empty()
    } else {
        let earlier = spec_spent(notes, nullifiers.drop_last());
        match spec_spent_position(notes, nullifiers.last()) {
            Some(position) => earlier.push(position),
            None => earlier,
        }
    }
}

/// The error that stops the scan of a payload for one key, if any: the
/// transaction has no place in the tree that holds all its outputs, or the
/// decryptions are not one for each output.
pub open spec fn spec_scan_error(v: ContextView, indexed_tx: IndexedTx, stx: Transaction, decrypted: Seq<
    Option<DecryptedNote>,
>) -> Option<Error> {
    match spec_note_position(v.tx_note_map, indexed_tx) {
        None => Some(Error::UnknownNotePosition),
        Some(base) => if base + stx.commitments@.len() > v.tree.len() {
            Some(Error::UnknownNotePosition)
        } else if decrypted.len() != stx.commitments@.len() {
            Some(Error::DecryptionMismatch)
        } else {
            None
        },
    }
}

/// The context after one key scanned a payload without error: the notes that
/// the key decrypted are its own, and the notes that the payload spends are
/// marked.
pub open spec fn spec_scanned(
    v: ContextView,
    indexed_tx: IndexedTx,
    stx: Transaction,
    vk: ViewingKey,
    decrypted: Seq<Option<DecryptedNote>>,
) -> ContextView {
    let base = spec_note_position(v.tx_note_map, indexed_tx).unwrap();
    let notes = v.notes + spec_owned_notes(base as nat, vk, decrypted);
    ContextView { notes, spents: v.spents + spec_spent(notes, stx.nullifiers@), ..v }
}

/// What the scan of a payload for one key does: on an error nothing changes.
pub open spec fn spec_scan_tx(
    v: ContextView,
    indexed_tx: IndexedTx,
    stx: Transaction,
    vk: ViewingKey,
    decrypted: Seq<Option<DecryptedNote>>,
) -> (ContextView, Result<(), Error>) {
    match spec_scan_error(v, indexed_tx, stx, decrypted) {
        Some(e) => (v, Err(e)),
        None => (spec_scanned(v, indexed_tx, stx, vk, decrypted), Ok(())),
    }
}

// ---------------------------------------------------------------------------
// One entry, all keys
// ---------------------------------------------------------------------------
/// The context with the checkpoint of the key at `k` set to `at`.
pub open spec fn spec_advance(v: ContextView, k: int, at: IndexedTx) -> ContextView {
    ContextView {
        vk_heights: v.vk_heights.update(k, Checkpoint { vk: v.vk_heights[k].vk, at: Some(at) }),
        ..v
    }
}

/// What the scan of an entry does for the first `n` viewing keys, in their
/// order. A key whose checkpoint lies before the entry scans it and then has
/// its checkpoint at the entry, whether it owns a note of it or not. A key
/// that is at the entry or beyond is passed over. The first error stops the
/// scan: the key that met it and the keys after it stay where they were.
pub open spec fn spec_scan_keys(
    v: ContextView,
    indexed_tx: IndexedTx,
    stx: Transaction,
    decryptions: Seq<TrialDecryption>,
    n: nat,
) -> (ContextView, Result<(), Error>)
    decreases n,
{
    if n == 0 {
        (v, Ok(()))
    } else {
        let k = n - 1;
        let (before, outcome) = spec_scan_keys(v, indexed_tx, stx, decryptions, k as nat);
        if outcome.is_err() || k >= before.vk_heights.len() {
            (before, outcome)
        } else if !checkpoint_lt(before.vk_heights[k].at, Some(indexed_tx)) {
            (before, Ok(()))
        } else if k >= decryptions.len() || decryptions[k].vk != before.vk_heights[k].vk {
            (before, Err(Error::DecryptionMismatch))
        } else {
            let (scanned, outcome) = spec_scan_tx(
                before,
                indexed_tx,
                stx,
                before.vk_heights[k].vk,
                decryptions[k].notes@,
            );
            if outcome.is_err() {
                (scanned, outcome)
            } else {
                (spec_advance(scanned, k, indexed_tx), Ok(()))
            }
        }
    }
}

/// Whether the entry at `indexed_tx` lies beyond every witnessed transaction,
/// so that its commitments are new to the tree.
pub open spec fn spec_is_new(v: ContextView, indexed_tx: IndexedTx) -> bool {
    checkpoint_lt(spec_last_witnessed(v.tx_note_map), Some(indexed_tx))
}

/// What the scan of an entry does: its commitments go into the tree if they
/// are new to it, then each viewing key scans it in turn.
pub open spec fn spec_scan_entry(
    v: ContextView,
    indexed_tx: IndexedTx,
    stx: Transaction,
    decryptions: Seq<TrialDecryption>,
) -> (ContextView, Result<(), Error>) {
    if spec_is_new(v, indexed_tx) {
        let (witnessed, outcome) = spec_update_witness_map(v, indexed_tx, stx.commitments@);
        if outcome.is_err() {
            (witnessed, outcome)
        } else {
            spec_scan_keys(witnessed, indexed_tx, stx, decryptions, witnessed.vk_heights.len())
        }
    } else {
        spec_scan_keys(v, indexed_tx, stx, decryptions, v.vk_heights.len())
    }
}

/// Where the notes of the entry at `indexed_tx` stand among all commitments
/// once the entry is scanned: at the end of the tree if the entry is new to
/// it, and where the record of the entry says if it is not.
pub open spec fn spec_planned_position(v: ContextView, indexed_tx: IndexedTx) -> nat {
    if spec_is_new(v, indexed_tx) {
        v.tree.len()
    } else {
        match spec_note_position(v.tx_note_map, indexed_tx) {
            Some(position) => position as nat,
            None => v.tree.len(),
        }
    }
}

/// The notes of an entry that is scanned stand where they were planned to
/// stand: for an entry that is new to a tree with room for it, and for one
/// that the tree has a record of.
pub proof fn lemma_planned_position(
    v: ContextView,
    indexed_tx: IndexedTx,
    stx: Transaction,
    decryptions: Seq<TrialDecryption>,
)
    requires
        spec_is_new(v, indexed_tx) ==> has_room(v, stx.commitments@.len()),
        !spec_is_new(v, indexed_tx) ==> spec_note_position(v.tx_note_map, indexed_tx).is_some(),
    ensures
        spec_note_position(
            spec_scan_entry(v, indexed_tx, stx, decryptions).0.tx_note_map,
            indexed_tx,
        ) == Some(spec_planned_position(v, indexed_tx) as usize),
{
    let start = if spec_is_new(v, indexed_tx) {
        spec_witnessed(v, indexed_tx, stx.commitments@)
    } else {
        v
    };
    lemma_scan_keys_frame(start, indexed_tx, stx, decryptions, start.vk_heights.len());
    if spec_is_new(v, indexed_tx) {
        assert(start.tx_note_map.last().indexed_tx == indexed_tx);
    }
}

/// The shielded context of a session.
#[derive(Clone, Debug, PartialEq, Eq)]
pub struct ShieldedContext {
    capacity: u64,
    tree: Vec<Node>,
    witness_map: Vec<Witness>,
    vk_heights: Vec<Checkpoint>,
    tx_note_map: Vec<NotePlace>,
    notes: Vec<OwnedNote>,
    spents: Vec<usize>,
}

impl View for ShieldedContext {
    type V = ContextView;

    closed spec fn view(&self) -> ContextView {
        ContextView {
            capacity: self.capacity,
            tree: self.tree@,
            witness_map: self.witness_map@,
            vk_heights: self.vk_heights@,
            tx_note_map: self.tx_note_map@,
            notes: self.notes@,
            spents: self.spents@,
        }
    }
}


impl ShieldedContext {
    /// The state is in order: see [`wf_view`]. Every context that this module
    /// hands out is so, and every method keeps it so.
    pub open spec fn wf(&self) -> bool {
        wf_view(self@)
    }

    /// A context that has seen nothing and watches no key, over a tree of
    /// full depth.
    pub fn new() -> (r: ShieldedContext)
        ensures
            r.wf(),
            r@.capacity == TREE_CAPACITY,
            r@.tree.len() == 0,
            r@.witness_map.len() == 0,
            r@.vk_heights.len() == 0,
            r@.tx_note_map.len() == 0,
            r@.notes.len() == 0,
            r@.spents.len() == 0,
    {
        ShieldedContext {
            capacity: TREE_CAPACITY,
            tree: Vec::new(),
            witness_map: Vec::new(),
            vk_heights: Vec::new(),
            tx_note_map: Vec::new(),
            notes: Vec::new(),
            spents: Vec::new(),
        }
    }

    /// A context that has seen nothing and watches no key, over a tree with
    /// room for `capacity` leaves, or for as many as a tree of full depth
    /// where `capacity` is more than that.
    pub fn with_capacity(capacity: u64) -> (r: ShieldedContext)
        ensures
            r.wf(),
            r@.capacity == if capacity <= TREE_CAPACITY {
                capacity
            } else {
                TREE_CAPACITY
            },
            r@.tree.len() == 0,
            r@.witness_map.len() == 0,
            r@.vk_heights.len() == 0,
            r@.tx_note_map.len() == 0,
            r@.notes.len() == 0,
            r@.spents.len() == 0,
    {
        ShieldedContext {
            capacity: if capacity <= TREE_CAPACITY {
                capacity
            } else {
                TREE_CAPACITY
            },
            tree: Vec::new(),
            witness_map: Vec::new(),
            vk_heights: Vec::new(),
            tx_note_map: Vec::new(),
            notes: Vec::new(),
            spents: Vec::new(),
        }
    }

    /// Puts a context together from its parts, as when one is loaded that was
    /// saved: the context whose state the parts are, or none where the parts
    /// are not in order.
    pub fn from_parts(
        capacity: u64,
        tree: Vec<Node>,
        witness_map: Vec<Witness>,
        vk_heights: Vec<Checkpoint>,
        tx_note_map: Vec<NotePlace>,
        notes: Vec<OwnedNote>,
        spents: Vec<usize>,
    ) -> (r: Option<ShieldedContext>)
        ensures
            r.is_some() == wf_view(
                ContextView {
                    capacity,
                    tree: tree@,
                    witness_map: witness_map@,
                    vk_heights: vk_heights@,
                    tx_note_map: tx_note_map@,
                    notes: notes@,
                    spents: spents@,
                },
            ),
            r matches Some(ctx) ==> ctx.wf() && ctx@ == (ContextView {
                capacity,
                tree: tree@,
                witness_map: witness_map@,
                vk_heights: vk_heights@,
                tx_note_map: tx_note_map@,
                notes: notes@,
                spents: spents@,
            }),
    {
        let ghost parts = ContextView {
            capacity,
            tree: tree@,
            witness_map: witness_map@,
            vk_heights: vk_heights@,
            tx_note_map: tx_note_map@,
            notes: notes@,
            spents: spents@,
        };
        let len = tree.len();
        if capacity > TREE_CAPACITY || len as u64 > capacity || witness_map.len() != len {
            return None;
        }
        let mut i: usize = 0;
        while i < len
            invariant
                i <= len,
                len == tree@.len(),
                len == witness_map@.len(),
                forall|j: int|
                    0 <= j < i ==> (#[trigger] witness_map@[j]).position == j
                        && witness_map@[j].appended == len - 1 - j,
            decreases len - i,
        {
            let w = witness_map[i];
            if w.position != i || w.appended != len - 1 - i {
                return None;
            }
            i += 1;
        }
        let mut p: usize = 0;
        while p < tx_note_map.len()
            invariant
                p <= tx_note_map@.len(),
                len == tree@.len(),
                parts == (ContextView {
                    capacity,
                    tree: tree@,
                    witness_map: witness_map@,
                    vk_heights: vk_heights@,
                    tx_note_map: tx_note_map@,
                    notes: notes@,
                    spents: spents@,
                }),
                forall|j: int| 0 <= j < p ==> (#[trigger] tx_note_map@[j]).position <= len,
            decreases tx_note_map@.len() - p,
        {
            if tx_note_map[p].position > len {
                assert(parts.tx_note_map[p as int].position > parts.tree.len());
                assert(!wf_view(parts));
                return None;
            }
            p += 1;
        }
        let mut a: usize = 0;
        while a < vk_heights.len()
            invariant
                a <= vk_heights@.len(),
                forall|x: int, y: int|
                    0 <= x < y < vk_heights@.len() && x < a ==> (#[trigger] vk_heights@[x]).vk != (
                    #[trigger] vk_heights@[y]).vk,
            decreases vk_heights@.len() - a,
        {
            let mut b: usize = a + 1;
            while b < vk_heights.len()
                invariant
                    a < b <= vk_heights@.len(),
                    forall|y: int| a < y < b ==> vk_heights@[a as int].vk != (
                    #[trigger] vk_heights@[y]).vk,
                decreases vk_heights@.len() - b,
            {
                if vk_heights[a].vk.same(&vk_heights[b].vk) {
                    return None;
                }
                b += 1;
            }
            a += 1;
        }
        Some(ShieldedContext { capacity, tree, witness_map, vk_heights, tx_note_map, notes, spents })
    }

    /// Where the notes of each witnessed transaction start.
    pub fn tx_note_map(&self) -> (r: &Vec<NotePlace>)
        ensures
            r@ == self@.tx_note_map,
    {
        &self.tx_note_map
    }

    /// The number of leaves that the tree has room for.
    pub fn capacity(&self) -> (n: u64)
        ensures
            n == self@.capacity,
    {
        self.capacity
    }

    /// The number of commitments in the tree.
    pub fn tree_size(&self) -> (n: usize)
        ensures
            n == self@.tree.len(),
    {
        self.tree.len()
    }

    /// The commitments seen so far, in the order of the ledger.
    pub fn tree(&self) -> (r: &Vec<Node>)
        ensures
            r@ == self@.tree,
    {
        &self.tree
    }

    /// The witnesses, by position.
    pub fn witness_map(&self) -> (r: &Vec<Witness>)
        ensures
            r@ == self@.witness_map,
    {
        &self.witness_map
    }

    /// The checkpoints of the viewing keys.
    pub fn vk_heights(&self) -> (r: &Vec<Checkpoint>)
        ensures
            r@ == self@.vk_heights,
    {
        &self.vk_heights
    }

    /// The notes that the viewing keys own.
    pub fn notes(&self) -> (r: &Vec<OwnedNote>)
        ensures
            r@ == self@.notes,
    {
        &self.notes
    }

    /// The positions of the notes that were seen spent.
    pub fn spents(&self) -> (r: &Vec<usize>)
        ensures
            r@ == self@.spents,
    {
        &self.spents
    }

    /// The place of `vk` among the checkpoints, if the context watches it.
    pub fn find_key(&self, vk: &ViewingKey) -> (r: Option<usize>)
        ensures
            match r {
                Some(k) => k < self@.vk_heights.len() && self@.vk_heights[k as int].vk == *vk,
                None => forall|k: int|
                    0 <= k < self@.vk_heights.len() ==> (#[trigger] self@.vk_heights[k]).vk != *vk,
            },
    {
        let mut k: usize = 0;
        while k < self.vk_heights.len()
            invariant
                k <= self.vk_heights@.len(),
                forall|j: int| 0 <= j < k ==> (#[trigger] self.vk_heights@[j]).vk != *vk,
            decreases self.vk_heights@.len() - k,
        {
            if self.vk_heights[k].vk.same(vk) {
                return Some(k);
            }
            k += 1;
        }
        None
    }

    /// Starts to watch a viewing key, as one that was never scanned. A key
    /// that is watched already keeps its checkpoint.
    pub fn add_viewing_key(&mut self, vk: ViewingKey)
        requires
            old(self).wf(),
        ensures
            final(self).wf(),
            final(self)@ == (ContextView {
                vk_heights: if exists|k: int|
                    0 <= k < old(self)@.vk_heights.len() && (#[trigger] old(self)@.vk_heights[k]).vk
                        == vk {
                    old(self)@.vk_heights
                } else {
                    old(self)@.vk_heights.push(Checkpoint { vk, at: None })
                },
                ..old(self)@
            }),
    {
        if self.find_key(&vk).is_none() {
            self.vk_heights.push(Checkpoint { vk, at: None });
        }
    }

    /// The highest position among the witnessed transactions.
    pub fn last_witnessed_tx(&self) -> (r: Option<IndexedTx>)
        ensures
            r == spec_last_witnessed(self@.tx_note_map),
    {
        let mut highest: Option<IndexedTx> = None;
        let mut i: usize = 0;
        assert(self.tx_note_map@.take(0) =~= Seq::<NotePlace>::empty());
        while i < self.tx_note_map.len()
            invariant
                i <= self.tx_note_map@.len(),
                highest == spec_last_witnessed(self.tx_note_map@.take(i as int)),
            decreases self.tx_note_map@.len() - i,
        {
            let at = self.tx_note_map[i].indexed_tx;
            proof {
                let t = self.tx_note_map@.take(i + 1);
                assert(t.drop_last() =~= self.tx_note_map@.take(i as int));
                assert(t.last() == self.tx_note_map@[i as int]);
            }
            highest = match highest {
                None => Some(at),
                Some(h) => if h.lt(at) {
                    Some(at)
                } else {
                    Some(h)
                },
            };
            i += 1;
        }
        assert(self.tx_note_map@.take(i as int) =~= self.tx_note_map@);
        highest
    }

    /// Where the notes of `indexed_tx` start among all commitments.
    pub fn note_position(&self, indexed_tx: &IndexedTx) -> (r: Option<usize>)
        ensures
            r == spec_note_position(self@.tx_note_map, *indexed_tx),
    {
        let mut i: usize = self.tx_note_map.len();
        assert(self.tx_note_map@.take(i as int) =~= self.tx_note_map@);
        while i > 0
            invariant
                i <= self.tx_note_map@.len(),
                spec_note_position(self.tx_note_map@, *indexed_tx) == spec_note_position(
                    self.tx_note_map@.take(i as int),
                    *indexed_tx,
                ),
            decreases i,
        {
            let place = self.tx_note_map[i - 1];
            proof {
                let t = self.tx_note_map@.take(i as int);
                assert(t.last() == self.tx_note_map@[i - 1]);
                assert(t.drop_last() =~= self.tx_note_map@.take(i - 1));
            }
            if place.indexed_tx == *indexed_tx {
                return Some(place.position);
            }
            i -= 1;
        }
        None
    }

    /// Where the notes of the entry at `indexed_tx` will stand once the entry
    /// is scanned. The nullifier of a note depends on where the note stands:
    /// this is the place to derive it for.
    pub fn planned_position(&self, indexed_tx: &IndexedTx) -> (r: usize)
        ensures
            r == spec_planned_position(self@, *indexed_tx),
    {
        if checkpoint_before(self.last_witnessed_tx(), *indexed_tx) {
            self.tree.len()
        } else {
            match self.note_position(indexed_tx) {
                Some(position) => position,
                None => self.tree.len(),
            }
        }
    }

    /// The position of the note that `nullifier` spends, if a viewing key
    /// owns it.
    pub fn spent_position(&self, nullifier: &Nullifier) -> (r: Option<usize>)
        ensures
            r == spec_spent_position(self@.notes, *nullifier),
    {
        let mut i: usize = self.notes.len();
        assert(self.notes@.take(i as int) =~= self.notes@);
        while i > 0
            invariant
                i <= self.notes@.len(),
                spec_spent_position(self.notes@, *nullifier) == spec_spent_position(
                    self.notes@.take(i as int),
                    *nullifier,
                ),
            decreases i,
        {
            let note = self.notes[i - 1];
            proof {
                let t = self.notes@.take(i as int);
                assert(t.last() == self.notes@[i - 1]);
                assert(t.drop_last() =~= self.notes@.take(i - 1));
            }
            if note.decrypted.nullifier.same(nullifier) {
                return Some(note.position);
            }
            i -= 1;
        }
        None
    }

    /// Adds the commitments of a payload to the tree for the transaction at
    /// `indexed_tx`: every witness takes in every new commitment, owned or
    /// not, and every new commitment gets a witness of its own. Without room
    /// in the tree for all of them nothing changes.
    pub fn update_witness_map(&mut self, indexed_tx: IndexedTx, shielded: &Transaction) -> (r:
        Result<(), Error>)
        requires
            old(self).wf(),
        ensures
            final(self).wf(),
            (final(self)@, r) == spec_update_witness_map(
                old(self)@,
                indexed_tx,
                shielded.commitments@,
            ),
    {
        let n = shielded.commitments.len();
        let len = self.tree.len();
        if n as u64 > self.capacity - len as u64 {
            return Err(Error::TreeFull);
        }
        let ghost start = self@;
        self.tx_note_map.push(NotePlace { indexed_tx, position: len });
        let mut k: usize = 0;
        assert(shielded.commitments@.take(0) =~= Seq::<Node>::empty());
        assert(self.tree@ =~= start.tree + shielded.commitments@.take(0));
        assert(self.witness_map@ =~= spec_update_witnesses(start.witness_map, 0));
        while k < n
            invariant
                k <= n,
                n == shielded.commitments@.len(),
                len == start.tree.len(),
                len + n <= start.capacity,
                wf_view(start),
                self.tree@ == start.tree + shielded.commitments@.take(k as int),
                self.witness_map@ == spec_update_witnesses(start.witness_map, k as nat),
                self.tx_note_map@ == start.tx_note_map.push(
                    NotePlace { indexed_tx, position: len },
                ),
                self.vk_heights@ == start.vk_heights,
                self.notes@ == start.notes,
                self.spents@ == start.spents,
                self.capacity == start.capacity,
            decreases n - k,
        {
            let node = shielded.commitments[k];
            let m = self.witness_map.len();
            let ghost taken = self.witness_map@;
            let mut j: usize = 0;
            while j < m
                invariant
                    j <= m,
                    m == len + k,
                    m == self.tree@.len(),
                    wf_view(start),
                    len == start.tree.len(),
                    taken == spec_update_witnesses(start.witness_map, k as nat),
                    self.witness_map@.len() == m,
                    forall|i: int|
                        0 <= i < j ==> #[trigger] self.witness_map@[i] == (Witness {
                            position: taken[i].position,
                            appended: (taken[i].appended + 1) as usize,
                        }),
                    forall|i: int| j <= i < m ==> #[trigger] self.witness_map@[i] == taken[i],
                    self.tree@ == start.tree + shielded.commitments@.take(k as int),
                    self.tx_note_map@ == start.tx_note_map.push(
                        NotePlace { indexed_tx, position: len },
                    ),
                    self.vk_heights@ == start.vk_heights,
                    self.notes@ == start.notes,
                    self.spents@ == start.spents,
                    self.capacity == start.capacity,
                decreases m - j,
            {
                let w = self.witness_map[j];
                assert(w == taken[j as int]);
                assert(w.appended + 1 <= m) by {
                    if j < len {
                        assert(start.witness_map[j as int].appended == len - 1 - j);
                    }
                }
                self.witness_map.set(j, Witness { position: w.position, appended: w.appended + 1 });
                j += 1;
            }
            let note_pos = self.tree.len();
            self.tree.push(node);
            self.witness_map.push(Witness { position: note_pos, appended: 0 });
            proof {
                assert(shielded.commitments@.take(k + 1) =~= shielded.commitments@.take(
                    k as int,
                ).push(node));
                assert(self.tree@ =~= start.tree + shielded.commitments@.take(k + 1));
                let next = spec_update_witnesses(start.witness_map, (k + 1) as nat);
                assert(self.witness_map@.len() == next.len());
                assert forall|i: int| 0 <= i < next.len() implies self.witness_map@[i] == next[i] by {
                    if i < len {
                        assert(start.witness_map[i].appended == len - 1 - i);
                    }
                }
                assert(self.witness_map@ =~= next);
            }
            k += 1;
        }
        proof {
            assert(shielded.commitments@.take(n as int) =~= shielded.commitments@);
            let v = self@;
            assert forall|i: int| 0 <= i < v.witness_map.len() implies (
            #[trigger] v.witness_map[i]).position == i && v.witness_map[i].appended == v.tree.len()
                - 1 - i by {
                if i < len {
                    assert(start.witness_map[i].position == i);
                    assert(start.witness_map[i].appended == len - 1 - i);
                }
            }
            assert forall|i: int| 0 <= i < v.tx_note_map.len() implies (
            #[trigger] v.tx_note_map[i]).position <= v.tree.len() by {
                if i < start.tx_note_map.len() {
                    assert(v.tx_note_map[i] == start.tx_note_map[i]);
                }
            }
            assert(self@ == spec_witnessed(start, indexed_tx, shielded.commitments@));
        }
        Ok(())
    }

    /// Scans a payload for one viewing key, given what the key decrypted of
    /// each output: the notes that it decrypted become its own, each at the
    /// position of its output, and each note that the payload spends is
    /// marked as spent. On an error nothing changes.
    pub fn scan_tx(
        &mut self,
        indexed_tx: IndexedTx,
        shielded: &Transaction,
        vk: &ViewingKey,
        decrypted: &Vec<Option<DecryptedNote>>,
    ) -> (r: Result<(), Error>)
        requires
            old(self).wf(),
        ensures
            final(self).wf(),
            (final(self)@, r) == spec_scan_tx(old(self)@, indexed_tx, *shielded, *vk, decrypted@),
    {
        let ghost start = self@;
        let n = shielded.commitments.len();
        let base = match self.note_position(&indexed_tx) {
            None => {
                return Err(Error::UnknownNotePosition);
            },
            Some(at) => at,
        };
        proof {
            lemma_note_position_in_tree(start, indexed_tx);
        }
        let tree_len = self.tree.len();
        if n > tree_len - base {
            return Err(Error::UnknownNotePosition);
        }
        if decrypted.len() != n {
            return Err(Error::DecryptionMismatch);
        }
        let mut i: usize = 0;
        assert(decrypted@.take(0) =~= Seq::<Option<DecryptedNote>>::empty());
        assert(self.notes@ =~= start.notes + spec_owned_notes(
            base as nat,
            *vk,
            decrypted@.take(0),
        ));
        while i < n
            invariant
                i <= n,
                n == decrypted@.len(),
                base + n <= tree_len,
                self.notes@ == start.notes + spec_owned_notes(
                    base as nat,
                    *vk,
                    decrypted@.take(i as int),
                ),
                self.tree@ == start.tree,
                self.witness_map@ == start.witness_map,
                self.tx_note_map@ == start.tx_note_map,
                self.vk_heights@ == start.vk_heights,
                self.spents@ == start.spents,
                self.capacity == start.capacity,
            decreases n - i,
        {
            proof {
                let t = decrypted@.take(i + 1);
                assert(t.drop_last() =~= decrypted@.take(i as int));
                assert(t.last() == decrypted@[i as int]);
            }
            let ghost earlier = spec_owned_notes(base as nat, *vk, decrypted@.take(i as int));
            match decrypted[i] {
                Some(d) => {
                    let note = OwnedNote { position: base + i, vk: *vk, decrypted: d };
                    assert((start.notes + earlier).push(note) =~= start.notes + earlier.push(note));
                    self.notes.push(note);
                },
                None => {},
            }
            i += 1;
        }
        assert(decrypted@.take(n as int) =~= decrypted@);
        let ghost notes = self.notes@;
        let spends = shielded.nullifiers.len();
        let mut s: usize = 0;
        assert(shielded.nullifiers@.take(0) =~= Seq::<Nullifier>::empty());
        assert(self.spents@ =~= start.spents + spec_spent(notes, shielded.nullifiers@.take(0)));
        while s < spends
            invariant
                s <= spends,
                spends == shielded.nullifiers@.len(),
                self.notes@ == notes,
                self.spents@ == start.spents + spec_spent(notes, shielded.nullifiers@.take(s as int)),
                self.tree@ == start.tree,
                self.witness_map@ == start.witness_map,
                self.tx_note_map@ == start.tx_note_map,
                self.vk_heights@ == start.vk_heights,
                self.capacity == start.capacity,
            decreases spends - s,
        {
            proof {
                let t = shielded.nullifiers@.take(s + 1);
                assert(t.drop_last() =~= shielded.nullifiers@.take(s as int));
                assert(t.last() == shielded.nullifiers@[s as int]);
            }
            let ghost earlier = spec_spent(notes, shielded.nullifiers@.take(s as int));
            match self.spent_position(&shielded.nullifiers[s]) {
                Some(position) => {
                    assert((start.spents + earlier).push(position) =~= start.spents + earlier.push(
                        position,
                    ));
                    self.spents.push(position);
                },
                None => {},
            }
            s += 1;
        }
        assert(shielded.nullifiers@.take(spends as int) =~= shielded.nullifiers@);
        Ok(())
    }

    /// Scans one entry: its commitments go into the tree if the entry lies
    /// beyond every witnessed transaction; then every viewing key whose
    /// checkpoint lies before the entry scans it with its own decryptions,
    /// which stand in `decryptions` at the place of the key, and has its
    /// checkpoint set to the entry. The first error ends the scan and is
    /// handed on: the checkpoint of the key that met it, and of each key
    /// after it, stays where it was.
    pub fn scan_entry(
        &mut self,
        indexed_tx: IndexedTx,
        shielded: &Transaction,
        decryptions: &Vec<TrialDecryption>,
    ) -> (r: Result<(), Error>)
        requires
            old(self).wf(),
        ensures
            final(self).wf(),
            (final(self)@, r) == spec_scan_entry(old(self)@, indexed_tx, *shielded, decryptions@),
    {
        if checkpoint_before(self.last_witnessed_tx(), indexed_tx) {
            match self.update_witness_map(indexed_tx, shielded) {
                Err(e) => {
                    return Err(e);
                },
                Ok(()) => {},
            }
        }
        let ghost start = self@;
        let ghost goal = spec_scan_entry(old(self)@, indexed_tx, *shielded, decryptions@);
        let total = self.vk_heights.len();
        let mut k: usize = 0;
        while k < total
            invariant
                k <= total,
                goal == spec_scan_entry(old(self)@, indexed_tx, *shielded, decryptions@),
                goal == spec_scan_keys(start, indexed_tx, *shielded, decryptions@, total as nat),
                total == start.vk_heights.len(),
                total == self.vk_heights@.len(),
                self.wf(),
                (self@, Ok::<(), Error>(())) == spec_scan_keys(
                    start,
                    indexed_tx,
                    *shielded,
                    decryptions@,
                    k as nat,
                ),
            decreases total - k,
        {
            let ghost before = self@;
            let checkpoint = self.vk_heights[k];
            if checkpoint_before(checkpoint.at, indexed_tx) {
                if k >= decryptions.len() || !decryptions[k].vk.same(&checkpoint.vk) {
                    proof {
                        assert(spec_scan_keys(
                            start,
                            indexed_tx,
                            *shielded,
                            decryptions@,
                            (k + 1) as nat,
                        ) == (before, Err::<(), Error>(Error::DecryptionMismatch)));
                        lemma_scan_keys_stops(
                            start,
                            indexed_tx,
                            *shielded,
                            decryptions@,
                            (k + 1) as nat,
                            total as nat,
                        );
                    }
                    return Err(Error::DecryptionMismatch);
                }
                match self.scan_tx(indexed_tx, shielded, &checkpoint.vk, &decryptions[k].notes) {
                    Err(e) => {
                        proof {
                            assert(spec_scan_keys(
                                start,
                                indexed_tx,
                                *shielded,
                                decryptions@,
                                (k + 1) as nat,
                            ) == (self@, Err::<(), Error>(e)));
                            lemma_scan_keys_stops(
                                start,
                                indexed_tx,
                                *shielded,
                                decryptions@,
                                (k + 1) as nat,
                                total as nat,
                            );
                        }
                        return Err(e);
                    },
                    Ok(()) => {},
                }
                let ghost scanned = self@;
                self.vk_heights.set(k, Checkpoint { vk: checkpoint.vk, at: Some(indexed_tx) });
                assert(self@ == spec_advance(scanned, k as int, indexed_tx));
                assert(distinct_keys(self@.vk_heights)) by {
                    assert forall|i: int, j: int| 0 <= i < j < self@.vk_heights.len() implies (
                    #[trigger] self@.vk_heights[i]).vk != (#[trigger] self@.vk_heights[j]).vk by {
                        assert(self@.vk_heights[i].vk == before.vk_heights[i].vk);
                        assert(self@.vk_heights[j].vk == before.vk_heights[j].vk);
                    }
                }
            }
            k += 1;
        }
        Ok(())
    }

    /// Takes the checkpoints out of the context, which is left with none, so
    /// that the caller can go through them while the context is in use.
    pub fn get_vk_heights(&mut self) -> (r: Vec<Checkpoint>)
        requires
            old(self).wf(),
        ensures
            final(self).wf(),
            r@ == old(self)@.vk_heights,
            distinct_keys(r@),
            final(self)@ == (ContextView { vk_heights: Seq::empty(), ..old(self)@ }),
    {
        let mut vk_heights: Vec<Checkpoint> = Vec::new();
        std::mem::swap(&mut vk_heights, &mut self.vk_heights);
        vk_heights
    }

    /// Puts checkpoints into the context in place of those it has, and hands
    /// out the old ones.
    pub fn set_vk_heights(&mut self, vk_heights: Vec<Checkpoint>) -> (r: Vec<Checkpoint>)
        requires
            old(self).wf(),
            distinct_keys(vk_heights@),
        ensures
            final(self).wf(),
            r@ == old(self)@.vk_heights,
            final(self)@ == (ContextView { vk_heights: vk_heights@, ..old(self)@ }),
    {
        let mut vk_heights = vk_heights;
        std::mem::swap(&mut vk_heights, &mut self.vk_heights);
        vk_heights
    }
}

/// A transaction with a place starts within the tree.
pub proof fn lemma_note_position_in_tree(v: ContextView, indexed_tx: IndexedTx)
    requires
        wf_view(v),
    ensures
        spec_note_position(v.tx_note_map, indexed_tx) matches Some(base) ==> base <= v.tree.len(),
{
    lemma_note_position_is_recorded(v.tx_note_map, indexed_tx);
}

/// The place that is found for a transaction is one of the records.
pub proof fn lemma_note_position_is_recorded(places: Seq<NotePlace>, indexed_tx: IndexedTx)
    ensures
        spec_note_position(places, indexed_tx) matches Some(base) ==> exists|i: int|
            0 <= i < places.len() && (#[trigger] places[i]).indexed_tx == indexed_tx
                && places[i].position == base,
    decreases places.len(),
{
    if places.len() > 0 {
        if places.last().indexed_tx == indexed_tx {
            assert(places[places.len() - 1].indexed_tx == indexed_tx);
        } else {
            lemma_note_position_is_recorded(places.drop_last(), indexed_tx);
            if spec_note_position(places, indexed_tx).is_some() {
                let i = choose|i: int|
                    0 <= i < places.drop_last().len() && (#[trigger] places.drop_last()[i]).indexed_tx
                        == indexed_tx && places.drop_last()[i].position == spec_note_position(
                        places,
                        indexed_tx,
                    ).unwrap();
                assert(places[i] == places.drop_last()[i]);
            }
        }
    }
}

// ---------------------------------------------------------------------------
// Facts about the scan of an entry
// ---------------------------------------------------------------------------
/// The scan of an entry by the viewing keys leaves the tree, the witnesses and
/// the places of the transactions alone, keeps the keys, and moves no
/// checkpoint back.
pub proof fn lemma_scan_keys_frame(
    v: ContextView,
    indexed_tx: IndexedTx,
    stx: Transaction,
    decryptions: Seq<TrialDecryption>,
    n: nat,
)
    ensures
        ({
            let w = spec_scan_keys(v, indexed_tx, stx, decryptions, n).0;
            &&& w.tree == v.tree
            &&& w.witness_map == v.witness_map
            &&& w.tx_note_map == v.tx_note_map
            &&& w.vk_heights.len() == v.vk_heights.len()
            &&& forall|k: int|
                0 <= k < v.vk_heights.len() ==> (#[trigger] w.vk_heights[k]).vk == v.vk_heights[k].vk
                    && checkpoint_le(v.vk_heights[k].at, w.vk_heights[k].at)
            &&& forall|k: int|
                n <= k < v.vk_heights.len() ==> #[trigger] w.vk_heights[k] == v.vk_heights[k]
            &&& wf_view(v) ==> wf_view(w)
        }),
    decreases n,
{
    if n > 0 {
        lemma_scan_keys_frame(v, indexed_tx, stx, decryptions, (n - 1) as nat);
    }
}

/// After an entry was scanned without error, every viewing key among the
/// first `n` stands at the entry or beyond it.
pub proof fn lemma_scan_keys_reach(
    v: ContextView,
    indexed_tx: IndexedTx,
    stx: Transaction,
    decryptions: Seq<TrialDecryption>,
    n: nat,
)
    requires
        n <= v.vk_heights.len(),
        spec_scan_keys(v, indexed_tx, stx, decryptions, n).1.is_ok(),
    ensures
        forall|k: int|
            0 <= k < n ==> checkpoint_le(
                Some(indexed_tx),
                (#[trigger] spec_scan_keys(v, indexed_tx, stx, decryptions, n).0.vk_heights[k]).at,
            ),
    decreases n,
{
    if n > 0 {
        let m = (n - 1) as nat;
        lemma_scan_keys_frame(v, indexed_tx, stx, decryptions, m);
        lemma_scan_keys_reach(v, indexed_tx, stx, decryptions, m);
        let before = spec_scan_keys(v, indexed_tx, stx, decryptions, m).0;
        let after = spec_scan_keys(v, indexed_tx, stx, decryptions, n).0;
        assert forall|k: int| 0 <= k < n implies checkpoint_le(
            Some(indexed_tx),
            (#[trigger] after.vk_heights[k]).at,
        ) by {
            if k < m {
                assert(after.vk_heights[k] == before.vk_heights[k]);
            }
        }
    }
}

/// An error among the first `n` keys is the outcome of the whole scan.
pub proof fn lemma_scan_keys_stops(
    v: ContextView,
    indexed_tx: IndexedTx,
    stx: Transaction,
    decryptions: Seq<TrialDecryption>,
    n: nat,
    total: nat,
)
    requires
        n <= total,
        spec_scan_keys(v, indexed_tx, stx, decryptions, n).1.is_err(),
    ensures
        spec_scan_keys(v, indexed_tx, stx, decryptions, total) == spec_scan_keys(
            v,
            indexed_tx,
            stx,
            decryptions,
            n,
        ),
    decreases total - n,
{
    if n < total {
        lemma_scan_keys_stops(v, indexed_tx, stx, decryptions, n, (total - 1) as nat);
    }
}

/// Checkpoints are monotonic: whatever the outcome of the scan of an entry,
/// the checkpoint of every viewing key is afterwards at or beyond where it
/// was, and after a scan without error it is at the entry or beyond it.
pub proof fn lemma_checkpoints_never_go_back(
    v: ContextView,
    indexed_tx: IndexedTx,
    stx: Transaction,
    decryptions: Seq<TrialDecryption>,
)
    ensures
        ({
            let (w, outcome) = spec_scan_entry(v, indexed_tx, stx, decryptions);
            &&& w.vk_heights.len() == v.vk_heights.len()
            &&& forall|k: int|
                0 <= k < v.vk_heights.len() ==> (#[trigger] w.vk_heights[k]).vk == v.vk_heights[k].vk
                    && checkpoint_le(v.vk_heights[k].at, w.vk_heights[k].at)
            &&& outcome.is_ok() ==> forall|k: int|
                0 <= k < v.vk_heights.len() ==> checkpoint_le(
                    Some(indexed_tx),
                    (#[trigger] w.vk_heights[k]).at,
                )
        }),
{
    let start = if spec_is_new(v, indexed_tx) {
        spec_update_witness_map(v, indexed_tx, stx.commitments@).0
    } else {
        v
    };
    let total = start.vk_heights.len();
    lemma_scan_keys_frame(start, indexed_tx, stx, decryptions, total);
    if spec_scan_keys(start, indexed_tx, stx, decryptions, total).1.is_ok() {
        lemma_scan_keys_reach(start, indexed_tx, stx, decryptions, total);
    }
}

/// Witnesses are complete: when the entry is new and the tree has room, the
/// scan adds one witness for each commitment of the payload, whatever the
/// viewing keys decrypt of it and whatever the outcome for the keys.
pub proof fn lemma_witness_for_every_commitment(
    v: ContextView,
    indexed_tx: IndexedTx,
    stx: Transaction,
    decryptions: Seq<TrialDecryption>,
    others: Seq<TrialDecryption>,
)
    requires
        spec_is_new(v, indexed_tx),
        has_room(v, stx.commitments@.len()),
    ensures
        spec_scan_entry(v, indexed_tx, stx, decryptions).0.witness_map.len() == v.witness_map.len()
            + stx.commitments@.len(),
        spec_scan_entry(v, indexed_tx, stx, decryptions).0.tree == v.tree + stx.commitments@,
        spec_scan_entry(v, indexed_tx, stx, decryptions).0.witness_map == spec_scan_entry(
            v,
            indexed_tx,
            stx,
            others,
        ).0.witness_map,
{
    let start = spec_witnessed(v, indexed_tx, stx.commitments@);
    lemma_scan_keys_frame(start, indexed_tx, stx, decryptions, start.vk_heights.len());
    lemma_scan_keys_frame(start, indexed_tx, stx, others, start.vk_heights.len());
}

/// A key that decrypts no output of a payload gains no note by scanning it.
pub proof fn lemma_nothing_decrypted(base: nat, vk: ViewingKey, decrypted: Seq<Option<DecryptedNote>>)
    requires
        forall|i: int| 0 <= i < decrypted.len() ==> (#[trigger] decrypted[i]).is_none(),
    ensures
        spec_owned_notes(base, vk, decrypted) == Seq::<OwnedNote>::empty(),
    decreases decrypted.len(),
{
    if decrypted.len() > 0 {
        assert(decrypted.last().is_none());
        assert forall|i: int| 0 <= i < decrypted.drop_last().len() implies (
        #[trigger] decrypted.drop_last()[i]).is_none() by {
            assert(decrypted.drop_last()[i] == decrypted[i]);
        }
        lemma_nothing_decrypted(base, vk, decrypted.drop_last());
    }
}

} // verus!
