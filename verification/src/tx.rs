//! Ledger transactions, as far as the shielded pool reads them.

use vstd::prelude::*;
use vstd::string::*;

verus! {

/// Whether two runs of 32 bytes are the same.
pub fn bytes32_eq(a: &[u8; 32], b: &[u8; 32]) -> (r: bool)
    ensures
        r == (*a == *b),
{
    let mut i: usize = 0;
    while i < 32
        invariant
            i <= 32,
            forall|j: int| 0 <= j < i ==> a@[j] == b@[j],
        decreases 32 - i,
    {
        if a[i] != b[i] {
            return false;
        }
        i += 1;
    }
    assert(*a =~= *b);
    true
}

/// The character of a hexadecimal digit, in upper case.
pub open spec fn hex_digit(d: int) -> char {
    if d < 10 {
        crate::text::digit_char(d as nat)
    } else if d == 10 {
        'A'
    } else if d == 11 {
        'B'
    } else if d == 12 {
        'C'
    } else if d == 13 {
        'D'
    } else if d == 14 {
        'E'
    } else {
        'F'
    }
}

/// The bytes written in hexadecimal, two upper-case digits to the byte, the
/// high half first.
pub open spec fn spec_hex_upper(bytes: Seq<u8>) -> Seq<char> {
    Seq::new(
        2 * bytes.len(),
        |i: int|
            if i % 2 == 0 {
                hex_digit(bytes[i / 2] as int / 16)
            } else {
                hex_digit(bytes[i / 2] as int % 16)
            },
    )
}

/// The declaration of `data_encoding::DecodeError`, of which nothing is known
/// but that a decoding failed.
#[verifier::external_type_specification]
#[verifier::external_body]
pub struct ExDecodeError(data_encoding::DecodeError);

/// The greatest number of bytes that are written in hexadecimal in one go.
pub open spec fn spec_hex_encode_limit() -> usize {
    usize::MAX / 512
}

/// The greatest number of bytes of text that are read as hexadecimal in one
/// go.
pub open spec fn spec_hex_decode_limit() -> usize {
    usize::MAX / 8
}

/// `data_encoding::HEXUPPER.encode`: the upper-case base16 text of the bytes,
/// which has two digits of `0123456789ABCDEF` for each byte, the high half
/// first. The call may panic on more than `usize::MAX / 512` bytes, which
/// are left out.
#[verifier::external_body]
pub(crate) fn hex_upper(bytes: &[u8]) -> (text: String)
    requires
        bytes@.len() <= spec_hex_encode_limit(),
    ensures
        text@ == spec_hex_upper(bytes@),
{
    data_encoding::HEXUPPER.encode(bytes)
}

/// `data_encoding::HEXUPPER.decode`: the bytes of which the text is the
/// upper-case base16 text. The encoding is strict: a text of odd length, and
/// one with a character that is not of `0123456789ABCDEF`, is an error. The
/// call may panic on a text of more than `usize::MAX / 8` bytes, which is
/// left out.
#[verifier::external_body]
pub(crate) fn hex_upper_decode(text: &str) -> (r: Result<Vec<u8>, data_encoding::DecodeError>)
    requires
        text.spec_bytes().len() <= spec_hex_decode_limit(),
    ensures
        match r {
            Ok(bytes) => text@ == spec_hex_upper(bytes@),
            Err(_) => forall|bytes: Seq<u8>| text@ != #[trigger] spec_hex_upper(bytes),
        },
{
    data_encoding::HEXUPPER.decode(text.as_bytes())
}

/// No two runs of bytes are written the same in hexadecimal.
pub proof fn lemma_hex_upper_injective(a: Seq<u8>, b: Seq<u8>)
    requires
        spec_hex_upper(a) == spec_hex_upper(b),
    ensures
        a == b,
{
    assert(spec_hex_upper(a).len() == 2 * a.len());
    assert(spec_hex_upper(b).len() == 2 * b.len());
    assert forall|i: int| 0 <= i < a.len() implies a[i] == b[i] by {
        let high = spec_hex_upper(a)[2 * i];
        let low = spec_hex_upper(a)[2 * i + 1];
        assert(high == spec_hex_upper(b)[2 * i]);
        assert(low == spec_hex_upper(b)[2 * i + 1]);
        assert((2 * i) / 2 == i && (2 * i) % 2 == 0);
        assert((2 * i + 1) / 2 == i && (2 * i + 1) % 2 == 1);
        assert(hex_digit(a[i] as int / 16) == hex_digit(b[i] as int / 16));
        assert(hex_digit(a[i] as int % 16) == hex_digit(b[i] as int % 16));
        assert(a[i] as int / 16 == b[i] as int / 16);
        assert(a[i] as int % 16 == b[i] as int % 16);
    }
    assert(a =~= b);
}

/// A 32-byte digest that names a section of a transaction.
#[derive(Clone, Copy, Debug, PartialEq, Eq, Hash)]
pub struct Hash(pub [u8; 32]);

impl Hash {
    /// Whether two digests are the same.
    pub fn same(&self, other: &Hash) -> (r: bool)
        ensures
            r == (*self == *other),
    {
        bytes32_eq(&self.0, &other.0)
    }
}

/// A key of ledger storage.
#[derive(Clone, Debug, PartialEq, Eq, Hash)]
pub struct Key(pub String);

/// A copy of a list of storage keys.
pub fn copy_keys(keys: &Vec<Key>) -> (r: Vec<Key>)
    ensures
        r@ == keys@,
{
    let mut out: Vec<Key> = Vec::with_capacity(keys.len());
    let mut i: usize = 0;
    while i < keys.len()
        invariant
            i <= keys@.len(),
            out@ == keys@.take(i as int),
        decreases keys@.len() - i,
    {
        let k = Key(keys[i].0.clone());
        assert(k == keys@[i as int]);
        assert(keys@.take(i as int).push(k) =~= keys@.take(i + 1));
        out.push(k);
        i += 1;
    }
    assert(keys@.take(keys@.len() as int) =~= keys@);
    out
}

/// A note commitment, as a leaf of the commitment tree.
#[derive(Clone, Copy, Debug, PartialEq, Eq, Hash)]
pub struct Node(pub [u8; 32]);

/// The marker that a spent note leaves on the ledger.
#[derive(Clone, Copy, Debug, PartialEq, Eq, Hash)]
pub struct Nullifier(pub [u8; 32]);

impl Nullifier {
    /// Whether two nullifiers are the same.
    pub fn same(&self, other: &Nullifier) -> (r: bool)
        ensures
            r == (*self == *other),
    {
        bytes32_eq(&self.0, &other.0)
    }
}

/// A key that reads the notes of one shielded account and cannot spend them.
#[derive(Clone, Copy, Debug, PartialEq, Eq, Hash)]
pub struct ViewingKey {
    pub ak: [u8; 32],
    pub nk: [u8; 32],
}

impl ViewingKey {
    /// Whether two keys are the same.
    pub fn same(&self, other: &ViewingKey) -> (r: bool)
        ensures
            r == (*self == *other),
    {
        bytes32_eq(&self.ak, &other.ak) && bytes32_eq(&self.nk, &other.nk)
    }
}

/// The shielded payload of a transaction: its encoded form, which only the
/// note-encryption code reads, the commitments of the notes it creates and
/// the nullifiers of the notes it spends, each in the payload's own order.
#[derive(Clone, Debug, PartialEq, Eq)]
pub struct Transaction {
    pub encoded: Vec<u8>,
    pub commitments: Vec<Node>,
    pub nullifiers: Vec<Nullifier>,
}

/// What a shielded payload holds.
pub struct TransactionView {
    pub encoded: Seq<u8>,
    pub commitments: Seq<Node>,
    pub nullifiers: Seq<Nullifier>,
}

impl View for Transaction {
    type V = TransactionView;

    open spec fn view(&self) -> TransactionView {
        TransactionView {
            encoded: self.encoded@,
            commitments: self.commitments@,
            nullifiers: self.nullifiers@,
        }
    }
}

impl Transaction {
    /// A copy of the payload.
    pub fn duplicate(&self) -> (r: Transaction)
        ensures
            r@ == self@,
    {
        let r = Transaction {
            encoded: self.encoded.clone(),
            commitments: self.commitments.clone(),
            nullifiers: self.nullifiers.clone(),
        };
        assert(r.encoded@ =~= self.encoded@);
        assert(r.commitments@ =~= self.commitments@);
        assert(r.nullifiers@ =~= self.nullifiers@);
        r
    }
}

/// The header that a fee-paying wrapper adds to a transaction.
#[derive(Clone, Copy, Debug, PartialEq, Eq)]
pub struct WrapperTx {
    /// The section that unshields the fee, if the fee is paid from the pool.
    pub unshield_section_hash: Option<Hash>,
}

/// The header of a transaction.
#[derive(Clone, Copy, Debug, PartialEq, Eq)]
pub struct Header {
    /// The wrapper header, on a wrapper transaction.
    pub wrapper: Option<WrapperTx>,
}

impl Header {
    /// The wrapper header, on a wrapper transaction.
    pub fn wrapper(&self) -> (r: Option<WrapperTx>)
        ensures
            r == self.wrapper,
    {
        self.wrapper
    }
}

/// One section of a transaction, under the digest that names it.
#[derive(Clone, Debug, PartialEq, Eq)]
pub struct Section {
    pub hash: Hash,
    /// The shielded payload, in a section that carries one.
    pub masp_tx: Option<Transaction>,
}

impl Section {
    /// The shielded payload, in a section that carries one.
    pub fn masp_tx(&self) -> (r: Option<Transaction>)
        ensures
            r.is_some() == self.masp_tx.is_some(),
            r matches Some(t) ==> t@ == self.masp_tx.unwrap()@,
    {
        match &self.masp_tx {
            Some(t) => Some(t.duplicate()),
            None => None,
        }
    }
}

/// A transfer of value between two accounts.
#[derive(Clone, Copy, Debug, PartialEq, Eq)]
pub struct Transfer {
    /// The section with the shielded payload, on a shielded transfer.
    pub shielded: Option<Hash>,
}

/// The message between chains that a transaction may hold.
#[derive(Clone, Debug, PartialEq, Eq)]
pub enum IbcMessage {
    /// A transfer between chains that names no shielded payload.
    Transfer,
    /// A transfer out of the shielded pool, with its payload inline.
    ShieldedTransfer(MsgShieldedTransfer),
    /// Any message in an envelope; a shielded payload, if it has one, is
    /// found in the events that its execution emits.
    Envelope,
}

/// A transfer between chains from a shielded address.
#[derive(Clone, Debug, PartialEq, Eq)]
pub struct MsgShieldedTransfer {
    pub shielded_transfer: IbcShieldedTransfer,
}

/// The shielded part of a transfer between chains.
#[derive(Clone, Debug, PartialEq, Eq)]
pub struct IbcShieldedTransfer {
    pub transfer: Transfer,
    pub masp_tx: Transaction,
}

/// What came of decoding a text or a run of bytes: the value, or the
/// decoder's complaint.
#[derive(Clone, Debug, PartialEq, Eq)]
pub enum Decoded<T> {
    Value(T),
    Malformed(String),
}

/// The data of a transaction in both readings that the shielded pool knows.
#[derive(Clone, Debug, PartialEq, Eq)]
pub struct TxData {
    /// The data read as a transfer of value, where it is one.
    pub transfer: Option<Transfer>,
    /// The data read as a message between chains.
    pub ibc: Decoded<IbcMessage>,
}

/// A ledger transaction.
#[derive(Clone, Debug, PartialEq, Eq)]
pub struct Tx {
    pub header: Header,
    pub data: Option<TxData>,
    pub sections: Vec<Section>,
}

/// The first section of `sections` that `hash` names.
pub open spec fn spec_get_section(sections: Seq<Section>, hash: Hash) -> Option<Section>
    decreases sections.len(),
{
    if sections.len() == 0 {
        None
    } else if sections[0].hash == hash {
        Some(sections[0])
    } else {
        spec_get_section(sections.drop_first(), hash)
    }
}

impl Tx {
    /// The header of the transaction.
    pub fn header(&self) -> (r: Header)
        ensures
            r == self.header,
    {
        self.header
    }

    /// The data of the transaction, if it has a data section.
    pub fn data(&self) -> (r: Option<&TxData>)
        ensures
            r == match self.data {
                Some(d) => Some(&d),
                None => None,
            },
    {
        self.data.as_ref()
    }

    /// The first section that `hash` names.
    pub fn get_section(&self, hash: &Hash) -> (r: Option<&Section>)
        ensures
            r == match spec_get_section(self.sections@, *hash) {
                Some(s) => Some(&s),
                None => None,
            },
    {
        let mut i: usize = 0;
        assert(self.sections@.skip(0) =~= self.sections@);
        while i < self.sections.len()
            invariant
                i <= self.sections@.len(),
                spec_get_section(self.sections@, *hash) == spec_get_section(
                    self.sections@.skip(i as int),
                    *hash,
                ),
            decreases self.sections@.len() - i,
        {
            let ghost rest = self.sections@.skip(i as int);
            assert(rest[0] == self.sections@[i as int]);
            assert(rest.drop_first() =~= self.sections@.skip(i + 1));
            if self.sections[i].hash.same(hash) {
                return Some(&self.sections[i]);
            }
            i += 1;
        }
        None
    }
}

} // verus!
