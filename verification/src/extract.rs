//! Finding the shielded payload of a ledger transaction.
//!
//! A payload comes in one of three shapes: in the section that unshields the
//! fee of a wrapper, in the section that a transfer names, or with a message
//! between chains, where it stands in the message or in an event that the
//! message emitted when it ran.

use vstd::prelude::*;
use crate::error::Error;
use crate::event::extend::find_attribute;
use crate::event::{lookup, EventAttribute};
use crate::ibc::{get_shielded_transfer, spec_get_shielded_transfer, IbcEvent};
use crate::storage::{BlockHeight, TxIndex};
use crate::text::{parse_u32, spec_parse_u32};
use crate::tx::{
    copy_keys, spec_get_section, Decoded, IbcMessage, Key, MsgShieldedTransfer, Transaction,
    TransactionView, Transfer, Tx, TxData, WrapperTx,
};

verus! {

/// The attribute that holds the result of the execution of a transaction.
pub const INNER_TX: &'static str = "inner_tx";

/// The attribute that marks a valid shielded transaction with its index in
/// the block.
pub const IS_VALID_MASP_TX: &'static str = "is_valid_masp_tx";

/// What the execution of a transaction left behind.
#[derive(Clone, Debug, PartialEq, Eq)]
pub struct TxResult {
    /// The storage keys that the transaction changed.
    pub changed_keys: Vec<Key>,
    /// The events that messages between chains emitted, in the order of the
    /// record.
    pub ibc_events: Vec<IbcEvent>,
}

/// An event that the ledger emitted for an executed transaction. The ledger
/// gives each key once.
#[derive(Clone, Debug, PartialEq, Eq)]
pub struct TxEvent {
    /// The attributes of the event, as text.
    pub attributes: Vec<EventAttribute>,
    /// What the value of the `inner_tx` attribute decodes to. It says nothing
    /// of an event without that attribute.
    pub inner_tx: Decoded<TxResult>,
}

/// What the ledger node answers when asked for the results of a block.
#[derive(Clone, Debug, PartialEq, Eq)]
pub struct BlockResults {
    /// The events emitted at the end of the block, if the node kept any.
    pub end_block_events: Option<Vec<TxEvent>>,
}

/// A ledger node that can be asked for the results of a block.
pub trait Client {
    /// Whether `response` is something that the node may answer when it is
    /// asked for the block at `height`. A kind of node that says nothing
    /// else may answer anything.
    open spec fn may_answer(&self, height: u32, response: Result<BlockResults, String>) -> bool {
        true
    }

    /// The results of the block at `height`, or why the node gave none.
    fn block_results(&self, height: u32) -> (response: Result<BlockResults, String>)
        ensures
            self.may_answer(height, response),
    ;
}

/// Where the event of a transaction comes from.
pub enum ExtractShieldedActionArg<'args, C: Client> {
    /// The event of a successful execution, verified by the caller.
    Event(&'args TxEvent),
    /// A node to ask for the event, with the height of the block and the
    /// index below which events are passed over.
    Request((&'args C, BlockHeight, Option<TxIndex>)),
}

/// The changed keys and the shielded payload of a transaction.
pub type Extracted = (Vec<Key>, Transaction);

/// What an extraction holds.
pub struct ExtractedView {
    pub changed_keys: Seq<Key>,
    pub masp_tx: TransactionView,
}

/// The outcome of an extraction, by what it holds.
pub open spec fn outcome(r: Result<Extracted, Error>) -> Result<ExtractedView, Error> {
    match r {
        Ok(x) => Ok(ExtractedView { changed_keys: x.0@, masp_tx: x.1@ }),
        Err(e) => Err(e),
    }
}

/// The event that an extraction works with: one that the caller gave, or the
/// outcome of asking the node for one.
pub enum EventSource {
    Given(TxEvent),
    Queried(Result<TxEvent, Error>),
}

impl EventSource {
    /// The event that the caller gave, if any.
    pub open spec fn given(self) -> Option<TxEvent> {
        match self {
            EventSource::Given(ev) => Some(ev),
            EventSource::Queried(_) => None,
        }
    }
}

impl<'args, C: Client> ExtractShieldedActionArg<'args, C> {
    /// The event that the caller gave, if any.
    pub open spec fn spec_event(self) -> Option<TxEvent> {
        match self {
            ExtractShieldedActionArg::Event(ev) => Some(*ev),
            ExtractShieldedActionArg::Request(_) => None,
        }
    }

    /// The event that the caller gave, if any.
    pub fn event(&self) -> (r: Option<&'args TxEvent>)
        ensures
            r == match self.spec_event() {
                Some(ev) => Some(&ev),
                None => None,
            },
    {
        match self {
            ExtractShieldedActionArg::Event(ev) => Some(*ev),
            ExtractShieldedActionArg::Request(_) => None,
        }
    }
}

// ---------------------------------------------------------------------------
// Events of a block
// ---------------------------------------------------------------------------
/// The index that an event gives for a valid shielded transaction: none on an
/// event without the marker, an error on a marker that is no number.
pub open spec fn spec_masp_index(event: TxEvent) -> Result<Option<u32>, Error> {
    match lookup(event.attributes@, IS_VALID_MASP_TX@) {
        None => Ok(None),
        Some(text) => match spec_parse_u32(text) {
            Some(n) => Ok(Some(n)),
            None => Err(Error::MalformedTxIndex),
        },
    }
}

/// The events of a block that mark a valid shielded transaction at index
/// `first` or later, each with its index, in the order of the block. The first
/// malformed marker fails the whole.
pub open spec fn spec_indexed_masp_events(events: Seq<TxEvent>, first: u32) -> Result<
    Seq<(TxIndex, TxEvent)>,
    Error,
>
    decreases events.len(),
{
    if events.len() == 0 {
        Ok(Seq::empty())
    } else {
        match spec_indexed_masp_events(events.drop_last(), first) {
            Err(e) => Err(e),
            Ok(kept) => match spec_masp_index(events.last()) {
                Err(e) => Err(e),
                Ok(None) => Ok(kept),
                Ok(Some(n)) => if n >= first {
                    Ok(kept.push((TxIndex(n), events.last())))
                } else {
                    Ok(kept)
                },
            },
        }
    }
}

/// The index below which events are passed over: that of the request, or 0.
pub open spec fn spec_first_index(first_idx_to_query: Option<TxIndex>) -> u32 {
    match first_idx_to_query {
        Some(i) => i.0,
        None => 0,
    }
}

/// What the answer of a node holds for a request: the indexed events of valid
/// shielded transactions, none where the node kept no events.
pub open spec fn spec_events_of_response(
    response: Result<BlockResults, String>,
    first_idx_to_query: Option<TxIndex>,
) -> Result<Option<Seq<(TxIndex, TxEvent)>>, Error> {
    match response {
        Err(e) => Err(Error::Query(e)),
        Ok(results) => match results.end_block_events {
            None => Ok(None),
            Some(events) => match spec_indexed_masp_events(
                events@,
                spec_first_index(first_idx_to_query),
            ) {
                Ok(kept) => Ok(Some(kept)),
                Err(e) => Err(e),
            },
        },
    }
}

/// The event that a request settles on: the first of the indexed events.
pub open spec fn spec_first_masp_event(
    response: Result<BlockResults, String>,
    height: BlockHeight,
    first_idx_to_query: Option<TxIndex>,
) -> Result<TxEvent, Error> {
    match spec_events_of_response(response, first_idx_to_query) {
        Err(e) => Err(e),
        Ok(None) => Err(Error::MissingIbcEvent(height)),
        Ok(Some(kept)) => if kept.len() == 0 {
            Err(Error::MissingIbcEvent(height))
        } else {
            Ok(kept[0].1)
        },
    }
}

/// The index with which an event marks a valid shielded transaction.
pub fn masp_index(event: &TxEvent) -> (r: Result<Option<u32>, Error>)
    ensures
        r == spec_masp_index(*event),
{
    match find_attribute(&event.attributes, IS_VALID_MASP_TX) {
        None => Ok(None),
        Some(i) => match parse_u32(event.attributes[i].value.as_str()) {
            Some(n) => Ok(Some(n)),
            None => Err(Error::MalformedTxIndex),
        },
    }
}

/// Keeps, of the events of a block, those that mark a valid shielded
/// transaction at index `first_idx_to_query` or later.
pub fn indexed_masp_events(events: Vec<TxEvent>, first_idx_to_query: Option<TxIndex>) -> (r: Result<
    Vec<(TxIndex, TxEvent)>,
    Error,
>)
    ensures
        match r {
            Ok(kept) => spec_indexed_masp_events(events@, spec_first_index(first_idx_to_query))
                == Ok::<Seq<(TxIndex, TxEvent)>, Error>(kept@),
            Err(e) => spec_indexed_masp_events(events@, spec_first_index(first_idx_to_query))
                == Err::<Seq<(TxIndex, TxEvent)>, Error>(e),
        },
{
    let first: u32 = match first_idx_to_query {
        Some(i) => i.0,
        None => 0,
    };
    let ghost all = events@;
    let mut kept: Vec<(TxIndex, TxEvent)> = Vec::new();
    assert(all.take(0) =~= Seq::<TxEvent>::empty());
    for event in it: events
        invariant
            it.seq() == all,
            first == spec_first_index(first_idx_to_query),
            spec_indexed_masp_events(all.take(it.index() as int), first) == Ok::<
                Seq<(TxIndex, TxEvent)>,
                Error,
            >(kept@),
    {
        let ghost i = it.index() as int;
        proof {
            assert(all.take(i + 1).drop_last() =~= all.take(i));
            assert(all.take(i + 1).last() == event);
        }
        match masp_index(&event) {
            Err(e) => {
                proof {
                    lemma_indexed_masp_events_error(all, first, i + 1);
                }
                return Err(e);
            },
            Ok(None) => {},
            Ok(Some(n)) => {
                if n >= first {
                    kept.push((TxIndex(n), event));
                }
            },
        }
    }
    assert(all.take(all.len() as int) =~= all);
    Ok(kept)
}

/// An error among the first `n` events is the error of the whole block.
proof fn lemma_indexed_masp_events_error(events: Seq<TxEvent>, first: u32, n: int)
    requires
        0 <= n <= events.len(),
        spec_indexed_masp_events(events.take(n), first) is Err,
    ensures
        spec_indexed_masp_events(events, first) == spec_indexed_masp_events(events.take(n), first),
    decreases events.len() - n,
{
    if n == events.len() {
        assert(events.take(n) =~= events);
    } else {
        assert(events.take(n + 1).drop_last() =~= events.take(n));
        lemma_indexed_masp_events_error(events, first, n + 1);
    }
}

/// What a reading of the events of a block holds.
pub open spec fn events_outcome(r: Result<Option<Vec<(TxIndex, TxEvent)>>, Error>) -> Result<
    Option<Seq<(TxIndex, TxEvent)>>,
    Error,
> {
    match r {
        Ok(Some(kept)) => Ok(Some(kept@)),
        Ok(None) => Ok(None),
        Err(e) => Err(e),
    }
}

/// Reads the answer of a node to a request for the events of a block.
pub fn events_of_response(
    response: Result<BlockResults, String>,
    first_idx_to_query: Option<TxIndex>,
) -> (r: Result<Option<Vec<(TxIndex, TxEvent)>>, Error>)
    ensures
        events_outcome(r) == spec_events_of_response(response, first_idx_to_query),
{
    match response {
        Err(e) => Err(Error::Query(e)),
        Ok(results) => match results.end_block_events {
            None => Ok(None),
            Some(events) => match indexed_masp_events(events, first_idx_to_query) {
                Ok(kept) => Ok(Some(kept)),
                Err(e) => Err(e),
            },
        },
    }
}

/// The height that a node is asked for: the low 32 bits of the block height.
pub open spec fn spec_queried_height(height: BlockHeight) -> u32 {
    (height.0 % 0x1_0000_0000) as u32
}

/// The height that a node is asked for: the low 32 bits of the block height.
pub fn queried_height(height: BlockHeight) -> (r: u32)
    ensures
        r == spec_queried_height(height),
{
    (height.0 % 0x1_0000_0000) as u32
}

/// Retrieves all the indexes and events at the specified height which refer
/// to a valid shielded transaction. If an index is given, it keeps only the
/// transactions with an index equal or greater to the provided one. The node
/// is asked once, for [`spec_queried_height`]; what it answers is read as
/// [`spec_events_of_response`] says.
pub fn get_indexed_masp_events_at_height<C: Client>(
    client: &C,
    height: BlockHeight,
    first_idx_to_query: Option<TxIndex>,
) -> (r: Result<Option<Vec<(TxIndex, TxEvent)>>, Error>)
    ensures
        exists|response: Result<BlockResults, String>|
            #[trigger] client.may_answer(spec_queried_height(height), response) && events_outcome(
                r,
            ) == spec_events_of_response(response, first_idx_to_query),
{
    let response = client.block_results(queried_height(height));
    let ghost given = response;
    let r = events_of_response(response, first_idx_to_query);
    assert(client.may_answer(spec_queried_height(height), given) && events_outcome(r)
        == spec_events_of_response(given, first_idx_to_query));
    r
}

/// The first event of a valid shielded transaction in the answer of a node.
pub fn first_masp_event(
    response: Result<BlockResults, String>,
    height: BlockHeight,
    first_idx_to_query: Option<TxIndex>,
) -> (r: Result<TxEvent, Error>)
    ensures
        r == spec_first_masp_event(response, height, first_idx_to_query),
{
    match events_of_response(response, first_idx_to_query) {
        Err(e) => Err(e),
        Ok(None) => Err(Error::MissingIbcEvent(height)),
        Ok(Some(kept)) => {
            let mut kept = kept;
            if kept.len() == 0 {
                Err(Error::MissingIbcEvent(height))
            } else {
                let (_, event) = kept.swap_remove(0);
                Ok(event)
            }
        },
    }
}

// ---------------------------------------------------------------------------
// Changed keys
// ---------------------------------------------------------------------------
/// The keys that a transaction changed, as its event tells. Without an event
/// there is nothing to tell them: the set is empty.
pub open spec fn spec_changed_keys(event: Option<TxEvent>) -> Result<Seq<Key>, Error> {
    match event {
        None => Ok(Seq::empty()),
        Some(ev) => match lookup(ev.attributes@, INNER_TX@) {
            None => Err(Error::MissingTxResult),
            Some(_) => match ev.inner_tx {
                Decoded::Value(result) => Ok(result.changed_keys@),
                Decoded::Malformed(e) => Err(Error::MalformedTxResult(e)),
            },
        },
    }
}

/// The keys that a transaction changed, as its event tells.
pub fn changed_keys(event: Option<&TxEvent>) -> (r: Result<Vec<Key>, Error>)
    ensures
        match r {
            Ok(keys) => spec_changed_keys(
                match event {
                    Some(ev) => Some(*ev),
                    None => None,
                },
            ) == Ok::<Seq<Key>, Error>(keys@),
            Err(e) => spec_changed_keys(
                match event {
                    Some(ev) => Some(*ev),
                    None => None,
                },
            ) == Err::<Seq<Key>, Error>(e),
        },
{
    match event {
        None => Ok(Vec::new()),
        Some(ev) => match find_attribute(&ev.attributes, INNER_TX) {
            None => Err(Error::MissingTxResult),
            Some(_) => match &ev.inner_tx {
                Decoded::Value(result) => Ok(copy_keys(&result.changed_keys)),
                Decoded::Malformed(e) => Err(Error::MalformedTxResult(e.clone())),
            },
        },
    }
}

// ---------------------------------------------------------------------------
// Payloads in sections
// ---------------------------------------------------------------------------
/// The payload in the section that `hash` names, or `missing` where the
/// transaction has no such section.
pub open spec fn spec_section_payload(tx: Tx, hash: crate::tx::Hash, missing: Error) -> Result<
    TransactionView,
    Error,
> {
    match spec_get_section(tx.sections@, hash) {
        None => Err(missing),
        Some(section) => match section.masp_tx {
            None => Err(Error::MissingMaspTransaction),
            Some(payload) => Ok(payload@),
        },
    }
}

/// A payload with the keys that its transaction changed. The payload is
/// looked for first: its error comes before that of the keys.
pub open spec fn spec_with_changed_keys(
    payload: Result<TransactionView, Error>,
    event: Option<TxEvent>,
) -> Result<ExtractedView, Error> {
    match payload {
        Err(e) => Err(e),
        Ok(masp_tx) => match spec_changed_keys(event) {
            Err(e) => Err(e),
            Ok(changed_keys) => Ok(ExtractedView { changed_keys, masp_tx }),
        },
    }
}

/// The section that unshields the fee: the one that the header names, where
/// the header is looked at and is that of a wrapper that names one.
pub open spec fn spec_unshield_section(tx: Tx, check_header: bool) -> Option<crate::tx::Hash> {
    if check_header {
        match tx.header.wrapper {
            Some(wrapper) => wrapper.unshield_section_hash,
            None => None,
        }
    } else {
        None
    }
}

/// The payload that unshields the fee of a wrapper, in the section that the
/// wrapper names.
pub open spec fn spec_fee_unshielding(tx: Tx, hash: crate::tx::Hash, event: Option<TxEvent>) -> Result<
    ExtractedView,
    Error,
> {
    spec_with_changed_keys(spec_section_payload(tx, hash, Error::MissingUnshieldSection), event)
}

/// The payload that a transfer names.
pub open spec fn spec_transfer_payload(tx: Tx, transfer: Transfer, event: Option<TxEvent>) -> Result<
    ExtractedView,
    Error,
> {
    match transfer.shielded {
        None => Err(Error::MissingMaspSectionHash),
        Some(hash) => spec_with_changed_keys(
            spec_section_payload(tx, hash, Error::MissingMaspSection),
            event,
        ),
    }
}

/// The payload in the section that `hash` names.
pub fn section_payload(tx: &Tx, hash: &crate::tx::Hash, missing: Error) -> (r: Result<Transaction, Error>)
    ensures
        match r {
            Ok(payload) => spec_section_payload(*tx, *hash, missing) == Ok::<
                TransactionView,
                Error,
            >(payload@),
            Err(e) => spec_section_payload(*tx, *hash, missing) == Err::<TransactionView, Error>(e),
        },
{
    match tx.get_section(hash) {
        None => Err(missing),
        Some(section) => match section.masp_tx() {
            None => Err(Error::MissingMaspTransaction),
            Some(payload) => Ok(payload),
        },
    }
}

/// Joins a payload with the keys that its transaction changed.
pub fn with_changed_keys(payload: Result<Transaction, Error>, event: Option<&TxEvent>) -> (r: Result<
    Extracted,
    Error,
>)
    ensures
        outcome(r) == spec_with_changed_keys(
            match payload {
                Ok(p) => Ok(p@),
                Err(e) => Err(e),
            },
            match event {
                Some(ev) => Some(*ev),
                None => None,
            },
        ),
{
    match payload {
        Err(e) => Err(e),
        Ok(masp_tx) => match changed_keys(event) {
            Err(e) => Err(e),
            Ok(changed_keys) => Ok((changed_keys, masp_tx)),
        },
    }
}

// ---------------------------------------------------------------------------
// Payloads of messages between chains
// ---------------------------------------------------------------------------
/// The payload of a shielded transfer between chains: it stands in the
/// message. The changed keys come from the event; without an event there is
/// nothing to tell them, and the set is empty.
pub open spec fn spec_shielded_transfer_payload(
    msg: MsgShieldedTransfer,
    event: Option<TxEvent>,
) -> Result<ExtractedView, Error> {
    match event {
        None => Ok(
            ExtractedView { changed_keys: Seq::empty(), masp_tx: msg.shielded_transfer.masp_tx@ },
        ),
        Some(ev) => match lookup(ev.attributes@, INNER_TX@) {
            None => Err(Error::MissingChangedKeys),
            Some(_) => match ev.inner_tx {
                Decoded::Malformed(e) => Err(Error::MalformedTxResult(e)),
                Decoded::Value(result) => Ok(
                    ExtractedView {
                        changed_keys: result.changed_keys@,
                        masp_tx: msg.shielded_transfer.masp_tx@,
                    },
                ),
            },
        },
    }
}

/// The payload of the first of `events` that carries a shielded transfer. An
/// event that cannot be read carries none.
pub open spec fn spec_first_shielded_transfer(events: Seq<IbcEvent>) -> Option<TransactionView>
    decreases events.len(),
{
    if events.len() == 0 {
        None
    } else {
        match spec_get_shielded_transfer(events[0]) {
            Ok(Some(transfer)) => Some(transfer.masp_tx@),
            _ => spec_first_shielded_transfer(events.drop_first()),
        }
    }
}

/// The payload of a message in an envelope: that of the first event with a
/// shielded transfer among those that the execution emitted.
pub open spec fn spec_envelope_payload(event: TxEvent) -> Result<ExtractedView, Error> {
    match lookup(event.attributes@, INNER_TX@) {
        None => Err(Error::MissingShieldedTransfer),
        Some(_) => match event.inner_tx {
            Decoded::Malformed(e) => Err(Error::MalformedTxResult(e)),
            Decoded::Value(result) => match spec_first_shielded_transfer(result.ibc_events@) {
                None => Err(Error::MissingShieldedTransfer),
                Some(masp_tx) => Ok(ExtractedView { changed_keys: result.changed_keys@, masp_tx }),
            },
        },
    }
}

/// The payload of a message between chains.
pub open spec fn spec_ibc_payload(message: Decoded<IbcMessage>, source: EventSource) -> Result<
    ExtractedView,
    Error,
> {
    match message {
        Decoded::Malformed(e) => Err(Error::InvalidIbcMessage(e)),
        Decoded::Value(IbcMessage::ShieldedTransfer(msg)) => spec_shielded_transfer_payload(
            msg,
            source.given(),
        ),
        Decoded::Value(IbcMessage::Envelope) => match source {
            EventSource::Given(ev) => spec_envelope_payload(ev),
            EventSource::Queried(Ok(ev)) => spec_envelope_payload(ev),
            EventSource::Queried(Err(e)) => Err(e),
        },
        Decoded::Value(IbcMessage::Transfer) => Err(Error::NotShieldedAction),
    }
}

/// Extracts the payload of a shielded transfer between chains.
pub fn shielded_transfer_payload(msg: &MsgShieldedTransfer, event: Option<&TxEvent>) -> (r: Result<
    Extracted,
    Error,
>)
    ensures
        outcome(r) == spec_shielded_transfer_payload(
            *msg,
            match event {
                Some(ev) => Some(*ev),
                None => None,
            },
        ),
{
    match event {
        None => Ok((Vec::new(), msg.shielded_transfer.masp_tx.duplicate())),
        Some(ev) => match find_attribute(&ev.attributes, INNER_TX) {
            None => Err(Error::MissingChangedKeys),
            Some(_) => match &ev.inner_tx {
                Decoded::Malformed(e) => Err(Error::MalformedTxResult(e.clone())),
                Decoded::Value(result) => Ok(
                    (copy_keys(&result.changed_keys), msg.shielded_transfer.masp_tx.duplicate()),
                ),
            },
        },
    }
}

/// The payload of the first of `events` that carries a shielded transfer.
pub fn first_shielded_transfer(events: &Vec<IbcEvent>) -> (r: Option<Transaction>)
    ensures
        match r {
            Some(payload) => spec_first_shielded_transfer(events@) == Some(payload@),
            None => spec_first_shielded_transfer(events@).is_none(),
        },
{
    let mut i: usize = 0;
    assert(events@.skip(0) =~= events@);
    while i < events.len()
        invariant
            i <= events@.len(),
            spec_first_shielded_transfer(events@) == spec_first_shielded_transfer(
                events@.skip(i as int),
            ),
        decreases events@.len() - i,
    {
        let ghost rest = events@.skip(i as int);
        assert(rest[0] == events@[i as int]);
        assert(rest.drop_first() =~= events@.skip(i + 1));
        match get_shielded_transfer(&events[i]) {
            Ok(Some(transfer)) => {
                return Some(transfer.masp_tx.duplicate());
            },
            _ => {},
        }
        i += 1;
    }
    None
}

/// Extracts the payload of a message in an envelope from the event of its
/// execution.
pub fn envelope_payload(event: &TxEvent) -> (r: Result<Extracted, Error>)
    ensures
        outcome(r) == spec_envelope_payload(*event),
{
    match find_attribute(&event.attributes, INNER_TX) {
        None => Err(Error::MissingShieldedTransfer),
        Some(_) => match &event.inner_tx {
            Decoded::Malformed(e) => Err(Error::MalformedTxResult(e.clone())),
            Decoded::Value(result) => match first_shielded_transfer(&result.ibc_events) {
                None => Err(Error::MissingShieldedTransfer),
                Some(masp_tx) => Ok((copy_keys(&result.changed_keys), masp_tx)),
            },
        },
    }
}

/// What the extraction from a message between chains comes to for an
/// argument. With an event in hand the outcome is fixed. With a request, a
/// message in an envelope has the node asked for [`spec_queried_height`], and
/// the outcome is fixed by what the node answers; for any other message the
/// node is not asked, and the outcome is the same whatever it would answer.
pub open spec fn spec_ibc_outcome<'args, C: Client>(
    message: Decoded<IbcMessage>,
    args: ExtractShieldedActionArg<'args, C>,
    r: Result<ExtractedView, Error>,
) -> bool {
    match args {
        ExtractShieldedActionArg::Event(ev) => r == spec_ibc_payload(message, EventSource::Given(*ev)),
        ExtractShieldedActionArg::Request((client, height, first_idx_to_query)) => if message
            == Decoded::Value(IbcMessage::Envelope) {
            exists|response: Result<BlockResults, String>|
                #[trigger] client.may_answer(spec_queried_height(height), response) && r
                    == spec_ibc_payload(
                    message,
                    EventSource::Queried(spec_first_masp_event(response, height, first_idx_to_query)),
                )
        } else {
            forall|queried: Result<TxEvent, Error>|
                r == #[trigger] spec_ibc_payload(message, EventSource::Queried(queried))
        },
    }
}

/// Extract the changed keys and the payload from the data of a message
/// between chains. The node is asked only for a message in an envelope that
/// came without its event; the answer is read by [`first_masp_event`].
pub fn extract_payload_from_shielded_action<'args, C: Client>(
    tx_data: &TxData,
    args: ExtractShieldedActionArg<'args, C>,
) -> (r: Result<Extracted, Error>)
    ensures
        spec_ibc_outcome(tx_data.ibc, args, outcome(r)),
{
    match &tx_data.ibc {
        Decoded::Malformed(e) => Err(Error::InvalidIbcMessage(e.clone())),
        Decoded::Value(IbcMessage::ShieldedTransfer(msg)) => shielded_transfer_payload(
            msg,
            args.event(),
        ),
        Decoded::Value(IbcMessage::Envelope) => match args {
            ExtractShieldedActionArg::Event(event) => envelope_payload(event),
            ExtractShieldedActionArg::Request((client, height, index)) => {
                let response = client.block_results(queried_height(height));
                let ghost given = response;
                let r = match first_masp_event(response, height, index) {
                    Err(e) => Err(e),
                    Ok(event) => envelope_payload(&event),
                };
                assert(client.may_answer(spec_queried_height(height), given) && outcome(r)
                    == spec_ibc_payload(
                    tx_data.ibc,
                    EventSource::Queried(spec_first_masp_event(given, height, index)),
                ));
                r
            },
        },
        Decoded::Value(IbcMessage::Transfer) => Err(Error::NotShieldedAction),
    }
}

// ---------------------------------------------------------------------------
// The whole extraction
// ---------------------------------------------------------------------------
/// The changed keys and the shielded payload of a transaction, in order of
/// priority: the section that unshields the fee, where the transaction names
/// one; the section that the data names as a transfer; the data as a message
/// between chains.
pub open spec fn spec_extract_masp_tx(tx: Tx, source: EventSource, check_header: bool) -> Result<
    ExtractedView,
    Error,
> {
    match spec_unshield_section(tx, check_header) {
        Some(hash) => spec_fee_unshielding(tx, hash, source.given()),
        None => match tx.data {
            None => Err(Error::MissingDataSection),
            Some(data) => match data.transfer {
                Some(transfer) => spec_transfer_payload(tx, transfer, source.given()),
                None => spec_ibc_payload(data.ibc, source),
            },
        },
    }
}

/// Whether the extraction looks for the payload of a transaction in the
/// events of a message in an envelope.
pub open spec fn spec_reads_envelope(tx: Tx, check_header: bool) -> bool {
    &&& spec_unshield_section(tx, check_header).is_none()
    &&& tx.data matches Some(data) && data.transfer.is_none() && data.ibc == Decoded::Value(
        IbcMessage::Envelope,
    )
}

/// What the extraction comes to for an argument. With an event in hand the
/// outcome is fixed. With a request, the node is asked only where the payload
/// is that of a message in an envelope: it is asked for
/// [`spec_queried_height`], and the outcome is fixed by what it answers.
/// Where it is not asked, the outcome is the same whatever it would answer.
pub open spec fn spec_extract_outcome<'args, C: Client>(
    tx: Tx,
    action_arg: ExtractShieldedActionArg<'args, C>,
    check_header: bool,
    r: Result<ExtractedView, Error>,
) -> bool {
    match action_arg {
        ExtractShieldedActionArg::Event(ev) => r == spec_extract_masp_tx(
            tx,
            EventSource::Given(*ev),
            check_header,
        ),
        ExtractShieldedActionArg::Request((client, height, first_idx_to_query)) => if spec_reads_envelope(
            tx,
            check_header,
        ) {
            exists|response: Result<BlockResults, String>|
                #[trigger] client.may_answer(spec_queried_height(height), response) && r
                    == spec_extract_masp_tx(
                    tx,
                    EventSource::Queried(spec_first_masp_event(response, height, first_idx_to_query)),
                    check_header,
                )
        } else {
            forall|queried: Result<TxEvent, Error>|
                r == #[trigger] spec_extract_masp_tx(tx, EventSource::Queried(queried), check_header)
        },
    }
}

/// The section that unshields the fee, where the transaction names one.
pub fn unshield_section(tx: &Tx, check_header: bool) -> (r: Option<crate::tx::Hash>)
    ensures
        r == spec_unshield_section(*tx, check_header),
{
    if check_header {
        match tx.header().wrapper() {
            Some(wrapper) => wrapper.unshield_section_hash,
            None => None,
        }
    } else {
        None
    }
}

/// Extract the relevant shielded portions of a [`Tx`], if any.
pub fn extract_masp_tx<'args, C: Client>(
    tx: &Tx,
    action_arg: ExtractShieldedActionArg<'args, C>,
    check_header: bool,
) -> (r: Result<Extracted, Error>)
    ensures
        spec_extract_outcome(*tx, action_arg, check_header, outcome(r)),
{
    // A section attached to a transaction proves nothing: the payload is
    // looked for under the digests that the header and the data commit to.
    if let Some(hash) = unshield_section(tx, check_header) {
        return with_changed_keys(
            section_payload(tx, &hash, Error::MissingUnshieldSection),
            action_arg.event(),
        );
    }
    match tx.data() {
        None => Err(Error::MissingDataSection),
        Some(tx_data) => match tx_data.transfer {
            Some(transfer) => match transfer.shielded {
                None => Err(Error::MissingMaspSectionHash),
                Some(hash) => with_changed_keys(
                    section_payload(tx, &hash, Error::MissingMaspSection),
                    action_arg.event(),
                ),
            },
            None => {
                // This should be a shielded action between chains: a shielded
                // transfer or an envelope.
                extract_payload_from_shielded_action(tx_data, action_arg)
            },
        },
    }
}

/// Whether a node has one answer, and no other, when it is asked for the
/// block at `height`.
pub open spec fn spec_one_answer<C: Client>(client: &C, height: u32) -> bool {
    forall|a: Result<BlockResults, String>, b: Result<BlockResults, String>|
        #[trigger] client.may_answer(height, a) && #[trigger] client.may_answer(height, b) ==> a
            == b
}

/// Whether the extraction comes to the same whenever it is made: with an
/// event in hand, with a request where the node is not asked, and with a
/// request where the node is asked and has one answer for the height.
pub open spec fn spec_settled<'args, C: Client>(
    tx: Tx,
    action_arg: ExtractShieldedActionArg<'args, C>,
    check_header: bool,
) -> bool {
    match action_arg {
        ExtractShieldedActionArg::Event(_) => true,
        ExtractShieldedActionArg::Request((client, height, _)) => !spec_reads_envelope(
            tx,
            check_header,
        ) || spec_one_answer(client, spec_queried_height(height)),
    }
}

/// Extracting twice from the same transaction in the same context yields
/// identical changed keys and payload: wherever the context is an event, and
/// with a request wherever the node is not asked or has one answer for the
/// height. (A node that may answer twice in two ways decides the outcome
/// anew each time.)
pub proof fn lemma_extraction_is_repeatable<'args, C: Client>(
    tx: Tx,
    action_arg: ExtractShieldedActionArg<'args, C>,
    check_header: bool,
    first: Result<Extracted, Error>,
    second: Result<Extracted, Error>,
)
    requires
        spec_extract_outcome(tx, action_arg, check_header, outcome(first)),
        spec_extract_outcome(tx, action_arg, check_header, outcome(second)),
        spec_settled(tx, action_arg, check_header),
    ensures
        outcome(first) == outcome(second),
        first matches Ok(a) ==> second matches Ok(b) && a.0@ == b.0@ && a.1@ == b.1@,
        first matches Err(e) ==> second == Err::<Extracted, Error>(e),
{
    match action_arg {
        ExtractShieldedActionArg::Event(_) => {},
        ExtractShieldedActionArg::Request((client, height, first_idx_to_query)) => {
            if spec_reads_envelope(tx, check_header) {
                let asked = spec_queried_height(height);
                let a = choose|response: Result<BlockResults, String>|
                    #[trigger] client.may_answer(asked, response) && outcome(first)
                        == spec_extract_masp_tx(
                        tx,
                        EventSource::Queried(
                            spec_first_masp_event(response, height, first_idx_to_query),
                        ),
                        check_header,
                    );
                let b = choose|response: Result<BlockResults, String>|
                    #[trigger] client.may_answer(asked, response) && outcome(second)
                        == spec_extract_masp_tx(
                        tx,
                        EventSource::Queried(
                            spec_first_masp_event(response, height, first_idx_to_query),
                        ),
                        check_header,
                    );
                assert(a == b);
            } else {
                let unasked: Result<TxEvent, Error> = Err(Error::MissingDataSection);
                assert(outcome(first) == spec_extract_masp_tx(
                    tx,
                    EventSource::Queried(unasked),
                    check_header,
                ));
                assert(outcome(second) == spec_extract_masp_tx(
                    tx,
                    EventSource::Queried(unasked),
                    check_header,
                ));
            }
        },
    }
}

/// Extract the payload from the given [`Tx`]: its wrapper header, and the
/// transfer that its data holds, if it holds one.
pub fn extract_payload(tx: Tx, wrapper: &mut Option<WrapperTx>, transfer: &mut Option<Transfer>) -> (r:
    Result<(), Error>)
    ensures
        r.is_ok(),
        *final(wrapper) == tx.header.wrapper,
        *final(transfer) == match tx.data {
            Some(TxData { transfer: Some(t), .. }) => Some(t),
            _ => *old(transfer),
        },
{
    *wrapper = tx.header.wrapper();
    match tx.data() {
        Some(data) => match data.transfer {
            Some(t) => {
                *transfer = Some(t);
            },
            None => {},
        },
        None => {},
    }
    Ok(())
}

} // verus!
