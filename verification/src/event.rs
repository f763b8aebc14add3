//! Ledger events and their text attributes.

pub mod extend;

use vstd::prelude::*;
use vstd::string::*;
use crate::event::extend::{find_attribute, ExtendEvent};
use crate::text::str_eq;

verus! {

/// One attribute of an event as the ledger node reports it: a key, a value and
/// whether the node indexes it.
#[derive(Clone, Debug, PartialEq, Eq)]
pub struct EventAttribute {
    pub key: String,
    pub value: String,
    pub index: bool,
}

/// The value that a list of attributes gives to `key`: that of the first
/// attribute with this key.
pub open spec fn lookup(attrs: Seq<EventAttribute>, key: Seq<char>) -> Option<Seq<char>>
    decreases attrs.len(),
{
    if attrs.len() == 0 {
        None
    } else if attrs[0].key@ == key {
        Some(attrs[0].value@)
    } else {
        lookup(attrs.drop_first(), key)
    }
}

/// A list of attributes read as a map from keys to values.
pub open spec fn as_map(attrs: Seq<EventAttribute>) -> Map<Seq<char>, Seq<char>> {
    Map::new(|k: Seq<char>| lookup(attrs, k).is_some(), |k: Seq<char>| lookup(attrs, k).unwrap())
}

/// Looking a key up from position `i` on gives the same as from the start,
/// when no earlier attribute has the key.
pub proof fn lemma_lookup_skip(attrs: Seq<EventAttribute>, key: Seq<char>, i: int)
    requires
        0 <= i <= attrs.len(),
        forall|j: int| 0 <= j < i ==> attrs[j].key@ != key,
    ensures
        lookup(attrs, key) == lookup(attrs.skip(i), key),
    decreases i,
{
    if i == 0 {
        assert(attrs.skip(0) =~= attrs);
    } else {
        lemma_lookup_skip(attrs, key, i - 1);
        let s = attrs.skip(i - 1);
        assert(s[0] == attrs[i - 1]);
        assert(s.drop_first() =~= attrs.skip(i));
    }
}

/// An attribute added at the end is seen only under a key that was absent.
pub proof fn lemma_lookup_push(attrs: Seq<EventAttribute>, attr: EventAttribute, key: Seq<char>)
    ensures
        lookup(attrs.push(attr), key) == if lookup(attrs, key).is_some() {
            lookup(attrs, key)
        } else if attr.key@ == key {
            Some(attr.value@)
        } else {
            None
        },
    decreases attrs.len(),
{
    let pushed = attrs.push(attr);
    if attrs.len() == 0 {
        assert(pushed.drop_first() =~= attrs);
    } else {
        assert(pushed[0] == attrs[0]);
        assert(pushed.drop_first() =~= attrs.drop_first().push(attr));
        lemma_lookup_push(attrs.drop_first(), attr, key);
    }
}

/// Replacing the value of the first attribute with a key changes what that key
/// gives and nothing else.
pub proof fn lemma_lookup_update(
    attrs: Seq<EventAttribute>,
    i: int,
    attr: EventAttribute,
    key: Seq<char>,
)
    requires
        0 <= i < attrs.len(),
        attr.key@ == attrs[i].key@,
        forall|j: int| 0 <= j < i ==> attrs[j].key@ != attr.key@,
    ensures
        lookup(attrs.update(i, attr), key) == if key == attr.key@ {
            Some(attr.value@)
        } else {
            lookup(attrs, key)
        },
    decreases i,
{
    let updated = attrs.update(i, attr);
    if i == 0 {
        assert(updated.drop_first() =~= attrs.drop_first());
    } else {
        assert(updated[0] == attrs[0]);
        assert(updated.drop_first() =~= attrs.drop_first().update(i - 1, attr));
        lemma_lookup_update(attrs.drop_first(), i - 1, attr, key);
    }
}

/// Errors to do with events.
#[derive(Clone, Debug, PartialEq, Eq)]
pub enum EventError {
    /// Error when parsing an event type.
    InvalidEventType,
    /// An attribute is absent, or its value does not decode.
    AttributeRetrieval(String),
}

/// A table of attributes in which each key occurs once and a later value
/// replaces an earlier one.
#[derive(Clone, Debug, PartialEq, Eq)]
pub struct AttributeTable {
    pub entries: Vec<EventAttribute>,
}

impl View for AttributeTable {
    type V = Map<Seq<char>, Seq<char>>;

    open spec fn view(&self) -> Map<Seq<char>, Seq<char>> {
        as_map(self.entries@)
    }
}

impl AttributeTable {
    /// An empty table: it holds no attribute, and gives no key a value.
    pub fn new() -> (r: AttributeTable)
        ensures
            r.entries@ == Seq::<EventAttribute>::empty(),
            r@ == Map::<Seq<char>, Seq<char>>::empty(),
    {
        let r = AttributeTable { entries: Vec::new() };
        assert(r@ =~= Map::<Seq<char>, Seq<char>>::empty());
        r
    }

    /// An empty table with room for `capacity` attributes: whatever the
    /// room, it holds no attribute, and gives no key a value.
    pub fn with_capacity(capacity: usize) -> (r: AttributeTable)
        ensures
            r.entries@ == Seq::<EventAttribute>::empty(),
            r@ == Map::<Seq<char>, Seq<char>>::empty(),
    {
        let r = AttributeTable { entries: Vec::with_capacity(capacity) };
        assert(r@ =~= Map::<Seq<char>, Seq<char>>::empty());
        r
    }

    /// The number of attributes held.
    pub fn len(&self) -> (n: usize)
        ensures
            n == self.entries@.len(),
    {
        self.entries.len()
    }
}


/// Indicates if an event is emitted do to an individual transaction or the
/// nature of a finalized block.
#[derive(Clone, Copy, Debug, PartialEq, Eq, Structural)]
pub enum EventLevel {
    /// Indicates an event is to do with a finalized block.
    Block,
    /// Indicates an event is to do with an individual transaction.
    Tx,
}

impl EventLevel {
    /// The name of the level.
    pub open spec fn spec_name(&self) -> Seq<char> {
        match *self {
            EventLevel::Block => "block"@,
            EventLevel::Tx => "tx"@,
        }
    }

    /// The name of the level.
    pub fn to_string(&self) -> (r: String)
        ensures
            r@ == self.spec_name(),
    {
        match self {
            EventLevel::Block => "block".to_owned(),
            EventLevel::Tx => "tx".to_owned(),
        }
    }
}

/// The kinds of events.
#[derive(Clone, Debug, PartialEq, Eq)]
pub enum EventType {
    /// The transaction was accepted to be included in a block.
    Accepted,
    /// The transaction was applied during block finalization.
    Applied,
    /// The transaction between chains was applied during block finalization.
    Ibc(String),
    /// The proposal that has been executed.
    Proposal,
    /// The payment for public goods.
    PgfPayment,
    /// An event of the bridge.
    EthereumBridge,
}

/// The kind of event that a name stands for: none for a name that is not
/// known. An event between chains keeps its name.
pub open spec fn spec_event_type(name: Seq<char>, ibc_name: String) -> Option<EventType> {
    if name == "accepted"@ {
        Some(EventType::Accepted)
    } else if name == "applied"@ {
        Some(EventType::Applied)
    } else if name == "proposal"@ {
        Some(EventType::Proposal)
    } else if name == "pgf_payments"@ {
        Some(EventType::PgfPayment)
    } else if name == "update_client"@ || name == "send_packet"@ || name
        == "write_acknowledgement"@ {
        Some(EventType::Ibc(ibc_name))
    } else if name == "ethereum_bridge"@ {
        Some(EventType::EthereumBridge)
    } else {
        None
    }
}

impl EventType {
    /// The name of the kind.
    pub open spec fn spec_name(&self) -> Seq<char> {
        match *self {
            EventType::Accepted => "accepted"@,
            EventType::Applied => "applied"@,
            EventType::Ibc(t) => t@,
            EventType::Proposal => "proposal"@,
            EventType::PgfPayment => "pgf_payment"@,
            EventType::EthereumBridge => "ethereum_bridge"@,
        }
    }

    /// The name of the kind.
    pub fn to_string(&self) -> (r: String)
        ensures
            r@ == self.spec_name(),
    {
        match self {
            EventType::Accepted => "accepted".to_owned(),
            EventType::Applied => "applied".to_owned(),
            EventType::Ibc(t) => t.clone(),
            EventType::Proposal => "proposal".to_owned(),
            EventType::PgfPayment => "pgf_payment".to_owned(),
            EventType::EthereumBridge => "ethereum_bridge".to_owned(),
        }
    }

    /// The kind of event that a name stands for.
    pub fn from_str(s: &str) -> (r: Result<EventType, EventError>)
        ensures
            match r {
                Ok(EventType::Ibc(t)) => t@ == s@ && spec_event_type(s@, t) == Some(
                    EventType::Ibc(t),
                ),
                Ok(kind) => forall|t: String| spec_event_type(s@, t) == Some(kind),
                Err(e) => e == EventError::InvalidEventType && forall|t: String|
                    spec_event_type(s@, t).is_none(),
            },
    {
        if str_eq(s, "accepted") {
            Ok(EventType::Accepted)
        } else if str_eq(s, "applied") {
            Ok(EventType::Applied)
        } else if str_eq(s, "proposal") {
            Ok(EventType::Proposal)
        } else if str_eq(s, "pgf_payments") {
            Ok(EventType::PgfPayment)
        } else if str_eq(s, "update_client") || str_eq(s, "send_packet") || str_eq(
            s,
            "write_acknowledgement",
        ) {
            Ok(EventType::Ibc(s.to_owned()))
        } else if str_eq(s, "ethereum_bridge") {
            Ok(EventType::EthereumBridge)
        } else {
            Err(EventError::InvalidEventType)
        }
    }
}

/// Custom events that can be queried from the ledger node.
#[derive(Clone, Debug, PartialEq, Eq)]
pub struct Event {
    /// The type of event.
    pub event_type: EventType,
    /// The level of the event - whether it relates to a block or an individual
    /// transaction.
    pub level: EventLevel,
    /// Key-value attributes of the event.
    pub attributes: AttributeTable,
}

impl Event {
    /// Create an accepted tx event with empty attributes.
    pub fn accepted_tx() -> (r: Event)
        ensures
            r.event_type == EventType::Accepted,
            r.level == EventLevel::Tx,
            r.attributes@ == Map::<Seq<char>, Seq<char>>::empty(),
    {
        Event {
            event_type: EventType::Accepted,
            level: EventLevel::Tx,
            attributes: AttributeTable::new(),
        }
    }

    /// Create an applied tx event with empty attributes.
    pub fn applied_tx() -> (r: Event)
        ensures
            r.event_type == EventType::Applied,
            r.level == EventLevel::Tx,
            r.attributes@ == Map::<Seq<char>, Seq<char>>::empty(),
    {
        Event {
            event_type: EventType::Applied,
            level: EventLevel::Tx,
            attributes: AttributeTable::new(),
        }
    }

    /// Check if the events keys contains a given string.
    pub fn contains_key(&self, key: &str) -> (r: bool)
        ensures
            r == self.attributes@.contains_key(key@),
    {
        find_attribute(&self.attributes.entries, key).is_some()
    }

    /// Get the value corresponding to a given key, if it exists.
    /// Else return None.
    pub fn get(&self, key: &str) -> (r: Option<&String>)
        ensures
            r.is_some() == self.attributes@.contains_key(key@),
            r matches Some(v) ==> v@ == self.attributes@[key@],
    {
        match find_attribute(&self.attributes.entries, key) {
            Some(i) => Some(&self.attributes.entries[i].value),
            None => None,
        }
    }

    /// Extend this [`Event`] with additional data.
    pub fn extend<DATA>(&mut self, data: DATA) where DATA: ExtendEvent
        ensures
            final(self).attributes@ == data.extended(old(self).attributes@),
            final(self).event_type == old(self).event_type,
            final(self).level == old(self).level,
    {
        data.extend_event(self);
    }
}

} // verus!
