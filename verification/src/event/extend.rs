//! Reading and extending the attributes of events.

use vstd::prelude::*;
use crate::event::{as_map, lemma_lookup_push, lemma_lookup_skip, lemma_lookup_update, lookup};
use crate::event::{AttributeTable, Event, EventAttribute, EventError, EventLevel, EventType};
use crate::ibc::IbcEvent;
use crate::tx::{hex_upper, spec_hex_upper};
use crate::storage::{BlockHeight, TxIndex};
use crate::text::{decimal, parse_u32, parse_u64, spec_decimal, spec_parse_u32, spec_parse_u64, str_eq};
use vstd::string::*;

verus! {

/// What a map of attributes holds after `key` was inserted with `value`: a
/// key that was absent is given the value; one that was present takes the new
/// value where the map replaces, and keeps its own where it does not.
pub open spec fn spec_inserted(
    attributes: Map<Seq<char>, Seq<char>>,
    key: Seq<char>,
    value: Seq<char>,
    replaces: bool,
) -> Map<Seq<char>, Seq<char>> {
    if attributes.contains_key(key) && !replaces {
        attributes
    } else {
        attributes.insert(key, value)
    }
}

/// Map of event attributes.
pub trait AttributesMap {
    /// The attributes as a map from keys to values.
    spec fn attributes(&self) -> Map<Seq<char>, Seq<char>>;

    /// Whether a value that is inserted under a key that is present takes the
    /// place of the value that is there.
    spec fn replaces() -> bool;

    /// Insert a new attribute.
    fn insert_attribute(&mut self, key: String, value: String)
        ensures
            final(self).attributes() == spec_inserted(
                old(self).attributes(),
                key@,
                value@,
                Self::replaces(),
            ),
    ;

    /// Retrieve an attribute.
    fn retrieve_attribute(&self, key: &str) -> (r: Option<&str>)
        ensures
            r.is_some() == self.attributes().contains_key(key@),
            r matches Some(v) ==> v@ == self.attributes()[key@],
    ;

    /// Check for the existence of an attribute.
    fn is_attribute(&self, key: &str) -> (r: bool)
        ensures
            r == self.attributes().contains_key(key@),
    ;
}

/// The position of the first attribute with `key`, if there is one.
pub fn find_attribute(attrs: &Vec<EventAttribute>, key: &str) -> (r: Option<usize>)
    ensures
        match r {
            Some(i) => i < attrs@.len() && attrs@[i as int].key@ == key@ && lookup(attrs@, key@)
                == Some(attrs@[i as int].value@) && forall|j: int|
                0 <= j < i ==> attrs@[j].key@ != key@,
            None => lookup(attrs@, key@).is_none() && forall|j: int|
                0 <= j < attrs@.len() ==> attrs@[j].key@ != key@,
        },
{
    let mut i: usize = 0;
    while i < attrs.len()
        invariant
            i <= attrs@.len(),
            forall|j: int| 0 <= j < i ==> attrs@[j].key@ != key@,
        decreases attrs@.len() - i,
    {
        if str_eq(attrs[i].key.as_str(), key) {
            proof {
                lemma_lookup_skip(attrs@, key@, i as int);
                assert(attrs@.skip(i as int)[0] == attrs@[i as int]);
            }
            return Some(i);
        }
        i += 1;
    }
    proof {
        lemma_lookup_skip(attrs@, key@, attrs@.len() as int);
    }
    None
}

impl AttributesMap for Vec<EventAttribute> {
    open spec fn attributes(&self) -> Map<Seq<char>, Seq<char>> {
        as_map(self@)
    }

    /// The value of the first attribute with a key is the one that counts.
    open spec fn replaces() -> bool {
        false
    }

    /// Adds the attribute at the end; a key that was present keeps its value.
    fn insert_attribute(&mut self, key: String, value: String)
        ensures
            final(self)@ == old(self)@.push(EventAttribute { key, value, index: true }),
    {
        let attr = EventAttribute { key, value, index: true };
        proof {
            assert forall|k: Seq<char>|
                lookup(self@.push(attr), k) == if lookup(self@, k).is_some() {
                    lookup(self@, k)
                } else if attr.key@ == k {
                    Some(attr.value@)
                } else {
                    None
                } by {
                lemma_lookup_push(self@, attr, k);
            }
            if as_map(self@).contains_key(attr.key@) {
                assert(as_map(self@.push(attr)) =~= as_map(self@));
            } else {
                assert(as_map(self@.push(attr)) =~= as_map(self@).insert(attr.key@, attr.value@));
            }
        }
        self.push(attr);
    }

    fn retrieve_attribute(&self, key: &str) -> (r: Option<&str>) {
        match find_attribute(self, key) {
            Some(i) => Some(self[i].value.as_str()),
            None => None,
        }
    }

    fn is_attribute(&self, key: &str) -> (r: bool) {
        find_attribute(self, key).is_some()
    }
}

impl AttributesMap for AttributeTable {
    open spec fn attributes(&self) -> Map<Seq<char>, Seq<char>> {
        self@
    }

    /// The value that was inserted last under a key is the one that counts.
    open spec fn replaces() -> bool {
        true
    }

    /// Gives `key` the value `value`, whether it was present or not.
    fn insert_attribute(&mut self, key: String, value: String)
        ensures
            final(self)@ == old(self)@.insert(key@, value@),
    {
        let attr = EventAttribute { key, value, index: true };
        match find_attribute(&self.entries, attr.key.as_str()) {
            Some(i) => {
                proof {
                    assert forall|k: Seq<char>|
                        lookup(self.entries@.update(i as int, attr), k) == if k == attr.key@ {
                            Some(attr.value@)
                        } else {
                            lookup(self.entries@, k)
                        } by {
                        lemma_lookup_update(self.entries@, i as int, attr, k);
                    }
                    assert(as_map(self.entries@.update(i as int, attr)) =~= as_map(
                        self.entries@,
                    ).insert(attr.key@, attr.value@));
                }
                self.entries.set(i, attr);
            },
            None => {
                proof {
                    assert forall|k: Seq<char>|
                        lookup(self.entries@.push(attr), k) == if lookup(self.entries@, k).is_some() {
                            lookup(self.entries@, k)
                        } else if attr.key@ == k {
                            Some(attr.value@)
                        } else {
                            None
                        } by {
                        lemma_lookup_push(self.entries@, attr, k);
                    }
                    assert(as_map(self.entries@.push(attr)) =~= as_map(self.entries@).insert(
                        attr.key@,
                        attr.value@,
                    ));
                }
                self.entries.push(attr);
            },
        }
    }

    fn retrieve_attribute(&self, key: &str) -> (r: Option<&str>) {
        match find_attribute(&self.entries, key) {
            Some(i) => Some(self.entries[i].value.as_str()),
            None => None,
        }
    }

    fn is_attribute(&self, key: &str) -> (r: bool) {
        find_attribute(&self.entries, key).is_some()
    }
}


/// A value that can stand as the text of an attribute.
pub trait AttributeText {
    /// The text of the value.
    spec fn text(&self) -> Seq<char>;

    /// The text of the value.
    fn to_text(&self) -> (r: String)
        ensures
            r@ == self.text(),
    ;
}

impl AttributeText for String {
    open spec fn text(&self) -> Seq<char> {
        self@
    }

    fn to_text(&self) -> (r: String) {
        self.clone()
    }
}

impl AttributeText for BlockHeight {
    open spec fn text(&self) -> Seq<char> {
        spec_decimal(self.0 as nat)
    }

    fn to_text(&self) -> (r: String) {
        decimal(self.0)
    }
}

impl AttributeText for TxIndex {
    open spec fn text(&self) -> Seq<char> {
        spec_decimal(self.0 as nat)
    }

    fn to_text(&self) -> (r: String) {
        decimal(self.0 as u64)
    }
}

impl AttributeText for u64 {
    open spec fn text(&self) -> Seq<char> {
        spec_decimal(*self as nat)
    }

    fn to_text(&self) -> (r: String) {
        decimal(*self)
    }
}

/// A value that can be read from the text of an attribute.
pub trait FromAttributeText: Sized {
    /// Whether `text` writes the value `value`.
    spec fn writes(text: Seq<char>, value: Self) -> bool;

    /// Whether `text` writes a value at all.
    spec fn readable(text: Seq<char>) -> bool;

    /// Reads the value that a text writes; the error says why it writes none.
    fn from_text(text: &str) -> (r: Result<Self, String>)
        ensures
            r.is_ok() == Self::readable(text@),
            r matches Ok(value) ==> Self::writes(text@, value),
    ;
}

impl FromAttributeText for String {
    open spec fn writes(text: Seq<char>, value: String) -> bool {
        value@ == text
    }

    open spec fn readable(text: Seq<char>) -> bool {
        true
    }

    fn from_text(text: &str) -> (r: Result<String, String>) {
        Ok(text.to_owned())
    }
}

impl FromAttributeText for BlockHeight {
    open spec fn writes(text: Seq<char>, value: BlockHeight) -> bool {
        spec_parse_u64(text) == Some(value.0)
    }

    open spec fn readable(text: Seq<char>) -> bool {
        spec_parse_u64(text).is_some()
    }

    fn from_text(text: &str) -> (r: Result<BlockHeight, String>) {
        match parse_u64(text) {
            Some(n) => Ok(BlockHeight(n)),
            None => Err("invalid block height".to_owned()),
        }
    }
}

impl FromAttributeText for TxIndex {
    open spec fn writes(text: Seq<char>, value: TxIndex) -> bool {
        spec_parse_u32(text) == Some(value.0)
    }

    open spec fn readable(text: Seq<char>) -> bool {
        spec_parse_u32(text).is_some()
    }

    fn from_text(text: &str) -> (r: Result<TxIndex, String>) {
        match parse_u32(text) {
            Some(n) => Ok(TxIndex(n)),
            None => Err("invalid transaction index".to_owned()),
        }
    }
}

impl FromAttributeText for u64 {
    open spec fn writes(text: Seq<char>, value: u64) -> bool {
        spec_parse_u64(text) == Some(value)
    }

    open spec fn readable(text: Seq<char>) -> bool {
        spec_parse_u64(text).is_some()
    }

    fn from_text(text: &str) -> (r: Result<u64, String>) {
        match parse_u64(text) {
            Some(n) => Ok(n),
            None => Err("invalid number".to_owned()),
        }
    }
}

/// Represents an entry in the attributes of an event.
pub trait EventAttributeEntry<'a> {
    /// Key to read or write and event attribute to.
    const KEY: &'static str;

    /// Data to be stored in the given `KEY`.
    type Value;

    /// Identical to [`Self::Value`], with the exception that this
    /// should be an owned variant of that type.
    type ValueOwned;

    /// The data to be stored in the given `KEY`.
    spec fn value(&self) -> Self::Value;

    /// Return the data to be stored in the given `KEY`.
    fn into_value(self) -> (r: Self::Value)
        ensures
            r == self.value(),
    ;
}

/// Extend an event with block height information.
pub struct Height(pub BlockHeight);

impl EventAttributeEntry<'static> for Height {
    type Value = BlockHeight;

    type ValueOwned = BlockHeight;

    const KEY: &'static str = "height";

    open spec fn value(&self) -> BlockHeight {
        self.0
    }

    fn into_value(self) -> (r: BlockHeight) {
        self.0
    }
}

/// Extend an event with log data.
pub struct Log(pub String);

impl EventAttributeEntry<'static> for Log {
    type Value = String;

    type ValueOwned = String;

    const KEY: &'static str = "log";

    open spec fn value(&self) -> String {
        self.0
    }

    fn into_value(self) -> (r: String) {
        self.0
    }
}

/// Extend an event with info data.
pub struct Info(pub String);

impl EventAttributeEntry<'static> for Info {
    type Value = String;

    type ValueOwned = String;

    const KEY: &'static str = "info";

    open spec fn value(&self) -> String {
        self.0
    }

    fn into_value(self) -> (r: String) {
        self.0
    }
}

/// Extend an event with `is_valid_masp_tx` data.
pub struct ValidMaspTx(pub TxIndex);

impl EventAttributeEntry<'static> for ValidMaspTx {
    type Value = TxIndex;

    type ValueOwned = TxIndex;

    const KEY: &'static str = "is_valid_masp_tx";

    open spec fn value(&self) -> TxIndex {
        self.0
    }

    fn into_value(self) -> (r: TxIndex) {
        self.0
    }
}

/// Extend an event with gas used data.
pub struct GasUsed(pub u64);

impl EventAttributeEntry<'static> for GasUsed {
    type Value = u64;

    type ValueOwned = u64;

    const KEY: &'static str = "gas_used";

    open spec fn value(&self) -> u64 {
        self.0
    }

    fn into_value(self) -> (r: u64) {
        self.0
    }
}

/// Extend an event with additional attributes.
pub trait ExtendEventAttributes: Sized {
    /// The key of the attribute that is added.
    spec fn attribute_key(&self) -> Seq<char>;

    /// The text of the attribute that is added.
    spec fn attribute_text(&self) -> Seq<char>;

    /// Add additional attributes to some event.
    fn extend_event_attributes<A>(self, attributes: &mut A) where A: AttributesMap
        ensures
            final(attributes).attributes() == spec_inserted(
                old(attributes).attributes(),
                self.attribute_key(),
                self.attribute_text(),
                A::replaces(),
            ),
    ;
}

impl<'value, DATA> ExtendEventAttributes for DATA where
    DATA: EventAttributeEntry<'value>,
    DATA::Value: AttributeText,
 {
    open spec fn attribute_key(&self) -> Seq<char> {
        DATA::KEY@
    }

    open spec fn attribute_text(&self) -> Seq<char> {
        self.value().text()
    }

    fn extend_event_attributes<A>(self, attributes: &mut A) where A: AttributesMap {
        let value = self.into_value();
        attributes.insert_attribute(DATA::KEY.to_owned(), value.to_text());
    }
}

/// Extend a map of attributes with event attribute related methods.
pub trait ExtendAttributesMap: Sized {
    /// What the map holds.
    spec fn held(&self) -> Map<Seq<char>, Seq<char>>;

    /// Whether the map replaces the value of a key that is present.
    spec fn replacing() -> bool;

    /// Insert a new attribute into a map of event attributes.
    fn with_attribute<DATA>(&mut self, data: DATA) where DATA: ExtendEventAttributes
        ensures
            final(self).held() == spec_inserted(
                old(self).held(),
                data.attribute_key(),
                data.attribute_text(),
                Self::replacing(),
            ),
    ;
}

impl<A: AttributesMap> ExtendAttributesMap for A {
    open spec fn held(&self) -> Map<Seq<char>, Seq<char>> {
        self.attributes()
    }

    open spec fn replacing() -> bool {
        A::replaces()
    }

    fn with_attribute<DATA>(&mut self, data: DATA) where DATA: ExtendEventAttributes {
        data.extend_event_attributes(self);
    }
}

/// The error of an attribute that is not there.
pub fn attribute_not_present(key: &str) -> (r: EventError)
    ensures
        r matches EventError::AttributeRetrieval(message) && message@ == "Attribute "@ + key@
            + " not present"@,
{
    let mut message = "Attribute ".to_owned();
    message.append(key);
    message.append(" not present");
    EventError::AttributeRetrieval(message)
}

/// Read an attribute from the attributes of an event.
pub trait ReadFromEventAttributes<'value> {
    /// The attribute to be read.
    type Value;

    /// The key of the attribute.
    spec fn read_key() -> Seq<char>;

    /// Whether `text` writes the value `value`.
    spec fn read_as(text: Seq<char>, value: Self::Value) -> bool;

    /// Whether `text` writes a value at all.
    spec fn can_read(text: Seq<char>) -> bool;

    /// Read an attribute from the provided event attributes: the value that
    /// its text writes. An attribute that is absent, and one whose text
    /// writes no value, is an error.
    fn read_from_event_attributes<A>(attributes: &A) -> (r: Result<Self::Value, EventError>) where
        A: AttributesMap,

        ensures
            r.is_ok() == (attributes.attributes().contains_key(Self::read_key()) && Self::can_read(
                attributes.attributes()[Self::read_key()],
            )),
            r matches Ok(value) ==> Self::read_as(attributes.attributes()[Self::read_key()], value),
            r matches Err(e) ==> e is AttributeRetrieval,
    ;
}

impl<'value, DATA> ReadFromEventAttributes<'value> for DATA where
    DATA: EventAttributeEntry<'value>,
    <DATA as EventAttributeEntry<'value>>::ValueOwned: FromAttributeText,
 {
    type Value = <DATA as EventAttributeEntry<'value>>::ValueOwned;

    open spec fn read_key() -> Seq<char> {
        DATA::KEY@
    }

    open spec fn read_as(text: Seq<char>, value: Self::Value) -> bool {
        <<DATA as EventAttributeEntry<'value>>::ValueOwned as FromAttributeText>::writes(text, value)
    }

    open spec fn can_read(text: Seq<char>) -> bool {
        <<DATA as EventAttributeEntry<'value>>::ValueOwned as FromAttributeText>::readable(text)
    }

    fn read_from_event_attributes<A>(attributes: &A) -> (r: Result<Self::Value, EventError>) where
        A: AttributesMap,
     {
        match attributes.retrieve_attribute(DATA::KEY) {
            None => Err(attribute_not_present(DATA::KEY)),
            Some(encoded_value) => match <<DATA as EventAttributeEntry<
                'value,
            >>::ValueOwned as FromAttributeText>::from_text(encoded_value) {
                Ok(value) => Ok(value),
                Err(err) => Err(EventError::AttributeRetrieval(err)),
            },
        }
    }
}

/// Read a raw (string encoded) attribute from the attributes of an event.
pub trait RawReadFromEventAttributes<'value> {
    /// The key of the attribute.
    spec fn raw_key() -> Seq<char>;

    /// Check if the associated attribute is present in the provided event
    /// attributes.
    fn check_if_present_in<A>(attributes: &A) -> (r: bool) where A: AttributesMap
        ensures
            r == attributes.attributes().contains_key(Self::raw_key()),
    ;

    /// Read a string encoded attribute from the provided event attributes.
    fn raw_read_from_event_attributes<A>(attributes: &A) -> (r: Result<&str, EventError>) where
        A: AttributesMap,

        ensures
            r.is_ok() == attributes.attributes().contains_key(Self::raw_key()),
            r matches Ok(text) ==> text@ == attributes.attributes()[Self::raw_key()],
            r matches Err(e) ==> e is AttributeRetrieval,
    ;
}

impl<'value, DATA> RawReadFromEventAttributes<'value> for DATA where
    DATA: EventAttributeEntry<'value>,
 {
    open spec fn raw_key() -> Seq<char> {
        DATA::KEY@
    }

    fn check_if_present_in<A>(attributes: &A) -> (r: bool) where A: AttributesMap {
        attributes.is_attribute(DATA::KEY)
    }

    fn raw_read_from_event_attributes<A>(attributes: &A) -> (r: Result<&str, EventError>) where
        A: AttributesMap,
     {
        match attributes.retrieve_attribute(DATA::KEY) {
            Some(text) => Ok(text),
            None => Err(attribute_not_present(DATA::KEY)),
        }
    }
}

/// The key of an entry.
pub open spec fn spec_key<'a, DATA: EventAttributeEntry<'a>>() -> Seq<char> {
    DATA::KEY@
}

/// Checks for the presence of an attribute in the provided attributes map.
pub trait EventAttributeChecker<'value, A> where A: AttributesMap {
    /// The key of the attribute that is looked for.
    spec fn key(&self) -> Seq<char>;

    /// Check if the associated attribute is present in the provided event
    /// attributes.
    fn is_present(&self, attributes: &A) -> (r: bool)
        ensures
            r == attributes.attributes().contains_key(self.key()),
    ;
}

/// The checker of one kind of attribute.
pub struct EventAttributeCheckerImpl<A> {
    key: &'static str,
    attributes: core::marker::PhantomData<A>,
}

impl<'value, A> EventAttributeChecker<'value, A> for EventAttributeCheckerImpl<A> where
    A: AttributesMap,
 {
    closed spec fn key(&self) -> Seq<char> {
        self.key@
    }

    fn is_present(&self, attributes: &A) -> (r: bool) {
        attributes.is_attribute(self.key)
    }
}

/// Return a new implementation of [`EventAttributeChecker`], which looks for
/// the attribute of the entry `DATA`.
pub fn attribute_checker<'value, DATA, ATTR>() -> (r: EventAttributeCheckerImpl<ATTR>) where
    DATA: EventAttributeEntry<'value> + 'static,
    ATTR: AttributesMap,

    ensures
        r.key() == spec_key::<DATA>(),
{
    EventAttributeCheckerImpl { key: DATA::KEY, attributes: core::marker::PhantomData }
}

/// The kinds of a dispatch list whose attribute is present, in the order of
/// the list.
pub open spec fn spec_present_kinds<'value, K, A: AttributesMap, C: EventAttributeChecker<'value, A>>(
    attributes: &A,
    dispatch_list: Seq<(K, C)>,
) -> Seq<K>
    decreases dispatch_list.len(),
{
    if dispatch_list.len() == 0 {
        Seq::empty()
    } else {
        let earlier = spec_present_kinds(attributes, dispatch_list.drop_last());
        if attributes.attributes().contains_key(dispatch_list.last().1.key()) {
            earlier.push(dispatch_list.last().0)
        } else {
            earlier
        }
    }
}

/// What a run of calls of a callback on `kinds` looks like: the calls are
/// made in order, each but the last says to continue, and kinds are left over
/// only where the last call said to break off.
pub open spec fn spec_dispatched<K, F: FnMut(K) -> core::ops::ControlFlow<()>>(
    dispatch: F,
    kinds: Seq<K>,
    results: Seq<core::ops::ControlFlow<()>>,
) -> bool {
    &&& results.len() <= kinds.len()
    &&& forall|i: int|
        0 <= i < results.len() ==> call_ensures(dispatch, (kinds[i],), #[trigger] results[i])
    &&& forall|i: int|
        0 <= i < results.len() - 1 ==> (#[trigger] results[i]) is Continue
    &&& results.len() < kinds.len() ==> results.len() > 0 && results.last() is Break
}

/// Dispatch a callback on a list of attribute kinds: on each kind whose
/// attribute is present, in the order of the list, until the callback breaks
/// off. Returns the number of calls made.
pub fn dispatch_attribute<'value, K, A, C, F>(
    attributes: &A,
    dispatch_list: Vec<(K, C)>,
    mut dispatch: F,
) -> (calls: usize) where
    A: AttributesMap,
    C: EventAttributeChecker<'value, A>,
    F: FnMut(K) -> core::ops::ControlFlow<()>,

    requires
        forall|kind: K| call_requires(dispatch, (kind,)),
    ensures
        exists|results: Seq<core::ops::ControlFlow<()>>|
            results.len() == calls && #[trigger] spec_dispatched(
                dispatch,
                spec_present_kinds(attributes, dispatch_list@),
                results,
            ),
{
    let ghost all = dispatch_list@;
    let ghost callback = dispatch;
    let ghost mut results: Seq<core::ops::ControlFlow<()>> = Seq::empty();
    let total = dispatch_list.len();
    let mut calls: usize = 0;
    let mut stopped = false;
    assert(all.take(0) =~= Seq::<(K, C)>::empty());
    for pair in it: dispatch_list
        invariant
            it.seq() == all,
            all.len() == total,
            dispatch == callback,
            forall|kind: K| call_requires(callback, (kind,)),
            results.len() == calls,
            calls <= it.index(),
            spec_dispatched(
                callback,
                spec_present_kinds(attributes, all.take(it.index() as int)),
                results,
            ),
            stopped ==> calls > 0 && results.last() is Break,
            !stopped ==> calls == spec_present_kinds(attributes, all.take(it.index() as int)).len()
                && forall|i: int| 0 <= i < results.len() ==> (#[trigger] results[i]) is Continue,
    {
        let (kind, checker) = pair;
        let ghost found = spec_present_kinds(attributes, all.take(it.index() as int));
        proof {
            let i = it.index() as int;
            assert(all.take(i + 1).drop_last() =~= all.take(i));
            assert(all.take(i + 1).last() == pair);
        }
        if !stopped && checker.is_present(attributes) {
            calls += 1;
            let answer = dispatch(kind);
            proof {
                results = results.push(answer);
                assert(found.push(kind)[calls - 1] == kind);
            }
            if let core::ops::ControlFlow::Break(_) = answer {
                stopped = true;
            }
        }
    }
    proof {
        assert(all.take(all.len() as int) =~= all);
    }
    calls
}


impl AttributeText for crate::tx::Hash {
    open spec fn text(&self) -> Seq<char> {
        spec_hex_upper(self.0@)
    }

    fn to_text(&self) -> (r: String) {
        hex_upper(self.0.as_slice())
    }
}

/// Extend an event with transaction hash information.
pub struct TxHash(pub crate::tx::Hash);

impl EventAttributeEntry<'static> for TxHash {
    type Value = crate::tx::Hash;

    type ValueOwned = crate::tx::Hash;

    const KEY: &'static str = "hash";

    open spec fn value(&self) -> crate::tx::Hash {
        self.0
    }

    fn into_value(self) -> (r: crate::tx::Hash) {
        self.0
    }
}

/// Extend an event with additional data.
pub trait ExtendEvent: Sized {
    /// The attributes of an event that had `attributes` and was extended.
    spec fn extended(&self, attributes: Map<Seq<char>, Seq<char>>) -> Map<Seq<char>, Seq<char>>;

    /// Add additional data to the specified `event`.
    fn extend_event(self, event: &mut Event)
        ensures
            final(event).attributes@ == self.extended(old(event).attributes@),
            final(event).event_type == old(event).event_type,
            final(event).level == old(event).level,
    ;
}

impl<E: ExtendEventAttributes> ExtendEvent for E {
    open spec fn extended(&self, attributes: Map<Seq<char>, Seq<char>>) -> Map<
        Seq<char>,
        Seq<char>,
    > {
        attributes.insert(self.attribute_key(), self.attribute_text())
    }

    fn extend_event(self, event: &mut Event) {
        self.extend_event_attributes(&mut event.attributes);
    }
}

/// An event to be emitted.
pub trait EventToEmit: Sized {
    /// The domain of the event to emit.
    ///
    /// This may be used to group events of a certain kind.
    const DOMAIN: &'static str;

    /// The type of the event that is emitted.
    spec fn emitted_type(&self) -> EventType;

    /// The level of the event that is emitted.
    spec fn emitted_level(&self) -> EventLevel;

    /// The attributes of the event that is emitted.
    spec fn emitted_attributes(&self) -> Map<Seq<char>, Seq<char>>;

    /// The event that is emitted.
    fn into_event(self) -> (r: Event)
        ensures
            r.event_type == self.emitted_type(),
            r.level == self.emitted_level(),
            r.attributes@ == self.emitted_attributes(),
    ;
}

impl EventToEmit for Event {
    const DOMAIN: &'static str = "generic";

    open spec fn emitted_type(&self) -> EventType {
        self.event_type
    }

    open spec fn emitted_level(&self) -> EventLevel {
        self.level
    }

    open spec fn emitted_attributes(&self) -> Map<Seq<char>, Seq<char>> {
        self.attributes@
    }

    fn into_event(self) -> (r: Event) {
        self
    }
}

impl EventToEmit for IbcEvent {
    const DOMAIN: &'static str = "ibc";

    open spec fn emitted_type(&self) -> EventType {
        EventType::Ibc(self.event_type)
    }

    open spec fn emitted_level(&self) -> EventLevel {
        EventLevel::Tx
    }

    open spec fn emitted_attributes(&self) -> Map<Seq<char>, Seq<char>> {
        self.attributes@
    }

    fn into_event(self) -> (r: Event) {
        Event {
            event_type: EventType::Ibc(self.event_type),
            level: EventLevel::Tx,
            attributes: self.attributes,
        }
    }
}

/// Event composed of various other event extensions.
#[derive(Clone, Debug)]
pub struct CompositeEvent<DATA, E> {
    base_event: E,
    data: DATA,
}

impl<E, DATA> CompositeEvent<DATA, E> {
    /// The event that is extended.
    pub closed spec fn base_event(&self) -> E {
        self.base_event
    }

    /// The data that extends the event.
    pub closed spec fn data(&self) -> DATA {
        self.data
    }

    /// Create a new composed event.
    pub fn new(base_event: E, data: DATA) -> (r: Self)
        ensures
            r.base_event() == base_event,
            r.data() == data,
    {
        Self { base_event, data }
    }
}

impl<E, DATA> EventToEmit for CompositeEvent<DATA, E> where E: EventToEmit, DATA: ExtendEvent {
    const DOMAIN: &'static str = E::DOMAIN;

    open spec fn emitted_type(&self) -> EventType {
        self.base_event().emitted_type()
    }

    open spec fn emitted_level(&self) -> EventLevel {
        self.base_event().emitted_level()
    }

    open spec fn emitted_attributes(&self) -> Map<Seq<char>, Seq<char>> {
        self.data().extended(self.base_event().emitted_attributes())
    }

    fn into_event(self) -> (r: Event) {
        let CompositeEvent { base_event, data } = self;
        let mut event = base_event.into_event();
        data.extend_event(&mut event);
        event
    }
}

/// Provides event composition routines.
pub trait ComposeEvent: Sized {
    /// Compose an event with new data.
    fn with<NEW>(self, data: NEW) -> (r: CompositeEvent<NEW, Self>)
        ensures
            r.base_event() == self,
            r.data() == data,
    ;
}

impl<E> ComposeEvent for E where E: EventToEmit {
    fn with<NEW>(self, data: NEW) -> (r: CompositeEvent<NEW, E>) {
        CompositeEvent::new(self, data)
    }
}


/// Whether `event` is the event that `source` emits.
pub open spec fn emits<E: EventToEmit>(source: E, event: Event) -> bool {
    &&& event.event_type == source.emitted_type()
    &&& event.level == source.emitted_level()
    &&& event.attributes@ == source.emitted_attributes()
}

/// Used in sub-systems that may emit events.
pub trait EmitEvents {
    /// The events that were emitted, in their order.
    spec fn emitted(&self) -> Seq<Event>;

    /// Emit a single event.
    fn emit<E>(&mut self, event: E) where E: EventToEmit
        ensures
            final(self).emitted().len() == old(self).emitted().len() + 1,
            final(self).emitted().drop_last() == old(self).emitted(),
            emits(event, final(self).emitted().last()),
    ;

    /// Emit a batch of events.
    fn emit_many<E>(&mut self, event_batch: Vec<E>) where E: EventToEmit
        ensures
            final(self).emitted().len() == old(self).emitted().len() + event_batch@.len(),
            final(self).emitted().take(old(self).emitted().len() as int) == old(self).emitted(),
            forall|i: int|
                0 <= i < event_batch@.len() ==> emits(
                    #[trigger] event_batch@[i],
                    final(self).emitted()[old(self).emitted().len() + i],
                ),
    ;
}

impl EmitEvents for Vec<Event> {
    open spec fn emitted(&self) -> Seq<Event> {
        self@
    }

    fn emit<E>(&mut self, event: E) where E: EventToEmit {
        let emitted = event.into_event();
        self.push(emitted);
        assert(self@.drop_last() =~= old(self)@);
    }

    fn emit_many<E>(&mut self, event_batch: Vec<E>) where E: EventToEmit {
        let ghost all = event_batch@;
        let ghost before = self@;
        assert(self@.take(before.len() as int) =~= before);
        for event in it: event_batch
            invariant
                it.seq() == all,
                self@.len() == before.len() + it.index(),
                self@.take(before.len() as int) == before,
                forall|i: int|
                    0 <= i < it.index() ==> emits(#[trigger] all[i], self@[before.len() + i]),
        {
            let ghost held = self@;
            self.emit(event);
            assert(self@.drop_last() == held);
            assert(self@.take(before.len() as int) =~= held.take(before.len() as int));
            assert forall|i: int| 0 <= i < it.index() + 1 implies emits(
                #[trigger] all[i],
                self@[before.len() + i],
            ) by {
                if i < it.index() {
                    assert(self@[before.len() + i] == held[before.len() + i]);
                }
            }
        }
    }
}

} // verus!
