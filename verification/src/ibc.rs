//! Events of transfers between chains.

use vstd::prelude::*;
use crate::event::extend::AttributesMap;
use crate::event::{AttributeTable, EventError};
use crate::text::str_eq;
use vstd::string::*;
use crate::tx::{
    hex_upper, hex_upper_decode, lemma_hex_upper_injective, spec_hex_decode_limit,
    spec_hex_encode_limit, spec_hex_upper, Decoded, IbcShieldedTransfer,
};

verus! {

/// The event type for receiving a token.
pub const EVENT_TYPE_PACKET: &'static str = "fungible_token_packet";

/// An event that a message between chains emitted when it ran.
#[derive(Clone, Debug, PartialEq, Eq)]
pub struct IbcEvent {
    /// The event type.
    pub event_type: String,
    /// The attributes of the event.
    pub attributes: AttributeTable,
    /// Whether the value of the `receiver` attribute is a shielded address.
    /// It says nothing of an event without that attribute.
    pub receiver_is_shielded: bool,
    /// What the value of the `memo` attribute decodes to. It says nothing of
    /// an event without that attribute.
    pub memo: Decoded<IbcShieldedTransfer>,
}

/// Errors of reading events of transfers between chains.
#[derive(Clone, Debug, PartialEq, Eq)]
pub enum Error {
    /// An attribute of the event does not decode.
    Event(EventError),
    /// A memo is not written in upper-case hexadecimal.
    DecodingHex,
}

/// The memo that carries the bytes of a shielded transfer: the bytes in
/// upper-case hexadecimal. No more bytes are written in one go than
/// [`spec_hex_encode_limit`] says, which is what the machine allows.
pub fn memo_from_bytes(bytes: &Vec<u8>) -> (memo: String)
    requires
        bytes@.len() <= spec_hex_encode_limit(),
    ensures
        memo@ == spec_hex_upper(bytes@),
{
    hex_upper(bytes.as_slice())
}

/// The bytes of the shielded transfer that a memo carries. A memo that is
/// not the upper-case hexadecimal text of any bytes is an error. No longer
/// memo is read in one go than [`spec_hex_decode_limit`] says, which is what
/// the machine allows.
pub fn memo_to_bytes(memo: &str) -> (r: Result<Vec<u8>, Error>)
    requires
        memo.spec_bytes().len() <= spec_hex_decode_limit(),
    ensures
        match r {
            Ok(bytes) => memo@ == spec_hex_upper(bytes@),
            Err(e) => e == Error::DecodingHex && forall|bytes: Seq<u8>|
                memo@ != #[trigger] spec_hex_upper(bytes),
        },
{
    match hex_upper_decode(memo) {
        Ok(bytes) => Ok(bytes),
        Err(_) => Err(Error::DecodingHex),
    }
}

/// The bytes that were written into a memo are the bytes that are read from
/// it.
pub proof fn lemma_memo_round_trip(bytes: Seq<u8>, memo: Seq<char>, read: Seq<u8>)
    requires
        memo == spec_hex_upper(bytes),
        memo == spec_hex_upper(read),
    ensures
        read == bytes,
{
    lemma_hex_upper_injective(read, bytes);
}

/// Whether a text is a truth value.
pub open spec fn spec_is_bool_text(s: Seq<char>) -> bool {
    s == "true"@ || s == "false"@
}

/// Whether the event tells of a token that was received with success at a
/// shielded address.
pub open spec fn spec_is_shielded_receipt(event: IbcEvent) -> bool {
    &&& event.event_type@ == EVENT_TYPE_PACKET@
    &&& event.attributes@.contains_key("success"@)
    &&& spec_is_bool_text(event.attributes@["success"@])
    &&& event.attributes@.contains_key("receiver"@)
    &&& event.receiver_is_shielded
}

/// The shielded transfer that an event carries: none unless the event is the
/// receipt of a token at a shielded address and has a memo; the memo must then
/// decode.
pub open spec fn spec_get_shielded_transfer(event: IbcEvent) -> Result<
    Option<IbcShieldedTransfer>,
    Error,
> {
    if !spec_is_shielded_receipt(event) || !event.attributes@.contains_key("memo"@) {
        Ok(None)
    } else {
        match event.memo {
            Decoded::Value(t) => Ok(Some(t)),
            Decoded::Malformed(e) => Err(Error::Event(EventError::AttributeRetrieval(e))),
        }
    }
}

/// Get the shielded transfer from the memo.
pub fn get_shielded_transfer(event: &IbcEvent) -> (r: Result<Option<&IbcShieldedTransfer>, Error>)
    ensures
        r == match spec_get_shielded_transfer(*event) {
            Ok(Some(t)) => Ok(Some(&t)),
            Ok(None) => Ok(None),
            Err(e) => Err(e),
        },
{
    if !str_eq(event.event_type.as_str(), EVENT_TYPE_PACKET) {
        // This event is not for receiving a token
        return Ok(None);
    }
    let is_success = match event.attributes.retrieve_attribute("success") {
        Some(v) => str_eq(v, "true") || str_eq(v, "false"),
        None => false,
    };
    let is_shielded = event.attributes.is_attribute("receiver") && event.receiver_is_shielded;
    if !is_success || !is_shielded {
        return Ok(None);
    }
    if !event.attributes.is_attribute("memo") {
        return Ok(None);
    }
    match &event.memo {
        Decoded::Value(t) => Ok(Some(t)),
        Decoded::Malformed(e) => Err(Error::Event(EventError::AttributeRetrieval(e.clone()))),
    }
}

} // verus!
