use std::cell::RefCell;

use shielded_sync::error::{Error, ErrorKind};
use shielded_sync::event::{AttributeTable, EventAttribute, EventError};
use shielded_sync::event::extend::AttributesMap;
use shielded_sync::extract::{
    changed_keys, envelope_payload, events_of_response, extract_masp_tx, extract_payload,
    extract_payload_from_shielded_action, first_masp_event, first_shielded_transfer,
    get_indexed_masp_events_at_height, indexed_masp_events, masp_index, queried_height,
    section_payload, shielded_transfer_payload, unshield_section, with_changed_keys,
    BlockResults, Client,
    ExtractShieldedActionArg, Extracted, TxEvent, TxResult,
};
use shielded_sync::ibc::{get_shielded_transfer, IbcEvent};
use shielded_sync::storage::{BlockHeight, TxIndex};
use shielded_sync::tx::{
    Decoded, Header, IbcMessage, IbcShieldedTransfer, Key, MsgShieldedTransfer, Node, Nullifier,
    Section, Transaction, Transfer, Tx, TxData, WrapperTx,
};

struct Node1 {
    response: Result<BlockResults, String>,
    asked: RefCell<Vec<u32>>,
}

impl Node1 {
    fn answering(response: Result<BlockResults, String>) -> Self {
        Node1 { response, asked: RefCell::new(Vec::new()) }
    }
}

impl Client for Node1 {
    fn block_results(&self, height: u32) -> Result<BlockResults, String> {
        self.asked.borrow_mut().push(height);
        self.response.clone()
    }
}

fn digest(tag: u8) -> shielded_sync::tx::Hash {
    shielded_sync::tx::Hash([tag; 32])
}

fn payload(tag: u8) -> Transaction {
    Transaction {
        encoded: vec![tag, tag, tag],
        commitments: vec![Node([tag; 32]), Node([tag + 1; 32])],
        nullifiers: vec![Nullifier([tag + 2; 32])],
    }
}

fn keys(names: &[&str]) -> Vec<Key> {
    names.iter().map(|n| Key(n.to_string())).collect()
}

fn attribute(key: &str, value: &str) -> EventAttribute {
    EventAttribute { key: key.to_string(), value: value.to_string(), index: true }
}

fn event_with(attrs: Vec<EventAttribute>, inner_tx: Decoded<TxResult>) -> TxEvent {
    TxEvent { attributes: attrs, inner_tx }
}

fn result_event(changed: &[&str], ibc_events: Vec<IbcEvent>) -> TxEvent {
    event_with(
        vec![attribute("height", "5"), attribute("inner_tx", "{..}")],
        Decoded::Value(TxResult { changed_keys: keys(changed), ibc_events }),
    )
}

fn bare_event() -> TxEvent {
    event_with(
        vec![attribute("height", "5"), attribute("hash", "AB")],
        Decoded::Malformed("nothing to decode".to_string()),
    )
}

fn packet_event(table: &[(&str, &str)], shielded: bool, memo: Decoded<IbcShieldedTransfer>) -> IbcEvent {
    let mut attributes = AttributeTable::new();
    for (k, v) in table {
        attributes.insert_attribute(k.to_string(), v.to_string());
    }
    IbcEvent {
        event_type: "fungible_token_packet".to_string(),
        attributes,
        receiver_is_shielded: shielded,
        memo,
    }
}

fn shielded_packet(tag: u8) -> IbcEvent {
    packet_event(
        &[("success", "true"), ("receiver", "zaddr"), ("memo", "00FF")],
        true,
        Decoded::Value(IbcShieldedTransfer {
            transfer: Transfer { shielded: None },
            masp_tx: payload(tag),
        }),
    )
}

fn transfer_tx(shielded: Option<shielded_sync::tx::Hash>, sections: Vec<Section>) -> Tx {
    Tx {
        header: Header { wrapper: None },
        data: Some(TxData {
            transfer: Some(Transfer { shielded }),
            ibc: Decoded::Malformed("not a message".to_string()),
        }),
        sections,
    }
}

fn ibc_tx(message: Decoded<IbcMessage>) -> Tx {
    Tx {
        header: Header { wrapper: None },
        data: Some(TxData { transfer: None, ibc: message }),
        sections: vec![],
    }
}

fn wrapper_tx(unshield: Option<shielded_sync::tx::Hash>, sections: Vec<Section>) -> Tx {
    Tx {
        header: Header { wrapper: Some(WrapperTx { unshield_section_hash: unshield }) },
        data: Some(TxData {
            transfer: Some(Transfer { shielded: Some(digest(9)) }),
            ibc: Decoded::Malformed("not a message".to_string()),
        }),
        sections,
    }
}

fn masp_section(tag: u8) -> Section {
    Section { hash: digest(tag), masp_tx: Some(payload(tag)) }
}

fn plain_section(tag: u8) -> Section {
    Section { hash: digest(tag), masp_tx: None }
}

fn from_event(tx: &Tx, event: &TxEvent, check_header: bool) -> Result<Extracted, Error> {
    extract_masp_tx::<Node1>(tx, ExtractShieldedActionArg::Event(event), check_header)
}

fn from_request(
    tx: &Tx,
    node: &Node1,
    height: u64,
    first: Option<u32>,
    check_header: bool,
) -> Result<Extracted, Error> {
    extract_masp_tx(
        tx,
        ExtractShieldedActionArg::Request((node, BlockHeight(height), first.map(TxIndex))),
        check_header,
    )
}

fn silent_node() -> Node1 {
    Node1::answering(Err("must not be asked".to_string()))
}

#[test]
fn fee_unshielding_comes_first() {
    let tx = wrapper_tx(Some(digest(3)), vec![masp_section(9), plain_section(4), masp_section(3)]);
    let event = result_event(&["a", "b"], vec![]);
    assert_eq!(
        from_event(&tx, &event, true),
        Ok((keys(&["a", "b"]), payload(3)))
    );
    // without a look at the header the transfer in the data is followed
    assert_eq!(
        from_event(&tx, &event, false),
        Ok((keys(&["a", "b"]), payload(9)))
    );
}

#[test]
fn fee_unshielding_needs_no_event() {
    let tx = wrapper_tx(Some(digest(3)), vec![masp_section(3)]);
    let node = silent_node();
    assert_eq!(
        from_request(&tx, &node, 8, None, true),
        Ok((vec![], payload(3)))
    );
    assert_eq!(*node.asked.borrow(), Vec::<u32>::new());
}

#[test]
fn fee_unshielding_errors() {
    let event = result_event(&[], vec![]);
    let tx = wrapper_tx(Some(digest(3)), vec![masp_section(9)]);
    assert_eq!(from_event(&tx, &event, true), Err(Error::MissingUnshieldSection));
    let tx = wrapper_tx(Some(digest(3)), vec![plain_section(3), masp_section(3)]);
    assert_eq!(from_event(&tx, &event, true), Err(Error::MissingMaspTransaction));
    let tx = wrapper_tx(Some(digest(3)), vec![masp_section(3)]);
    assert_eq!(from_event(&tx, &bare_event(), true), Err(Error::MissingTxResult));
    let undecoded = event_with(
        vec![attribute("inner_tx", "{")],
        Decoded::Malformed("unexpected end".to_string()),
    );
    assert_eq!(
        from_event(&tx, &undecoded, true),
        Err(Error::MalformedTxResult("unexpected end".to_string()))
    );
    // the section is looked for before the event is read
    let tx = wrapper_tx(Some(digest(3)), vec![]);
    assert_eq!(from_event(&tx, &bare_event(), true), Err(Error::MissingUnshieldSection));
}

#[test]
fn transfer_names_its_section() {
    let tx = transfer_tx(Some(digest(5)), vec![plain_section(1), masp_section(5), masp_section(6)]);
    let event = result_event(&["k"], vec![shielded_packet(40)]);
    assert_eq!(
        from_event(&tx, &event, true),
        Ok((keys(&["k"]), payload(5)))
    );
    let node = silent_node();
    assert_eq!(
        from_request(&tx, &node, 1, Some(3), false),
        Ok((vec![], payload(5)))
    );
    assert_eq!(*node.asked.borrow(), Vec::<u32>::new());
}

#[test]
fn transfer_errors() {
    let event = result_event(&["k"], vec![]);
    let tx = Tx { header: Header { wrapper: None }, data: None, sections: vec![masp_section(5)] };
    assert_eq!(from_event(&tx, &event, true), Err(Error::MissingDataSection));
    let tx = transfer_tx(None, vec![masp_section(5)]);
    assert_eq!(from_event(&tx, &event, true), Err(Error::MissingMaspSectionHash));
    let tx = transfer_tx(Some(digest(5)), vec![masp_section(6)]);
    assert_eq!(from_event(&tx, &event, true), Err(Error::MissingMaspSection));
    let tx = transfer_tx(Some(digest(5)), vec![plain_section(5)]);
    assert_eq!(from_event(&tx, &event, true), Err(Error::MissingMaspTransaction));
    let tx = transfer_tx(Some(digest(5)), vec![masp_section(5)]);
    assert_eq!(from_event(&tx, &bare_event(), true), Err(Error::MissingTxResult));
}

#[test]
fn a_transfer_is_read_before_a_message() {
    let mut tx = transfer_tx(Some(digest(5)), vec![masp_section(5)]);
    tx.data.as_mut().unwrap().ibc = Decoded::Value(IbcMessage::Envelope);
    let event = result_event(&["k"], vec![shielded_packet(40)]);
    assert_eq!(
        from_event(&tx, &event, true),
        Ok((keys(&["k"]), payload(5)))
    );
}

#[test]
fn shielded_transfer_message_has_its_payload_inline() {
    let message = IbcMessage::ShieldedTransfer(MsgShieldedTransfer {
        shielded_transfer: IbcShieldedTransfer {
            transfer: Transfer { shielded: Some(digest(1)) },
            masp_tx: payload(70),
        },
    });
    let tx = ibc_tx(Decoded::Value(message));
    let event = result_event(&["x", "y", "z"], vec![shielded_packet(40)]);
    assert_eq!(
        from_event(&tx, &event, true),
        Ok((keys(&["x", "y", "z"]), payload(70)))
    );
    assert_eq!(from_event(&tx, &bare_event(), true), Err(Error::MissingChangedKeys));
    let undecoded =
        event_with(vec![attribute("inner_tx", "?")], Decoded::Malformed("bad".to_string()));
    assert_eq!(
        from_event(&tx, &undecoded, true),
        Err(Error::MalformedTxResult("bad".to_string()))
    );
    // without an event the payload is had all the same, with no changed keys
    let node = silent_node();
    assert_eq!(from_request(&tx, &node, 3, None, true), Ok((vec![], payload(70))));
    assert_eq!(from_request(&tx, &node, 3, Some(9), false), Ok((vec![], payload(70))));
    assert_eq!(*node.asked.borrow(), Vec::<u32>::new());
}

#[test]
fn a_wrapper_that_names_no_fee_unshielding_goes_on_to_its_data() {
    let event = result_event(&["k"], vec![shielded_packet(40)]);
    // the data is a transfer
    let tx = wrapper_tx(None, vec![masp_section(3), masp_section(9)]);
    assert_eq!(unshield_section(&tx, true), None);
    assert_eq!(from_event(&tx, &event, true), Ok((keys(&["k"]), payload(9))));
    assert_eq!(from_event(&tx, &event, false), Ok((keys(&["k"]), payload(9))));
    let node = silent_node();
    assert_eq!(from_request(&tx, &node, 2, None, true), Ok((vec![], payload(9))));
    assert_eq!(*node.asked.borrow(), Vec::<u32>::new());
    let missing = wrapper_tx(None, vec![masp_section(3)]);
    assert_eq!(from_event(&missing, &event, true), Err(Error::MissingMaspSection));

    // the data is a message in an envelope
    let mut tx = wrapper_tx(None, vec![masp_section(3)]);
    tx.data = Some(TxData { transfer: None, ibc: Decoded::Value(IbcMessage::Envelope) });
    assert_eq!(from_event(&tx, &event, true), Ok((keys(&["k"]), payload(40))));
    let node = Node1::answering(Ok(BlockResults {
        end_block_events: Some(vec![marked("0", &["q"], vec![shielded_packet(41)])]),
    }));
    assert_eq!(from_request(&tx, &node, 6, None, true), Ok((keys(&["q"]), payload(41))));
    assert_eq!(*node.asked.borrow(), vec![6]);

    // there is no data
    let mut tx = wrapper_tx(None, vec![masp_section(3)]);
    tx.data = None;
    assert_eq!(from_event(&tx, &event, true), Err(Error::MissingDataSection));

    // the section that the header names is looked for only where the header is looked at
    let tx = wrapper_tx(Some(digest(3)), vec![masp_section(3), masp_section(9)]);
    assert_eq!(unshield_section(&tx, true), Some(digest(3)));
    assert_eq!(unshield_section(&tx, false), None);
    assert_eq!(unshield_section(&transfer_tx(Some(digest(3)), vec![]), true), None);
}

#[test]
fn envelope_payload_is_found_in_the_emitted_events() {
    let tx = ibc_tx(Decoded::Value(IbcMessage::Envelope));
    let not_a_packet = IbcEvent {
        event_type: "send_packet".to_string(),
        ..shielded_packet(10)
    };
    let event = result_event(&["k1"], vec![not_a_packet, shielded_packet(20), shielded_packet(30)]);
    assert_eq!(
        from_event(&tx, &event, true),
        Ok((keys(&["k1"]), payload(20)))
    );
}

#[test]
fn envelope_event_without_inner_tx_is_a_missing_data_error() {
    let tx = ibc_tx(Decoded::Value(IbcMessage::Envelope));
    let event = bare_event();
    let r = from_event(&tx, &event, true);
    assert_eq!(r, Err(Error::MissingShieldedTransfer));
    assert_eq!(r.unwrap_err().kind(), ErrorKind::MissingData);
    assert_eq!(envelope_payload(&event), Err(Error::MissingShieldedTransfer));
    assert_eq!(
        extract_payload_from_shielded_action::<Node1>(
            tx.data.as_ref().unwrap(),
            ExtractShieldedActionArg::Event(&event)
        ),
        Err(Error::MissingShieldedTransfer)
    );
}

#[test]
fn envelope_errors() {
    let tx = ibc_tx(Decoded::Value(IbcMessage::Envelope));
    let no_transfer = result_event(&["k"], vec![]);
    assert_eq!(from_event(&tx, &no_transfer, true), Err(Error::MissingShieldedTransfer));
    let unreadable = packet_event(
        &[("success", "true"), ("receiver", "zaddr"), ("memo", "zz")],
        true,
        Decoded::Malformed("not hex".to_string()),
    );
    let only_unreadable = result_event(&["k"], vec![unreadable.clone()]);
    assert_eq!(from_event(&tx, &only_unreadable, true), Err(Error::MissingShieldedTransfer));
    // an event that cannot be read is passed over
    let then_readable = result_event(&["k"], vec![unreadable, shielded_packet(50)]);
    assert_eq!(
        from_event(&tx, &then_readable, true),
        Ok((keys(&["k"]), payload(50)))
    );
    let undecoded =
        event_with(vec![attribute("inner_tx", "?")], Decoded::Malformed("bad".to_string()));
    assert_eq!(
        from_event(&tx, &undecoded, true),
        Err(Error::MalformedTxResult("bad".to_string()))
    );
}

#[test]
fn other_messages_are_a_hard_failure() {
    let tx = ibc_tx(Decoded::Value(IbcMessage::Transfer));
    let event = result_event(&["k"], vec![shielded_packet(50)]);
    let r = from_event(&tx, &event, true);
    assert_eq!(r, Err(Error::NotShieldedAction));
    assert_eq!(r.unwrap_err().kind(), ErrorKind::Decode);
    let node = silent_node();
    assert_eq!(from_request(&tx, &node, 1, None, true), Err(Error::NotShieldedAction));
    let tx = ibc_tx(Decoded::Malformed("unknown type url".to_string()));
    assert_eq!(
        from_event(&tx, &event, true),
        Err(Error::InvalidIbcMessage("unknown type url".to_string()))
    );
    assert_eq!(
        from_request(&tx, &node, 1, None, true),
        Err(Error::InvalidIbcMessage("unknown type url".to_string()))
    );
    assert_eq!(*node.asked.borrow(), Vec::<u32>::new());
}

fn marked(index: &str, changed: &[&str], ibc_events: Vec<IbcEvent>) -> TxEvent {
    event_with(
        vec![attribute("is_valid_masp_tx", index), attribute("inner_tx", "{..}")],
        Decoded::Value(TxResult { changed_keys: keys(changed), ibc_events }),
    )
}

#[test]
fn envelope_with_a_request_asks_the_node_and_takes_the_first_event() {
    let tx = ibc_tx(Decoded::Value(IbcMessage::Envelope));
    let events = vec![
        result_event(&["unmarked"], vec![shielded_packet(1)]),
        marked("1", &["below"], vec![shielded_packet(2)]),
        marked("4", &["first"], vec![shielded_packet(3)]),
        marked("2", &["later"], vec![shielded_packet(4)]),
    ];
    let node = Node1::answering(Ok(BlockResults { end_block_events: Some(events) }));
    assert_eq!(
        from_request(&tx, &node, 77, Some(2), true),
        Ok((keys(&["first"]), payload(3)))
    );
    assert_eq!(*node.asked.borrow(), vec![77]);
    // without a floor the first marked event is taken
    assert_eq!(
        from_request(&tx, &node, 77, None, true),
        Ok((keys(&["below"]), payload(2)))
    );
    assert_eq!(
        from_request(&tx, &node, 77, Some(5), true),
        Err(Error::MissingIbcEvent(BlockHeight(77)))
    );
}

#[test]
fn envelope_with_a_request_errors() {
    let tx = ibc_tx(Decoded::Value(IbcMessage::Envelope));
    let node = Node1::answering(Err("connection refused".to_string()));
    let r = from_request(&tx, &node, 9, None, true);
    assert_eq!(r, Err(Error::Query("connection refused".to_string())));
    assert_eq!(r.unwrap_err().kind(), ErrorKind::Query);
    let node = Node1::answering(Ok(BlockResults { end_block_events: None }));
    assert_eq!(from_request(&tx, &node, 9, None, true), Err(Error::MissingIbcEvent(BlockHeight(9))));
    let node = Node1::answering(Ok(BlockResults { end_block_events: Some(vec![]) }));
    assert_eq!(from_request(&tx, &node, 9, None, true), Err(Error::MissingIbcEvent(BlockHeight(9))));
    let node = Node1::answering(Ok(BlockResults {
        end_block_events: Some(vec![marked("x1", &[], vec![shielded_packet(1)])]),
    }));
    assert_eq!(from_request(&tx, &node, 9, None, true), Err(Error::MalformedTxIndex));
    let node = Node1::answering(Ok(BlockResults {
        end_block_events: Some(vec![marked("0", &[], vec![])]),
    }));
    assert_eq!(from_request(&tx, &node, 9, None, true), Err(Error::MissingShieldedTransfer));
}

#[test]
fn the_node_is_asked_for_the_low_bits_of_the_height() {
    assert_eq!(queried_height(BlockHeight(0)), 0);
    assert_eq!(queried_height(BlockHeight(4294967295)), 4294967295);
    assert_eq!(queried_height(BlockHeight(4294967296)), 0);
    assert_eq!(queried_height(BlockHeight(4294967296 * 3 + 12)), 12);
    let node = Node1::answering(Ok(BlockResults { end_block_events: None }));
    assert_eq!(
        get_indexed_masp_events_at_height(&node, BlockHeight(4294967296 + 5), None),
        Ok(None)
    );
    assert_eq!(*node.asked.borrow(), vec![5]);
}

#[test]
fn extraction_is_repeatable() {
    let txs = vec![
        wrapper_tx(Some(digest(3)), vec![masp_section(3)]),
        transfer_tx(Some(digest(5)), vec![masp_section(5)]),
        transfer_tx(Some(digest(5)), vec![]),
        ibc_tx(Decoded::Value(IbcMessage::Envelope)),
        ibc_tx(Decoded::Value(IbcMessage::Transfer)),
    ];
    let events = vec![bare_event(), result_event(&["k"], vec![shielded_packet(6)])];
    for tx in &txs {
        for event in &events {
            for check_header in [true, false] {
                let first = from_event(tx, event, check_header);
                let second = from_event(tx, event, check_header);
                assert_eq!(first, second);
            }
        }
    }
}

#[test]
fn changed_keys_come_from_the_event_or_are_empty() {
    assert_eq!(changed_keys(None), Ok(vec![]));
    let event = result_event(&["b", "a", "b"], vec![]);
    assert_eq!(changed_keys(Some(&event)), Ok(keys(&["b", "a", "b"])));
    assert_eq!(changed_keys(Some(&bare_event())), Err(Error::MissingTxResult));
    assert_eq!(
        with_changed_keys(Ok(payload(1)), None),
        Ok((vec![], payload(1)))
    );
    assert_eq!(with_changed_keys(Err(Error::MissingMaspSection), Some(&event)), Err(Error::MissingMaspSection));
    assert_eq!(
        with_changed_keys(Ok(payload(1)), Some(&bare_event())),
        Err(Error::MissingTxResult)
    );
}

#[test]
fn sections_are_found_by_their_digest() {
    let tx = transfer_tx(None, vec![plain_section(1), masp_section(2), masp_section(1)]);
    assert_eq!(tx.get_section(&digest(1)), Some(&plain_section(1)));
    assert_eq!(tx.get_section(&digest(2)), Some(&masp_section(2)));
    assert_eq!(tx.get_section(&digest(3)), None);
    assert_eq!(masp_section(2).masp_tx(), Some(payload(2)));
    assert_eq!(plain_section(2).masp_tx(), None);
    assert_eq!(section_payload(&tx, &digest(2), Error::MissingMaspSection), Ok(payload(2)));
    assert_eq!(
        section_payload(&tx, &digest(1), Error::MissingMaspSection),
        Err(Error::MissingMaspTransaction)
    );
    assert_eq!(
        section_payload(&tx, &digest(7), Error::MissingUnshieldSection),
        Err(Error::MissingUnshieldSection)
    );
    assert_eq!(tx.header(), Header { wrapper: None });
    assert_eq!(tx.header().wrapper(), None);
    assert!(tx.data().is_some());
    let mut differs = [1u8; 32];
    differs[31] = 2;
    assert!(digest(1).same(&digest(1)));
    assert!(!digest(1).same(&shielded_sync::tx::Hash(differs)));
    assert_eq!(payload(4).duplicate(), payload(4));
}

#[test]
fn payload_of_a_tx_gives_wrapper_and_transfer() {
    let tx = wrapper_tx(Some(digest(3)), vec![]);
    let mut wrapper = None;
    let mut transfer = None;
    assert_eq!(extract_payload(tx, &mut wrapper, &mut transfer), Ok(()));
    assert_eq!(wrapper, Some(WrapperTx { unshield_section_hash: Some(digest(3)) }));
    assert_eq!(transfer, Some(Transfer { shielded: Some(digest(9)) }));

    // a transfer that is there stays where the data holds none
    let tx = ibc_tx(Decoded::Value(IbcMessage::Envelope));
    let mut wrapper = Some(WrapperTx { unshield_section_hash: None });
    let mut transfer = Some(Transfer { shielded: Some(digest(1)) });
    assert_eq!(extract_payload(tx, &mut wrapper, &mut transfer), Ok(()));
    assert_eq!(wrapper, None);
    assert_eq!(transfer, Some(Transfer { shielded: Some(digest(1)) }));
}

#[test]
fn events_of_a_block_are_kept_by_their_index() {
    let events = vec![
        marked("3", &["a"], vec![]),
        bare_event(),
        marked("0", &["b"], vec![]),
        marked("+7", &["c"], vec![]),
        marked("4294967295", &["d"], vec![]),
    ];
    assert_eq!(masp_index(&events[0]), Ok(Some(3)));
    assert_eq!(masp_index(&events[1]), Ok(None));
    assert_eq!(masp_index(&events[4]), Ok(Some(4294967295)));
    assert_eq!(masp_index(&marked("4294967296", &[], vec![])), Err(Error::MalformedTxIndex));
    assert_eq!(masp_index(&marked("", &[], vec![])), Err(Error::MalformedTxIndex));

    assert_eq!(
        indexed_masp_events(events.clone(), None),
        Ok(vec![
            (TxIndex(3), events[0].clone()),
            (TxIndex(0), events[2].clone()),
            (TxIndex(7), events[3].clone()),
            (TxIndex(4294967295), events[4].clone()),
        ])
    );
    assert_eq!(
        indexed_masp_events(events.clone(), Some(TxIndex(4))),
        Ok(vec![(TxIndex(7), events[3].clone()), (TxIndex(4294967295), events[4].clone())])
    );
    assert_eq!(indexed_masp_events(vec![], Some(TxIndex(4))), Ok(vec![]));
    let mut broken = events.clone();
    broken.insert(1, marked("1 ", &[], vec![]));
    assert_eq!(indexed_masp_events(broken, None), Err(Error::MalformedTxIndex));

    assert_eq!(
        events_of_response(Ok(BlockResults { end_block_events: Some(events.clone()) }), Some(TxIndex(8))),
        Ok(Some(vec![(TxIndex(4294967295), events[4].clone())]))
    );
    assert_eq!(events_of_response(Ok(BlockResults { end_block_events: None }), None), Ok(None));
    assert_eq!(
        events_of_response(Err("timeout".to_string()), None),
        Err(Error::Query("timeout".to_string()))
    );
    assert_eq!(
        first_masp_event(
            Ok(BlockResults { end_block_events: Some(events.clone()) }),
            BlockHeight(2),
            Some(TxIndex(1))
        ),
        Ok(events[0].clone())
    );
    assert_eq!(
        first_masp_event(Ok(BlockResults { end_block_events: Some(vec![bare_event()]) }), BlockHeight(2), None),
        Err(Error::MissingIbcEvent(BlockHeight(2)))
    );
}

#[test]
fn shielded_transfer_is_read_from_a_packet_event() {
    let transfer = IbcShieldedTransfer { transfer: Transfer { shielded: None }, masp_tx: payload(40) };
    assert_eq!(get_shielded_transfer(&shielded_packet(40)), Ok(Some(&transfer)));
    let other_type = IbcEvent { event_type: "denomination_trace".to_string(), ..shielded_packet(40) };
    assert_eq!(get_shielded_transfer(&other_type), Ok(None));

    let memo = || Decoded::Value(transfer.clone());
    let all = [("success", "false"), ("receiver", "zaddr"), ("memo", "00")];
    assert_eq!(get_shielded_transfer(&packet_event(&all, true, memo())), Ok(Some(&transfer)));
    assert_eq!(get_shielded_transfer(&packet_event(&all, false, memo())), Ok(None));
    let no_success = [("receiver", "zaddr"), ("memo", "00")];
    assert_eq!(get_shielded_transfer(&packet_event(&no_success, true, memo())), Ok(None));
    let bad_success = [("success", "yes"), ("receiver", "zaddr"), ("memo", "00")];
    assert_eq!(get_shielded_transfer(&packet_event(&bad_success, true, memo())), Ok(None));
    let no_receiver = [("success", "true"), ("memo", "00")];
    assert_eq!(get_shielded_transfer(&packet_event(&no_receiver, true, memo())), Ok(None));
    let no_memo = [("success", "true"), ("receiver", "zaddr")];
    assert_eq!(get_shielded_transfer(&packet_event(&no_memo, true, memo())), Ok(None));
    assert_eq!(
        get_shielded_transfer(&packet_event(&all, true, Decoded::Malformed("odd length".to_string()))),
        Err(shielded_sync::ibc::Error::Event(EventError::AttributeRetrieval(
            "odd length".to_string()
        )))
    );
    assert_eq!(
        get_shielded_transfer(&packet_event(&no_memo, true, Decoded::Malformed("x".to_string()))),
        Ok(None)
    );

    assert_eq!(first_shielded_transfer(&vec![]), None);
    assert_eq!(
        first_shielded_transfer(&vec![other_type, shielded_packet(8), shielded_packet(9)]),
        Some(payload(8))
    );
    let message = MsgShieldedTransfer { shielded_transfer: transfer.clone() };
    assert_eq!(shielded_transfer_payload(&message, None), Ok((vec![], payload(40))));
    assert_eq!(
        shielded_transfer_payload(&message, Some(&bare_event())),
        Err(Error::MissingChangedKeys)
    );
    assert_eq!(
        shielded_transfer_payload(&message, Some(&result_event(&["q"], vec![]))),
        Ok((keys(&["q"]), payload(40)))
    );
}

#[test]
fn errors_have_their_classes() {
    let decode = [
        Error::MalformedTxResult(String::new()),
        Error::InvalidIbcMessage(String::new()),
        Error::NotShieldedAction,
        Error::MalformedTxIndex,
    ];
    for e in decode {
        assert_eq!(e.kind(), ErrorKind::Decode);
    }
    let missing = [
        Error::MissingUnshieldSection,
        Error::MissingMaspTransaction,
        Error::MissingTxResult,
        Error::MissingDataSection,
        Error::MissingMaspSectionHash,
        Error::MissingMaspSection,
        Error::MissingChangedKeys,
        Error::MissingIbcEvent(BlockHeight(1)),
        Error::MissingShieldedTransfer,
    ];
    for e in missing {
        assert_eq!(e.kind(), ErrorKind::MissingData);
    }
    for e in [Error::TreeFull, Error::DecryptionMismatch, Error::UnknownNotePosition] {
        assert_eq!(e.kind(), ErrorKind::Cryptographic);
    }
    assert_eq!(Error::Query(String::new()).kind(), ErrorKind::Query);
}
